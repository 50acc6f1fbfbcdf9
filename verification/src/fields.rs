//! The fixed set of schema fields and the registry of their handles.

use vstd::prelude::*;
use std::collections::{HashMap, HashSet};

verus! {

/// A semantic field of the index schema.
#[derive(Debug, Clone, Copy, PartialEq, Eq, Structural, Hash)]
pub enum Fields {
    /// The unique id of an object.
    Id,
    /// The facet that holds the kind of an object.
    Type,
    /// Indexed text; a document may hold several.
    Text,
    /// Creation time, in seconds since the epoch.
    Ctime,
    /// Time of the last update, in seconds since the epoch.
    Mtime,
    /// Time of the last interaction, in seconds since the epoch.
    LastInteraction,
    /// A checksum of the data an object stands for.
    Chksum,
    /// The id of a tag; a document may hold several.
    Tag,
    /// The payload, as one structured value.
    Json,
}

/// The type of the values of a field.
#[derive(Debug, Clone, Copy, PartialEq, Eq, Structural)]
pub enum FieldKind {
    /// An unsigned 64-bit number.
    U64,
    /// A hierarchical facet.
    Facet,
    /// Tokenized text.
    Text,
    /// Raw bytes.
    Bytes,
    /// A structured value.
    Json,
}

/// How the index keeps the values of a field.
#[derive(Debug, Clone, Copy, PartialEq, Eq, Structural)]
pub struct FieldOptions {
    /// Whether a document gives the value back.
    pub stored: bool,
    /// Whether a search finds documents by the value.
    pub indexed: bool,
    /// Whether the value is kept in a fast column, to rank by.
    pub fast: bool,
}

/// The number of schema fields.
pub const FIELD_COUNT: usize = 9;

impl Fields {
    /// The place of the field in the schema, counted from zero.
    pub open spec fn position(self) -> int {
        match self {
            Fields::Id => 0,
            Fields::Type => 1,
            Fields::Text => 2,
            Fields::Chksum => 3,
            Fields::Tag => 4,
            Fields::Json => 5,
            Fields::Ctime => 6,
            Fields::Mtime => 7,
            Fields::LastInteraction => 8,
        }
    }

    /// The name of the field in the schema.
    pub open spec fn name(self) -> Seq<char> {
        match self {
            Fields::Id => "id"@,
            Fields::Type => "type"@,
            Fields::Text => "text"@,
            Fields::Ctime => "ctime"@,
            Fields::Mtime => "mtime"@,
            Fields::LastInteraction => "last_interaction"@,
            Fields::Chksum => "chksum"@,
            Fields::Tag => "tag"@,
            Fields::Json => "json"@,
        }
    }

    /// The type of the values of the field.
    pub open spec fn kind_spec(self) -> FieldKind {
        match self {
            Fields::Type => FieldKind::Facet,
            Fields::Text => FieldKind::Text,
            Fields::Chksum => FieldKind::Bytes,
            Fields::Json => FieldKind::Json,
            _ => FieldKind::U64,
        }
    }

    /// How the index keeps the values of the field: every field is stored;
    /// numbers are also indexed and fast; text is also indexed.
    pub open spec fn options_spec(self) -> FieldOptions {
        match self.kind_spec() {
            FieldKind::U64 => FieldOptions { stored: true, indexed: true, fast: true },
            FieldKind::Text => FieldOptions { stored: true, indexed: true, fast: false },
            _ => FieldOptions { stored: true, indexed: false, fast: false },
        }
    }

    /// The field at a place of the schema.
    pub open spec fn at(position: int) -> Fields {
        if position == 0 {
            Fields::Id
        } else if position == 1 {
            Fields::Type
        } else if position == 2 {
            Fields::Text
        } else if position == 3 {
            Fields::Chksum
        } else if position == 4 {
            Fields::Tag
        } else if position == 5 {
            Fields::Json
        } else if position == 6 {
            Fields::Ctime
        } else if position == 7 {
            Fields::Mtime
        } else {
            Fields::LastInteraction
        }
    }

    /// The place of the field in the schema, counted from zero.
    pub fn index(self) -> (i: usize)
        ensures
            i == self.position(),
            i < FIELD_COUNT,
    {
        match self {
            Fields::Id => 0,
            Fields::Type => 1,
            Fields::Text => 2,
            Fields::Chksum => 3,
            Fields::Tag => 4,
            Fields::Json => 5,
            Fields::Ctime => 6,
            Fields::Mtime => 7,
            Fields::LastInteraction => 8,
        }
    }

    /// The field at a place of the schema, if the place exists.
    pub fn from_index(i: usize) -> (f: Option<Fields>)
        ensures
            f.is_some() <==> i < FIELD_COUNT,
            f.is_some() ==> f.unwrap() == Fields::at(i as int) && f.unwrap().position() == i,
    {
        match i {
            0 => Some(Fields::Id),
            1 => Some(Fields::Type),
            2 => Some(Fields::Text),
            3 => Some(Fields::Chksum),
            4 => Some(Fields::Tag),
            5 => Some(Fields::Json),
            6 => Some(Fields::Ctime),
            7 => Some(Fields::Mtime),
            8 => Some(Fields::LastInteraction),
            _ => None,
        }
    }

    /// The name of the field in the schema.
    pub fn as_str(self) -> (n: &'static str)
        ensures
            n@ == self.name(),
    {
        match self {
            Fields::Id => "id",
            Fields::Type => "type",
            Fields::Text => "text",
            Fields::Ctime => "ctime",
            Fields::Mtime => "mtime",
            Fields::LastInteraction => "last_interaction",
            Fields::Chksum => "chksum",
            Fields::Tag => "tag",
            Fields::Json => "json",
        }
    }

    /// How the index keeps the values of the field.
    pub fn options(self) -> (o: FieldOptions)
        ensures
            o == self.options_spec(),
    {
        match self.kind() {
            FieldKind::U64 => FieldOptions { stored: true, indexed: true, fast: true },
            FieldKind::Text => FieldOptions { stored: true, indexed: true, fast: false },
            _ => FieldOptions { stored: true, indexed: false, fast: false },
        }
    }

    /// The type of the values of the field.
    pub fn kind(self) -> (k: FieldKind)
        ensures
            k == self.kind_spec(),
    {
        match self {
            Fields::Type => FieldKind::Facet,
            Fields::Text => FieldKind::Text,
            Fields::Chksum => FieldKind::Bytes,
            Fields::Json => FieldKind::Json,
            _ => FieldKind::U64,
        }
    }
}

/// The fields of the schema, in the order of their places. A schema to
/// which the fields are added in this order, each by its name, with its
/// kind and options, hands out the handles that [`FieldRegistry::new`]
/// expects.
pub fn schema_fields() -> (all: Vec<Fields>)
    ensures
        all@.len() == FIELD_COUNT,
        forall|i: int| 0 <= i < FIELD_COUNT ==> all@[i] == Fields::at(i),
{
    let mut all: Vec<Fields> = Vec::new();
    all.push(Fields::Id);
    all.push(Fields::Type);
    all.push(Fields::Text);
    all.push(Fields::Chksum);
    all.push(Fields::Tag);
    all.push(Fields::Json);
    all.push(Fields::Ctime);
    all.push(Fields::Mtime);
    all.push(Fields::LastInteraction);
    all
}

/// Every field has a place below the field count, `at` undoes `position`,
/// and so two fields at one place are the same field.
pub proof fn lemma_positions(f: Fields, g: Fields)
    ensures
        0 <= f.position() < FIELD_COUNT,
        Fields::at(f.position()) == f,
        f.position() == g.position() ==> f == g,
{
}

/// Two fields with one name are the same field.
pub proof fn lemma_names_distinct(f: Fields, g: Fields)
    requires
        f.name() == g.name(),
    ensures
        f == g,
{
    reveal_strlit("id");
    reveal_strlit("type");
    reveal_strlit("text");
    reveal_strlit("ctime");
    reveal_strlit("mtime");
    reveal_strlit("last_interaction");
    reveal_strlit("chksum");
    reveal_strlit("tag");
    reveal_strlit("json");
    if f != g {
        let a = f.name();
        let b = g.name();
        assert(a.len() == b.len());
        assert(a[0] == b[0]);
        assert(a[1] == b[1]);
    }
}

/// The handles under which the index knows the schema fields.
///
/// A registry always holds one handle for each field, and no handle twice.
#[derive(Debug, Clone)]
pub struct FieldRegistry {
    handles: HashMap<u32, u32>,
}

impl FieldRegistry {
    /// Whether the registry holds one handle per field and none twice.
    pub closed spec fn wf(self) -> bool {
        &&& forall|i: u32| 0 <= i < FIELD_COUNT ==> self.handles@.contains_key(i)
        &&& forall|i: u32, j: u32|
            0 <= i < j < FIELD_COUNT ==> self.handles@[i] != self.handles@[j]
    }

    /// The handle of a field.
    pub closed spec fn handle(self, f: Fields) -> u32 {
        self.handles@[f.position() as u32]
    }

    /// The registry of a fresh schema, to which the fields were added in the
    /// order of their places: each handle is the place of its field.
    pub fn new() -> (r: FieldRegistry)
        ensures
            r.wf(),
            forall|f: Fields| #[trigger] r.handle(f) == f.position(),
    {
        broadcast use vstd::std_specs::hash::group_hash_axioms;

        let mut handles: HashMap<u32, u32> = HashMap::new();
        handles.insert(0, 0);
        handles.insert(1, 1);
        handles.insert(2, 2);
        handles.insert(3, 3);
        handles.insert(4, 4);
        handles.insert(5, 5);
        handles.insert(6, 6);
        handles.insert(7, 7);
        handles.insert(8, 8);
        FieldRegistry { handles }
    }

    /// The registry that gives the field at place `i` the handle
    /// `handles[i]`. There is one exactly when `handles` holds one handle
    /// for each field and none twice.
    pub fn from_handles(handles: Vec<u32>) -> (r: Option<FieldRegistry>)
        ensures
            r.is_some() <==> handles@.len() == FIELD_COUNT && handles@.no_duplicates(),
            r.is_some() ==> r.unwrap().wf() && forall|f: Fields| #[trigger]
                r.unwrap().handle(f) == handles@[f.position()],
    {
        broadcast use vstd::std_specs::hash::group_hash_axioms;

        if handles.len() != FIELD_COUNT {
            return None;
        }
        let mut seen: HashSet<u32> = HashSet::new();
        let mut map: HashMap<u32, u32> = HashMap::new();
        let mut i: u32 = 0;
        while i < 9
            invariant
                handles@.len() == FIELD_COUNT,
                0 <= i <= 9,
                forall|a: int, b: int| 0 <= a < b < i ==> handles@[a] != handles@[b],
                forall|h: u32| seen@.contains(h) <==> exists|a: int| 0 <= a < i && handles@[a] == h,
                forall|k: u32| map@.contains_key(k) <==> k < i,
                forall|k: u32| k < i ==> map@[k] == handles@[k as int],
            decreases 9 - i,
        {
            let h = handles[i as usize];
            let ghost before = seen@;
            if !seen.insert(h) {
                proof {
                    let a = choose|a: int| 0 <= a < i && handles@[a] == h;
                    assert(handles@[a] == handles@[i as int]);
                }
                return None;
            }
            map.insert(i, h);
            proof {
                assert forall|x: u32| seen@.contains(x) <==> exists|a: int|
                    0 <= a < i + 1 && handles@[a] == x by {
                    if seen@.contains(x) && x != h {
                        assert(before.contains(x));
                        let a = choose|a: int| 0 <= a < i && handles@[a] == x;
                        assert(0 <= a < i + 1 && handles@[a] == x);
                    }
                    if x == h {
                        assert(handles@[i as int] == x);
                    }
                }
            }
            i += 1;
        }
        Some(FieldRegistry { handles: map })
    }

    /// The handle of a field.
    pub fn get_field(&self, f: Fields) -> (h: u32)
        requires
            self.wf(),
        ensures
            h == self.handle(f),
    {
        broadcast use vstd::std_specs::hash::group_hash_axioms;

        let key = f.index() as u32;
        match self.handles.get(&key) {
            Some(h) => *h,
            None => {
                assert(false);
                0
            },
        }
    }

    /// The field that a handle belongs to, if it belongs to one.
    pub fn field_of(&self, handle: u32) -> (f: Option<Fields>)
        requires
            self.wf(),
        ensures
            match f {
                Some(g) => self.handle(g) == handle,
                None => forall|g: Fields| self.handle(g) != handle,
            },
    {
        broadcast use vstd::std_specs::hash::group_hash_axioms;

        let mut i: u32 = 0;
        while i < 9
            invariant
                self.wf(),
                0 <= i <= 9,
                forall|k: u32| 0 <= k < i ==> self.handles@[k] != handle,
            decreases 9 - i,
        {
            match self.handles.get(&i) {
                Some(h) => {
                    if *h == handle {
                        return Fields::from_index(i as usize);
                    }
                },
                None => {
                    assert(false);
                },
            }
            i += 1;
        }
        proof {
            assert forall|g: Fields| self.handle(g) != handle by {
                lemma_positions(g, g);
            }
        }
        None
    }

    /// Two fields with one handle are the same field.
    pub proof fn lemma_handles_distinct(self, f: Fields, g: Fields)
        requires
            self.wf(),
            self.handle(f) == self.handle(g),
        ensures
            f == g,
    {
        lemma_positions(f, g);
        let i = f.position() as u32;
        let j = g.position() as u32;
        if i < j {
            assert(self.handles@[i] != self.handles@[j]);
        } else if j < i {
            assert(self.handles@[j] != self.handles@[i]);
        }
    }
}

} // verus!
