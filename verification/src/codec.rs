//! The two-way mapping between typed values and index documents.
//!
//! A value is written into a document layer by layer, the outer layer
//! first, and read back in the same way. Each layer owns some fields of the
//! schema and leaves the others alone, so a document can be read through any
//! type whose layers it holds.

use vstd::prelude::*;
use crate::document::{
    all_of, doc_add_facet, doc_add_json_object, doc_add_text, doc_add_u64, doc_entries,
    doc_get_all, doc_get_first, facet_parse, facet_path, facet_to_path, first_of, is_path,
    json_text, lemma_all_of_add, lemma_all_of_push, plain_path, stored_path, views_of, Entry,
    JsonObject, Stored, StoredView,
};
use crate::error::{Error, ErrorKind};
use crate::facet::{FacetView, TypeFacet};
use crate::fields::{FieldRegistry, Fields};
use crate::objects::{
    indexed_views, json_as_string, Id, Indexed, IndexedView, Meta, MetaModel,
    SearchableEntry, SearchableModel, Taggable, TaggableModel,
};

verus! {

/// A type whose values can be written into a document and read back.
pub trait DbAble: Sized {
    /// The mathematical value of a value of the type.
    type Model;

    /// The mathematical value of `self`.
    spec fn model(&self) -> Self::Model;

    /// Whether the type writes and reads entries of the field.
    spec fn touches(f: Fields) -> bool;

    /// Whether no field is owned by two layers of the type.
    spec fn layered() -> bool;

    /// Whether writing the value succeeds.
    spec fn encodable(&self) -> bool;

    /// The message of the error with which writing the value fails.
    spec fn encode_error(&self) -> Seq<char>;

    /// The entries that writing the value appends: all of its entries where
    /// writing succeeds, and those written before the failure where not.
    spec fn written(&self, fields: FieldRegistry) -> Seq<Entry>;

    /// Whether the value is the one that its own entries read back as.
    spec fn canonical(&self) -> bool;

    /// What reading the entries gives: the value's model, or the message of
    /// the error.
    spec fn decoded(fields: FieldRegistry, entries: Seq<Entry>) -> Result<Self::Model, Seq<char>>;

    /// Appends the entries of the value to the document. A value whose
    /// shape is malformed is refused.
    fn add(self, fields: &FieldRegistry, doc: &mut tantivy::Document) -> (r: Result<(), Error>)
        requires
            fields.wf(),
        ensures
            doc_entries(*final(doc)) == doc_entries(*old(doc)) + self.written(*fields),
            match r {
                Ok(_) => self.encodable(),
                Err(e) => !self.encodable() && e@ == self.encode_error() && e.kind
                    == ErrorKind::Malformed,
            },
    ;

    /// Reads a value from the entries of the document. A field that is
    /// absent or holds a value of the wrong type makes the document corrupt.
    fn take(fields: &FieldRegistry, doc: &tantivy::Document) -> (r: Result<Self, Error>)
        requires
            fields.wf(),
        ensures
            match r {
                Ok(v) => Self::decoded(*fields, doc_entries(*doc)) == Ok::<Self::Model, Seq<char>>(
                    v.model(),
                ),
                Err(e) => Self::decoded(*fields, doc_entries(*doc)) == Err::<
                    Self::Model,
                    Seq<char>,
                >(e@) && e.kind == ErrorKind::Corrupt,
            },
    ;

    /// A value writes no entry of a field that its type does not touch.
    proof fn lemma_written(self, fields: FieldRegistry, f: Fields)
        requires
            fields.wf(),
            !Self::touches(f),
        ensures
            all_of(self.written(fields), fields.handle(f)) == Seq::<StoredView>::empty(),
    ;

    /// Reading depends only on the entries of the fields that the type
    /// touches.
    proof fn lemma_frame(fields: FieldRegistry, a: Seq<Entry>, b: Seq<Entry>)
        requires
            fields.wf(),
            forall|f: Fields| #[trigger]
                Self::touches(f) ==> all_of(a, fields.handle(f)) == all_of(b, fields.handle(f)),
        ensures
            Self::decoded(fields, a) == Self::decoded(fields, b),
    ;

    /// A value that can be written and is canonical reads back from its own
    /// entries as itself.
    proof fn lemma_round_trip(self, fields: FieldRegistry)
        requires
            fields.wf(),
            Self::layered(),
            self.encodable(),
            self.canonical(),
        ensures
            Self::decoded(fields, self.written(fields)) == Ok::<Self::Model, Seq<char>>(
                self.model(),
            ),
    ;
}

/// The number that the first entry of a field holds, if that entry exists
/// and holds a number.
pub open spec fn u64_of(entries: Seq<Entry>, field: u32) -> Option<u64> {
    match first_of(entries, field) {
        Some(StoredView::U64(n)) => Some(n),
        _ => None,
    }
}

/// The five entries that the [`Meta`] layer writes, for a kind that the
/// engine prints as `path`.
pub open spec fn meta_entries(
    fields: FieldRegistry,
    id: Id,
    path: Seq<char>,
    ctime: u64,
    last_update: u64,
    last_interaction: u64,
) -> Seq<Entry> {
    seq![
        Entry { field: fields.handle(Fields::Id), value: StoredView::U64(id as u64) },
        Entry { field: fields.handle(Fields::Type), value: StoredView::Facet(path) },
        Entry { field: fields.handle(Fields::Ctime), value: StoredView::U64(ctime) },
        Entry { field: fields.handle(Fields::Mtime), value: StoredView::U64(last_update) },
        Entry {
            field: fields.handle(Fields::LastInteraction),
            value: StoredView::U64(last_interaction),
        },
    ]
}

/// Whether the field belongs to the [`Meta`] layer.
pub open spec fn meta_field(f: Fields) -> bool {
    f == Fields::Id || f == Fields::Type || f == Fields::Ctime || f == Fields::Mtime || f
        == Fields::LastInteraction
}

/// One entry per tag id, in order.
pub open spec fn tag_entries(fields: FieldRegistry, tags: Seq<Id>) -> Seq<Entry> {
    Seq::new(
        tags.len(),
        |i: int| Entry { field: fields.handle(Fields::Tag), value: StoredView::U64(tags[i] as u64) },
    )
}

/// The tag ids that the values of the tag field give: each value must be a
/// number, and is cut to the width of an id.
pub open spec fn tags_from(values: Seq<StoredView>) -> Option<Seq<Id>> {
    if forall|i: int| 0 <= i < values.len() ==> values[i] is U64 {
        Some(Seq::new(values.len(), |i: int| values[i]->U64_0 as u32))
    } else {
        None
    }
}

/// How many entries at the start of `items` are valid.
pub open spec fn valid_prefix(items: Seq<IndexedView>) -> nat
    decreases items.len(),
{
    if items.len() == 0 {
        0
    } else {
        let p = valid_prefix(items.drop_last());
        if p == items.len() - 1 && items.last().valid() {
            items.len()
        } else {
            p
        }
    }
}

/// One text entry for each item of the valid prefix of `items`.
pub open spec fn text_entries(fields: FieldRegistry, items: Seq<IndexedView>) -> Seq<Entry> {
    Seq::new(
        valid_prefix(items),
        |i: int| Entry { field: fields.handle(Fields::Text), value: StoredView::Text(items[i].text.unwrap()) },
    )
}

/// The entries to index that the values of the text field give: one for
/// each value that is a text; other values are passed over.
pub open spec fn texts_from(values: Seq<StoredView>) -> Seq<IndexedView>
    decreases values.len(),
{
    if values.len() == 0 {
        Seq::empty()
    } else {
        let rest = texts_from(values.drop_last());
        match values.last() {
            StoredView::Text(s) => rest.push(IndexedView { field: Fields::Text, text: Some(s) }),
            _ => rest,
        }
    }
}

/// The valid prefix is no longer than the sequence, its items are valid,
/// and where it is shorter, the item behind it is not valid.
pub proof fn lemma_valid_prefix(items: Seq<IndexedView>)
    ensures
        valid_prefix(items) <= items.len(),
        forall|i: int| 0 <= i < valid_prefix(items) ==> (#[trigger] items[i]).valid(),
        valid_prefix(items) < items.len() ==> !items[valid_prefix(items) as int].valid(),
    decreases items.len(),
{
    if items.len() > 0 {
        lemma_valid_prefix(items.drop_last());
        let p = valid_prefix(items.drop_last());
        assert forall|i: int| 0 <= i < valid_prefix(items) implies (#[trigger] items[i]).valid() by {
            if i < items.len() - 1 {
                assert(items.drop_last()[i] == items[i]);
            }
        }
        if p < items.len() - 1 {
            assert(items.drop_last()[p as int] == items[p as int]);
        }
    }
}

/// Once an item is not valid, what follows it does not count.
pub proof fn lemma_valid_prefix_stops(items: Seq<IndexedView>, k: int)
    requires
        0 <= k < items.len(),
        valid_prefix(items.take(k)) == k,
        !items[k].valid(),
    ensures
        valid_prefix(items) == k,
    decreases items.len() - k,
{
    lemma_valid_prefix(items.take(k + 1));
    assert(items.take(k + 1).drop_last() == items.take(k));
    assert(valid_prefix(items.take(k + 1)) == k);
    lemma_valid_prefix_grows(items, k + 1);
}

/// The valid prefix of a sequence, where that of a part of it has already
/// stopped, is that of the part.
pub proof fn lemma_valid_prefix_grows(items: Seq<IndexedView>, n: int)
    requires
        0 <= n <= items.len(),
        valid_prefix(items.take(n)) < n,
    ensures
        valid_prefix(items) == valid_prefix(items.take(n)),
    decreases items.len() - n,
{
    if n == items.len() {
        assert(items.take(n) == items);
    } else {
        assert(items.take(n + 1).drop_last() == items.take(n));
        lemma_valid_prefix_grows(items, n + 1);
    }
}

/// What tag entries hold of the registry's fields.
pub proof fn lemma_tag_entries(fields: FieldRegistry, tags: Seq<Id>, f: Fields)
    requires
        fields.wf(),
    ensures
        all_of(tag_entries(fields, tags), fields.handle(f)) == if f == Fields::Tag {
            Seq::new(tags.len(), |i: int| StoredView::U64(tags[i] as u64))
        } else {
            Seq::<StoredView>::empty()
        },
    decreases tags.len(),
{
    let e = tag_entries(fields, tags);
    if tags.len() > 0 {
        lemma_tag_entries(fields, tags.drop_last(), f);
        assert(e.drop_last() == tag_entries(fields, tags.drop_last()));
        if f != Fields::Tag {
            if fields.handle(f) == fields.handle(Fields::Tag) {
                fields.lemma_handles_distinct(f, Fields::Tag);
            }
        } else {
            assert(all_of(e, fields.handle(f)) == Seq::new(
                tags.len(),
                |i: int| StoredView::U64(tags[i] as u64),
            ));
        }
    } else {
        assert(all_of(e, fields.handle(f)) == Seq::<StoredView>::empty());
        assert(Seq::new(tags.len(), |i: int| StoredView::U64(tags[i] as u64))
            == Seq::<StoredView>::empty());
    }
}

/// What text entries hold of the registry's fields.
pub proof fn lemma_text_entries(fields: FieldRegistry, items: Seq<IndexedView>, f: Fields)
    requires
        fields.wf(),
    ensures
        all_of(text_entries(fields, items), fields.handle(f)) == if f == Fields::Text {
            Seq::new(valid_prefix(items), |i: int| StoredView::Text(items[i].text.unwrap()))
        } else {
            Seq::<StoredView>::empty()
        },
    decreases valid_prefix(items),
{
    let e = text_entries(fields, items);
    let n = valid_prefix(items);
    lemma_valid_prefix(items);
    if n > 0 {
        let shorter = items.take(n - 1);
        lemma_prefix_of_valid(items, n - 1);
        lemma_text_entries(fields, shorter, f);
        assert(e.drop_last() == text_entries(fields, shorter));
        if f != Fields::Text {
            if fields.handle(f) == fields.handle(Fields::Text) {
                fields.lemma_handles_distinct(f, Fields::Text);
            }
        } else {
            assert(all_of(e, fields.handle(f)) == Seq::new(
                n,
                |i: int| StoredView::Text(items[i].text.unwrap()),
            ));
        }
    } else {
        assert(all_of(e, fields.handle(f)) == Seq::<StoredView>::empty());
        assert(Seq::new(n, |i: int| StoredView::Text(items[i].text.unwrap()))
            == Seq::<StoredView>::empty());
    }
}

/// A part of the valid prefix is valid as a whole.
pub proof fn lemma_prefix_of_valid(items: Seq<IndexedView>, n: int)
    requires
        0 <= n <= valid_prefix(items),
    ensures
        n <= items.len(),
        valid_prefix(items.take(n)) == n,
    decreases n,
{
    lemma_valid_prefix(items);
    if n > 0 {
        lemma_prefix_of_valid(items, n - 1);
        assert(items.take(n).drop_last() == items.take(n - 1));
        assert(items.take(n).last() == items[n - 1]);
    } else {
        assert(items.take(0).len() == 0);
    }
}

/// Text values read back as the entries to index that they came from.
pub proof fn lemma_texts_from_texts(items: Seq<IndexedView>)
    requires
        forall|i: int| 0 <= i < items.len() ==> (#[trigger] items[i]).valid(),
    ensures
        texts_from(Seq::new(items.len(), |i: int| StoredView::Text(items[i].text.unwrap())))
            == items,
    decreases items.len(),
{
    let values = Seq::new(items.len(), |i: int| StoredView::Text(items[i].text.unwrap()));
    if items.len() > 0 {
        let shorter = items.drop_last();
        lemma_texts_from_texts(shorter);
        assert(values.drop_last() == Seq::new(
            shorter.len(),
            |i: int| StoredView::Text(shorter[i].text.unwrap()),
        ));
        assert(items.last().valid());
        assert(texts_from(values) == shorter.push(items.last()));
        assert(shorter.push(items.last()) == items);
    } else {
        assert(texts_from(values) == items);
    }
}

impl DbAble for JsonObject {
    type Model = Seq<char>;

    open spec fn model(&self) -> Seq<char> {
        json_text(*self)
    }

    open spec fn touches(f: Fields) -> bool {
        f == Fields::Json
    }

    open spec fn layered() -> bool {
        true
    }

    open spec fn encodable(&self) -> bool {
        true
    }

    open spec fn encode_error(&self) -> Seq<char> {
        Seq::empty()
    }

    open spec fn written(&self, fields: FieldRegistry) -> Seq<Entry> {
        seq![Entry { field: fields.handle(Fields::Json), value: StoredView::Json(json_text(*self)) }]
    }

    open spec fn canonical(&self) -> bool {
        true
    }

    open spec fn decoded(fields: FieldRegistry, entries: Seq<Entry>) -> Result<Seq<char>, Seq<char>> {
        match first_of(entries, fields.handle(Fields::Json)) {
            None => Err("no Json in document"@),
            Some(StoredView::Json(text)) => Ok(text),
            Some(_) => Err("value is not a Map"@),
        }
    }

    fn add(self, fields: &FieldRegistry, doc: &mut tantivy::Document) -> (r: Result<(), Error>) {
        let ghost before = doc_entries(*doc);
        let ghost entry = Entry {
            field: fields.handle(Fields::Json),
            value: StoredView::Json(json_text(self)),
        };
        doc_add_json_object(doc, fields.get_field(Fields::Json), self);
        assert(before.push(entry) == before + seq![entry]);
        Ok(())
    }

    fn take(fields: &FieldRegistry, doc: &tantivy::Document) -> (r: Result<Self, Error>) {
        match doc_get_first(doc, fields.get_field(Fields::Json)) {
            None => Err(Error::of(ErrorKind::Corrupt, "no Json in document")),
            Some(Stored::Json(object)) => Ok(object),
            Some(_) => Err(Error::of(ErrorKind::Corrupt, "value is not a Map")),
        }
    }

    proof fn lemma_written(self, fields: FieldRegistry, f: Fields) {
        let e = self.written(fields);
        assert(e.drop_last() == Seq::<Entry>::empty());
        if fields.handle(f) == fields.handle(Fields::Json) {
            fields.lemma_handles_distinct(f, Fields::Json);
        }
        assert(all_of(e.drop_last(), fields.handle(f)) == Seq::<StoredView>::empty());
    }

    proof fn lemma_frame(fields: FieldRegistry, a: Seq<Entry>, b: Seq<Entry>) {
        assert(Self::touches(Fields::Json));
    }

    proof fn lemma_round_trip(self, fields: FieldRegistry) {
        let e = self.written(fields);
        assert(e.drop_last() == Seq::<Entry>::empty());
        assert(all_of(e.drop_last(), fields.handle(Fields::Json)) == Seq::<StoredView>::empty());
        assert(all_of(e, fields.handle(Fields::Json)) == seq![StoredView::Json(json_text(self))]);
    }
}


impl Indexed {
    /// Appends the entry to the document, where the index can take it: text
    /// under the text field. Anything else is refused and leaves the
    /// document as it was.
    pub fn add(&self, fields: &FieldRegistry, doc: &mut tantivy::Document) -> (r: Result<(), Error>)
        requires
            fields.wf(),
        ensures
            match r {
                Ok(_) => self@.valid() && doc_entries(*final(doc)) == doc_entries(*old(doc)).push(
                    Entry {
                        field: fields.handle(Fields::Text),
                        value: StoredView::Text(self@.text.unwrap()),
                    },
                ),
                Err(e) => !self@.valid() && e@ == "invalid searchable entry"@ && e.kind
                    == ErrorKind::Malformed && doc_entries(*final(doc)) == doc_entries(*old(doc)),
            },
    {
        match self.field {
            Fields::Text => match json_as_string(&self.data) {
                Some(text) => {
                    doc_add_text(doc, fields.get_field(Fields::Text), text.as_str());
                    Ok(())
                },
                None => Err(Error::of(ErrorKind::Malformed, "invalid searchable entry")),
            },
            _ => Err(Error::of(ErrorKind::Malformed, "invalid searchable entry")),
        }
    }
}

impl<T: DbAble> DbAble for Taggable<T> {
    type Model = TaggableModel<T::Model>;

    open spec fn model(&self) -> TaggableModel<T::Model> {
        TaggableModel { data: self.data.model(), tags: self.tags@ }
    }

    open spec fn touches(f: Fields) -> bool {
        f == Fields::Tag || T::touches(f)
    }

    open spec fn layered() -> bool {
        !T::touches(Fields::Tag) && T::layered()
    }

    open spec fn encodable(&self) -> bool {
        self.data.encodable()
    }

    open spec fn encode_error(&self) -> Seq<char> {
        self.data.encode_error()
    }

    open spec fn written(&self, fields: FieldRegistry) -> Seq<Entry> {
        tag_entries(fields, self.tags@) + self.data.written(fields)
    }

    open spec fn canonical(&self) -> bool {
        self.data.canonical()
    }

    open spec fn decoded(fields: FieldRegistry, entries: Seq<Entry>) -> Result<
        TaggableModel<T::Model>,
        Seq<char>,
    > {
        match tags_from(all_of(entries, fields.handle(Fields::Tag))) {
            None => Err("bad tags"@),
            Some(tags) => match T::decoded(fields, entries) {
                Ok(data) => Ok(TaggableModel { data, tags }),
                Err(e) => Err(e),
            },
        }
    }

    fn add(self, fields: &FieldRegistry, doc: &mut tantivy::Document) -> (r: Result<(), Error>) {
        let ghost before = doc_entries(*doc);
        let handle = fields.get_field(Fields::Tag);
        let mut i: usize = 0;
        while i < self.tags.len()
            invariant
                fields.wf(),
                handle == fields.handle(Fields::Tag),
                0 <= i <= self.tags@.len(),
                doc_entries(*doc) == before + tag_entries(*fields, self.tags@.take(i as int)),
            decreases self.tags@.len() - i,
        {
            let ghost sofar = doc_entries(*doc);
            doc_add_u64(doc, handle, self.tags[i] as u64);
            proof {
                let a = tag_entries(*fields, self.tags@.take(i as int));
                let b = tag_entries(*fields, self.tags@.take(i + 1));
                assert(b == a.push(
                    Entry { field: handle, value: StoredView::U64(self.tags@[i as int] as u64) },
                ));
                assert((before + a).push(b.last()) == before + b);
            }
            i += 1;
        }
        assert(self.tags@.take(i as int) == self.tags@);
        let ghost mid = doc_entries(*doc);
        let ghost rest = self.data.written(*fields);
        let r = self.data.add(fields, doc);
        assert((before + tag_entries(*fields, self.tags@)) + rest == before + (tag_entries(
            *fields,
            self.tags@,
        ) + rest));
        r
    }

    fn take(fields: &FieldRegistry, doc: &tantivy::Document) -> (r: Result<Self, Error>) {
        let values = doc_get_all(doc, fields.get_field(Fields::Tag));
        let ghost views = all_of(doc_entries(*doc), fields.handle(Fields::Tag));
        let mut tags: Vec<Id> = Vec::new();
        let mut i: usize = 0;
        while i < values.len()
            invariant
                0 <= i <= values@.len(),
                views_of(values@) == views,
                views == all_of(doc_entries(*doc), fields.handle(Fields::Tag)),
                tags@.len() == i,
                forall|k: int|
                    0 <= k < i ==> (#[trigger] views[k]) is U64 && tags@[k] == views[k]->U64_0 as u32,
            decreases values@.len() - i,
        {
            assert(views_of(values@)[i as int] == values@[i as int]@);
            match &values[i] {
                Stored::U64(n) => {
                    tags.push(#[verifier::truncate] (*n as u32));
                },
                _ => {
                    assert(!(views[i as int] is U64));
                    return Err(Error::of(ErrorKind::Corrupt, "bad tags"));
                },
            }
            i += 1;
        }
        assert(views.len() == values@.len());
        assert(tags@ =~= tags_from(views).unwrap());
        match T::take(fields, doc) {
            Ok(data) => Ok(Taggable { data, tags }),
            Err(e) => Err(e),
        }
    }

    proof fn lemma_written(self, fields: FieldRegistry, f: Fields) {
        lemma_all_of_add(
            tag_entries(fields, self.tags@),
            self.data.written(fields),
            fields.handle(f),
        );
        lemma_tag_entries(fields, self.tags@, f);
        self.data.lemma_written(fields, f);
    }

    proof fn lemma_frame(fields: FieldRegistry, a: Seq<Entry>, b: Seq<Entry>) {
        assert(Self::touches(Fields::Tag));
        assert forall|f: Fields| #[trigger] T::touches(f) implies all_of(a, fields.handle(f))
            == all_of(b, fields.handle(f)) by {
            assert(Self::touches(f));
        }
        T::lemma_frame(fields, a, b);
    }

    proof fn lemma_round_trip(self, fields: FieldRegistry) {
        let own = tag_entries(fields, self.tags@);
        let rest = self.data.written(fields);
        let h = fields.handle(Fields::Tag);
        lemma_all_of_add(own, rest, h);
        lemma_tag_entries(fields, self.tags@, Fields::Tag);
        self.data.lemma_written(fields, Fields::Tag);
        let values = all_of(own + rest, h);
        assert(values == Seq::new(self.tags@.len(), |i: int| StoredView::U64(self.tags@[i] as u64)));
        assert forall|i: int| 0 <= i < self.tags@.len() implies (self.tags@[i] as u64) as u32
            == self.tags@[i] by {
            let t = self.tags@[i];
            assert((t as u64) as u32 == t) by (bit_vector);
        }
        assert(tags_from(values).unwrap() == self.tags@);
        assert forall|f: Fields| #[trigger] T::touches(f) implies all_of(
            own + rest,
            fields.handle(f),
        ) == all_of(rest, fields.handle(f)) by {
            lemma_all_of_add(own, rest, fields.handle(f));
            lemma_tag_entries(fields, self.tags@, f);
        }
        T::lemma_frame(fields, own + rest, rest);
        self.data.lemma_round_trip(fields);
    }
}


/// What the entries written for `n + 1` items to index add to those written
/// for the first `n`, where all of them are valid.
pub proof fn lemma_text_entries_step(fields: FieldRegistry, items: Seq<IndexedView>, n: int)
    requires
        0 <= n < items.len(),
        valid_prefix(items.take(n)) == n,
        items[n].valid(),
    ensures
        valid_prefix(items.take(n + 1)) == n + 1,
        text_entries(fields, items.take(n + 1)) == text_entries(fields, items.take(n)).push(
            Entry {
                field: fields.handle(Fields::Text),
                value: StoredView::Text(items[n].text.unwrap()),
            },
        ),
{
    assert(items.take(n + 1).drop_last() == items.take(n));
    assert(items.take(n + 1).last() == items[n]);
    assert(text_entries(fields, items.take(n + 1)) =~= text_entries(fields, items.take(n)).push(
        Entry { field: fields.handle(Fields::Text), value: StoredView::Text(items[n].text.unwrap()) },
    ));
}

impl<T: DbAble> DbAble for SearchableEntry<T> {
    type Model = SearchableModel<T::Model>;

    open spec fn model(&self) -> SearchableModel<T::Model> {
        SearchableModel { data: self.data.model(), searchable: indexed_views(self.searchable@) }
    }

    open spec fn touches(f: Fields) -> bool {
        f == Fields::Text || T::touches(f)
    }

    open spec fn layered() -> bool {
        !T::touches(Fields::Text) && T::layered()
    }

    open spec fn encodable(&self) -> bool {
        valid_prefix(indexed_views(self.searchable@)) == self.searchable@.len()
            && self.data.encodable()
    }

    open spec fn encode_error(&self) -> Seq<char> {
        if valid_prefix(indexed_views(self.searchable@)) == self.searchable@.len() {
            self.data.encode_error()
        } else {
            "invalid searchable entry"@
        }
    }

    open spec fn written(&self, fields: FieldRegistry) -> Seq<Entry> {
        if valid_prefix(indexed_views(self.searchable@)) == self.searchable@.len() {
            text_entries(fields, indexed_views(self.searchable@)) + self.data.written(fields)
        } else {
            text_entries(fields, indexed_views(self.searchable@))
        }
    }

    open spec fn canonical(&self) -> bool {
        self.data.canonical()
    }

    open spec fn decoded(fields: FieldRegistry, entries: Seq<Entry>) -> Result<
        SearchableModel<T::Model>,
        Seq<char>,
    > {
        match T::decoded(fields, entries) {
            Err(e) => Err(e),
            Ok(data) => Ok(
                SearchableModel {
                    data,
                    searchable: texts_from(all_of(entries, fields.handle(Fields::Text))),
                },
            ),
        }
    }

    fn add(self, fields: &FieldRegistry, doc: &mut tantivy::Document) -> (r: Result<(), Error>) {
        let ghost before = doc_entries(*doc);
        let ghost items = indexed_views(self.searchable@);
        let mut i: usize = 0;
        assert(items.take(0).len() == 0);
        assert(text_entries(*fields, items.take(0)) =~= Seq::<Entry>::empty());
        assert(before + Seq::<Entry>::empty() == before);
        while i < self.searchable.len()
            invariant
                fields.wf(),
                items == indexed_views(self.searchable@),
                before == doc_entries(*old(doc)),
                0 <= i <= self.searchable@.len(),
                valid_prefix(items.take(i as int)) == i,
                doc_entries(*doc) == before + text_entries(*fields, items.take(i as int)),
            decreases self.searchable@.len() - i,
        {
            let ghost sofar = text_entries(*fields, items.take(i as int));
            assert(items[i as int] == self.searchable@[i as int]@);
            match self.searchable[i].add(fields, doc) {
                Ok(_) => {
                    proof {
                        lemma_text_entries_step(*fields, items, i as int);
                        let next = text_entries(*fields, items.take(i + 1));
                        assert((before + sofar).push(next.last()) == before + next);
                    }
                },
                Err(e) => {
                    proof {
                        lemma_valid_prefix_stops(items, i as int);
                        assert(text_entries(*fields, items) =~= sofar);
                    }
                    return Err(e);
                },
            }
            i += 1;
        }
        assert(items.take(i as int) == items);
        let ghost own = text_entries(*fields, items);
        let ghost rest = self.data.written(*fields);
        let r = self.data.add(fields, doc);
        assert((before + own) + rest == before + (own + rest));
        r
    }

    fn take(fields: &FieldRegistry, doc: &tantivy::Document) -> (r: Result<Self, Error>) {
        let data = match T::take(fields, doc) {
            Ok(data) => data,
            Err(e) => {
                return Err(e);
            },
        };
        let values = doc_get_all(doc, fields.get_field(Fields::Text));
        let ghost views = all_of(doc_entries(*doc), fields.handle(Fields::Text));
        let mut searchable: Vec<Indexed> = Vec::new();
        let mut i: usize = 0;
        assert(views.take(0).len() == 0);
        assert(indexed_views(searchable@) =~= texts_from(views.take(0)));
        while i < values.len()
            invariant
                0 <= i <= values@.len(),
                views_of(values@) == views,
                indexed_views(searchable@) == texts_from(views.take(i as int)),
            decreases values@.len() - i,
        {
            assert(views_of(values@)[i as int] == values@[i as int]@);
            assert(views.take(i + 1).drop_last() == views.take(i as int));
            assert(views.take(i + 1).last() == views[i as int]);
            let ghost sofar = searchable@;
            match &values[i] {
                Stored::Text(s) => {
                    let entry = Indexed::text(s.clone());
                    searchable.push(entry);
                    assert(indexed_views(searchable@) =~= indexed_views(sofar).push(entry@));
                },
                _ => {},
            }
            i += 1;
        }
        assert(views.take(i as int) == views);
        Ok(SearchableEntry { data, searchable })
    }

    proof fn lemma_written(self, fields: FieldRegistry, f: Fields) {
        let items = indexed_views(self.searchable@);
        lemma_text_entries(fields, items, f);
        if valid_prefix(items) == self.searchable@.len() {
            lemma_all_of_add(text_entries(fields, items), self.data.written(fields), fields.handle(f));
            self.data.lemma_written(fields, f);
        }
    }

    proof fn lemma_frame(fields: FieldRegistry, a: Seq<Entry>, b: Seq<Entry>) {
        assert(Self::touches(Fields::Text));
        assert forall|f: Fields| #[trigger] T::touches(f) implies all_of(a, fields.handle(f))
            == all_of(b, fields.handle(f)) by {
            assert(Self::touches(f));
        }
        T::lemma_frame(fields, a, b);
    }

    proof fn lemma_round_trip(self, fields: FieldRegistry) {
        let items = indexed_views(self.searchable@);
        let own = text_entries(fields, items);
        let rest = self.data.written(fields);
        let h = fields.handle(Fields::Text);
        lemma_all_of_add(own, rest, h);
        lemma_text_entries(fields, items, Fields::Text);
        self.data.lemma_written(fields, Fields::Text);
        lemma_valid_prefix(items);
        lemma_texts_from_texts(items);
        assert(all_of(own + rest, h) == Seq::new(
            items.len(),
            |i: int| StoredView::Text(items[i].text.unwrap()),
        ));
        assert forall|f: Fields| #[trigger] T::touches(f) implies all_of(
            own + rest,
            fields.handle(f),
        ) == all_of(rest, fields.handle(f)) by {
            lemma_all_of_add(own, rest, fields.handle(f));
            lemma_text_entries(fields, items, f);
        }
        T::lemma_frame(fields, own + rest, rest);
        self.data.lemma_round_trip(fields);
    }
}


/// What the entries of the [`Meta`] layer hold of the registry's fields: one
/// value for each field of the layer, none for the others.
pub proof fn lemma_meta_entries(
    fields: FieldRegistry,
    id: Id,
    path: Seq<char>,
    ctime: u64,
    last_update: u64,
    last_interaction: u64,
    f: Fields,
)
    requires
        fields.wf(),
    ensures
        all_of(
            meta_entries(fields, id, path, ctime, last_update, last_interaction),
            fields.handle(f),
        ) == match f {
            Fields::Id => seq![StoredView::U64(id as u64)],
            Fields::Type => seq![StoredView::Facet(path)],
            Fields::Ctime => seq![StoredView::U64(ctime)],
            Fields::Mtime => seq![StoredView::U64(last_update)],
            Fields::LastInteraction => seq![StoredView::U64(last_interaction)],
            _ => Seq::<StoredView>::empty(),
        },
{
    let e = meta_entries(fields, id, path, ctime, last_update, last_interaction);
    let h = fields.handle(f);
    let e0 = Seq::<Entry>::empty();
    let e1 = e0.push(e[0]);
    let e2 = e1.push(e[1]);
    let e3 = e2.push(e[2]);
    let e4 = e3.push(e[3]);
    let e5 = e4.push(e[4]);
    assert(e5 == e);
    lemma_all_of_push(e0, e[0], h);
    lemma_all_of_push(e1, e[1], h);
    lemma_all_of_push(e2, e[2], h);
    lemma_all_of_push(e3, e[3], h);
    lemma_all_of_push(e4, e[4], h);
    if h == fields.handle(Fields::Id) {
        fields.lemma_handles_distinct(f, Fields::Id);
    }
    if h == fields.handle(Fields::Type) {
        fields.lemma_handles_distinct(f, Fields::Type);
    }
    if h == fields.handle(Fields::Ctime) {
        fields.lemma_handles_distinct(f, Fields::Ctime);
    }
    if h == fields.handle(Fields::Mtime) {
        fields.lemma_handles_distinct(f, Fields::Mtime);
    }
    if h == fields.handle(Fields::LastInteraction) {
        fields.lemma_handles_distinct(f, Fields::LastInteraction);
    }
    let empty = Seq::<StoredView>::empty();
    assert(all_of(e0, h) == empty);
    assert(all_of(e, h) =~= match f {
        Fields::Id => seq![StoredView::U64(id as u64)],
        Fields::Type => seq![StoredView::Facet(path)],
        Fields::Ctime => seq![StoredView::U64(ctime)],
        Fields::Mtime => seq![StoredView::U64(last_update)],
        Fields::LastInteraction => seq![StoredView::U64(last_interaction)],
        _ => Seq::<StoredView>::empty(),
    });
}

/// Reads the number that the first entry of a field holds.
fn first_u64(doc: &tantivy::Document, field: u32) -> (n: Option<u64>)
    ensures
        n == u64_of(doc_entries(*doc), field),
{
    match doc_get_first(doc, field) {
        Some(Stored::U64(n)) => Some(n),
        _ => None,
    }
}

/// The entries of an object with the [`Meta`] layer, for a kind that the
/// engine prints as `path`.
pub open spec fn meta_written<T: DbAble>(
    fields: FieldRegistry,
    id: Id,
    path: Seq<char>,
    ctime: u64,
    last_update: u64,
    last_interaction: u64,
    data: T,
) -> Seq<Entry> {
    meta_entries(fields, id, path, ctime, last_update, last_interaction) + data.written(fields)
}

/// What reading the [`Meta`] layer and the payload below it gives, with
/// the kind as the path text that the engine prints for it.
pub open spec fn meta_decoded<T: DbAble>(fields: FieldRegistry, entries: Seq<Entry>) -> Result<
    MetaModel<T::Model, Seq<char>>,
    Seq<char>,
> {
    match u64_of(entries, fields.handle(Fields::Id)) {
        None => Err("bad id"@),
        Some(id) => match first_of(entries, fields.handle(Fields::Type)) {
            Some(StoredView::Facet(path)) => match u64_of(entries, fields.handle(Fields::Ctime)) {
                None => Err("bad ctime"@),
                Some(ctime) => match u64_of(entries, fields.handle(Fields::Mtime)) {
                    None => Err("bad last_update"@),
                    Some(last_update) => match u64_of(
                        entries,
                        fields.handle(Fields::LastInteraction),
                    ) {
                        None => Err("bad last_interaction"@),
                        Some(last_interaction) => match T::decoded(fields, entries) {
                            Err(e) => Err(e),
                            Ok(data) => Ok(
                                MetaModel {
                                    id: id as u32,
                                    facet: path,
                                    data,
                                    ctime,
                                    last_update,
                                    last_interaction,
                                },
                            ),
                        },
                    },
                },
            },
            _ => Err("bad facet"@),
        },
    }
}

/// Whether the payload type leaves the fields of the [`Meta`] layer alone,
/// and is well layered itself.
pub open spec fn meta_layered<T: DbAble>() -> bool {
    &&& !T::touches(Fields::Id)
    &&& !T::touches(Fields::Type)
    &&& !T::touches(Fields::Ctime)
    &&& !T::touches(Fields::Mtime)
    &&& !T::touches(Fields::LastInteraction)
    &&& T::layered()
}

/// An object with the [`Meta`] layer writes no entry of a field that
/// neither the layer nor the payload touches.
pub proof fn lemma_meta_written<T: DbAble>(
    fields: FieldRegistry,
    id: Id,
    path: Seq<char>,
    ctime: u64,
    last_update: u64,
    last_interaction: u64,
    data: T,
    f: Fields,
)
    requires
        fields.wf(),
        !meta_field(f),
        !T::touches(f),
    ensures
        all_of(
            meta_written(fields, id, path, ctime, last_update, last_interaction, data),
            fields.handle(f),
        ) == Seq::<StoredView>::empty(),
{
    let own = meta_entries(fields, id, path, ctime, last_update, last_interaction);
    lemma_all_of_add(own, data.written(fields), fields.handle(f));
    lemma_meta_entries(fields, id, path, ctime, last_update, last_interaction, f);
    data.lemma_written(fields, f);
}

/// Reading the [`Meta`] layer and the payload depends only on the entries
/// of the fields that they touch.
pub proof fn lemma_meta_frame<T: DbAble>(fields: FieldRegistry, a: Seq<Entry>, b: Seq<Entry>)
    requires
        fields.wf(),
        forall|f: Fields|
            meta_field(f) || #[trigger] T::touches(f) ==> all_of(a, fields.handle(f)) == all_of(
                b,
                fields.handle(f),
            ),
        forall|f: Fields|
            #[trigger] meta_field(f) ==> all_of(a, fields.handle(f)) == all_of(b, fields.handle(f)),
    ensures
        meta_decoded::<T>(fields, a) == meta_decoded::<T>(fields, b),
{
    assert(meta_field(Fields::Id));
    assert(meta_field(Fields::Type));
    assert(meta_field(Fields::Ctime));
    assert(meta_field(Fields::Mtime));
    assert(meta_field(Fields::LastInteraction));
    assert forall|f: Fields| #[trigger] T::touches(f) implies all_of(a, fields.handle(f))
        == all_of(b, fields.handle(f)) by {}
    T::lemma_frame(fields, a, b);
}

/// An object with the [`Meta`] layer reads back from its own entries as
/// itself, where its payload does.
pub proof fn lemma_meta_round_trip<T: DbAble>(
    fields: FieldRegistry,
    id: Id,
    path: Seq<char>,
    ctime: u64,
    last_update: u64,
    last_interaction: u64,
    data: T,
)
    requires
        fields.wf(),
        meta_layered::<T>(),
        data.encodable(),
        data.canonical(),
    ensures
        meta_decoded::<T>(
            fields,
            meta_written(fields, id, path, ctime, last_update, last_interaction, data),
        ) == Ok::<MetaModel<T::Model, Seq<char>>, Seq<char>>(
            MetaModel { id, facet: path, data: data.model(), ctime, last_update, last_interaction },
        ),
{
    let own = meta_entries(fields, id, path, ctime, last_update, last_interaction);
    let rest = data.written(fields);
    assert forall|f: Fields| meta_field(f) implies all_of(own + rest, fields.handle(f)) == all_of(
        own,
        fields.handle(f),
    ) by {
        lemma_all_of_add(own, rest, fields.handle(f));
        data.lemma_written(fields, f);
    }
    assert(meta_field(Fields::Id));
    assert(meta_field(Fields::Type));
    assert(meta_field(Fields::Ctime));
    assert(meta_field(Fields::Mtime));
    assert(meta_field(Fields::LastInteraction));
    lemma_meta_entries(fields, id, path, ctime, last_update, last_interaction, Fields::Id);
    lemma_meta_entries(fields, id, path, ctime, last_update, last_interaction, Fields::Type);
    lemma_meta_entries(fields, id, path, ctime, last_update, last_interaction, Fields::Ctime);
    lemma_meta_entries(fields, id, path, ctime, last_update, last_interaction, Fields::Mtime);
    lemma_meta_entries(
        fields,
        id,
        path,
        ctime,
        last_update,
        last_interaction,
        Fields::LastInteraction,
    );
    assert((id as u64) as u32 == id) by (bit_vector);
    assert forall|f: Fields| #[trigger] T::touches(f) implies all_of(own + rest, fields.handle(f))
        == all_of(rest, fields.handle(f)) by {
        lemma_all_of_add(own, rest, fields.handle(f));
        lemma_meta_entries(fields, id, path, ctime, last_update, last_interaction, f);
    }
    T::lemma_frame(fields, own + rest, rest);
    data.lemma_round_trip(fields);
}

/// An object whose kind is a facet of the engine. Such an object keeps the
/// kind of a document exactly, whatever its path holds.
impl<T: DbAble> DbAble for Meta<T, tantivy::schema::Facet> {
    type Model = MetaModel<T::Model, Seq<char>>;

    open spec fn model(&self) -> MetaModel<T::Model, Seq<char>> {
        MetaModel {
            id: self.id,
            facet: facet_path(self.facet),
            data: self.data.model(),
            ctime: self.ctime,
            last_update: self.last_update,
            last_interaction: self.last_interaction,
        }
    }

    open spec fn touches(f: Fields) -> bool {
        meta_field(f) || T::touches(f)
    }

    open spec fn layered() -> bool {
        meta_layered::<T>()
    }

    open spec fn encodable(&self) -> bool {
        self.data.encodable()
    }

    open spec fn encode_error(&self) -> Seq<char> {
        self.data.encode_error()
    }

    open spec fn written(&self, fields: FieldRegistry) -> Seq<Entry> {
        meta_written(
            fields,
            self.id,
            facet_path(self.facet),
            self.ctime,
            self.last_update,
            self.last_interaction,
            self.data,
        )
    }

    open spec fn canonical(&self) -> bool {
        self.data.canonical()
    }

    open spec fn decoded(fields: FieldRegistry, entries: Seq<Entry>) -> Result<
        MetaModel<T::Model, Seq<char>>,
        Seq<char>,
    > {
        meta_decoded::<T>(fields, entries)
    }

    fn add(self, fields: &FieldRegistry, doc: &mut tantivy::Document) -> (r: Result<(), Error>) {
        let ghost before = doc_entries(*doc);
        let ghost own = meta_entries(
            *fields,
            self.id,
            facet_path(self.facet),
            self.ctime,
            self.last_update,
            self.last_interaction,
        );
        doc_add_u64(doc, fields.get_field(Fields::Id), self.id as u64);
        doc_add_facet(doc, fields.get_field(Fields::Type), self.facet);
        doc_add_u64(doc, fields.get_field(Fields::Ctime), self.ctime);
        doc_add_u64(doc, fields.get_field(Fields::Mtime), self.last_update);
        doc_add_u64(doc, fields.get_field(Fields::LastInteraction), self.last_interaction);
        assert(doc_entries(*doc) =~= before + own);
        let ghost rest = self.data.written(*fields);
        let r = self.data.add(fields, doc);
        assert((before + own) + rest == before + (own + rest));
        r
    }

    fn take(fields: &FieldRegistry, doc: &tantivy::Document) -> (r: Result<Self, Error>) {
        let id = match first_u64(doc, fields.get_field(Fields::Id)) {
            Some(n) => #[verifier::truncate]
            (n as u32),
            None => {
                return Err(Error::of(ErrorKind::Corrupt, "bad id"));
            },
        };
        let facet = match doc_get_first(doc, fields.get_field(Fields::Type)) {
            Some(Stored::Facet(facet)) => facet,
            _ => {
                return Err(Error::of(ErrorKind::Corrupt, "bad facet"));
            },
        };
        let ctime = match first_u64(doc, fields.get_field(Fields::Ctime)) {
            Some(n) => n,
            None => {
                return Err(Error::of(ErrorKind::Corrupt, "bad ctime"));
            },
        };
        let last_update = match first_u64(doc, fields.get_field(Fields::Mtime)) {
            Some(n) => n,
            None => {
                return Err(Error::of(ErrorKind::Corrupt, "bad last_update"));
            },
        };
        let last_interaction = match first_u64(doc, fields.get_field(Fields::LastInteraction)) {
            Some(n) => n,
            None => {
                return Err(Error::of(ErrorKind::Corrupt, "bad last_interaction"));
            },
        };
        match T::take(fields, doc) {
            Ok(data) => Ok(Meta { id, facet, data, ctime, last_update, last_interaction }),
            Err(e) => Err(e),
        }
    }

    proof fn lemma_written(self, fields: FieldRegistry, f: Fields) {
        lemma_meta_written(
            fields,
            self.id,
            facet_path(self.facet),
            self.ctime,
            self.last_update,
            self.last_interaction,
            self.data,
            f,
        );
    }

    proof fn lemma_frame(fields: FieldRegistry, a: Seq<Entry>, b: Seq<Entry>) {
        assert forall|f: Fields| meta_field(f) || #[trigger] T::touches(f) implies all_of(
            a,
            fields.handle(f),
        ) == all_of(b, fields.handle(f)) by {
            assert(Self::touches(f));
        }
        assert forall|f: Fields| #[trigger] meta_field(f) implies all_of(a, fields.handle(f))
            == all_of(b, fields.handle(f)) by {
            assert(Self::touches(f));
        }
        lemma_meta_frame::<T>(fields, a, b);
    }

    proof fn lemma_round_trip(self, fields: FieldRegistry) {
        lemma_meta_round_trip(
            fields,
            self.id,
            facet_path(self.facet),
            self.ctime,
            self.last_update,
            self.last_interaction,
            self.data,
        );
    }
}

/// The model of an object with a kind of this crate, from the model of the
/// same object with the kind as a path text.
pub open spec fn with_kind<M>(m: MetaModel<M, Seq<char>>) -> MetaModel<M, FacetView> {
    MetaModel {
        id: m.id,
        facet: FacetView::of_path(m.facet),
        data: m.data,
        ctime: m.ctime,
        last_update: m.last_update,
        last_interaction: m.last_interaction,
    }
}

/// An object whose kind is a kind of this crate. The kind is written as
/// the facet of its path; a kind whose path starts with no slash is no
/// facet, and the object is refused.
impl<T: DbAble> DbAble for Meta<T, TypeFacet> {
    type Model = MetaModel<T::Model, FacetView>;

    open spec fn model(&self) -> MetaModel<T::Model, FacetView> {
        MetaModel {
            id: self.id,
            facet: self.facet@,
            data: self.data.model(),
            ctime: self.ctime,
            last_update: self.last_update,
            last_interaction: self.last_interaction,
        }
    }

    open spec fn touches(f: Fields) -> bool {
        meta_field(f) || T::touches(f)
    }

    open spec fn layered() -> bool {
        meta_layered::<T>()
    }

    open spec fn encodable(&self) -> bool {
        is_path(self.facet@.path()) && self.data.encodable()
    }

    open spec fn encode_error(&self) -> Seq<char> {
        if is_path(self.facet@.path()) {
            self.data.encode_error()
        } else {
            "bad facet"@
        }
    }

    open spec fn written(&self, fields: FieldRegistry) -> Seq<Entry> {
        if is_path(self.facet@.path()) {
            meta_written(
                fields,
                self.id,
                stored_path(self.facet@.path()),
                self.ctime,
                self.last_update,
                self.last_interaction,
                self.data,
            )
        } else {
            Seq::empty()
        }
    }

    open spec fn canonical(&self) -> bool {
        &&& plain_path(self.facet@.path())
        &&& FacetView::of_path(self.facet@.path()) == self.facet@
        &&& self.data.canonical()
    }

    open spec fn decoded(fields: FieldRegistry, entries: Seq<Entry>) -> Result<
        MetaModel<T::Model, FacetView>,
        Seq<char>,
    > {
        match meta_decoded::<T>(fields, entries) {
            Ok(m) => Ok(with_kind(m)),
            Err(e) => Err(e),
        }
    }

    fn add(self, fields: &FieldRegistry, doc: &mut tantivy::Document) -> (r: Result<(), Error>) {
        let ghost before = doc_entries(*doc);
        match facet_parse(self.facet.as_str()) {
            Ok(facet) => {
                let m = Meta {
                    id: self.id,
                    facet,
                    data: self.data,
                    ctime: self.ctime,
                    last_update: self.last_update,
                    last_interaction: self.last_interaction,
                };
                m.add(fields, doc)
            },
            Err(_) => {
                assert(before + Seq::<Entry>::empty() == before);
                Err(Error::of(ErrorKind::Malformed, "bad facet"))
            },
        }
    }

    fn take(fields: &FieldRegistry, doc: &tantivy::Document) -> (r: Result<Self, Error>) {
        match Meta::<T, tantivy::schema::Facet>::take(fields, doc) {
            Ok(m) => Ok(
                Meta {
                    id: m.id,
                    facet: TypeFacet::from(facet_to_path(&m.facet)),
                    data: m.data,
                    ctime: m.ctime,
                    last_update: m.last_update,
                    last_interaction: m.last_interaction,
                },
            ),
            Err(e) => Err(e),
        }
    }

    proof fn lemma_written(self, fields: FieldRegistry, f: Fields) {
        if is_path(self.facet@.path()) {
            lemma_meta_written(
                fields,
                self.id,
                stored_path(self.facet@.path()),
                self.ctime,
                self.last_update,
                self.last_interaction,
                self.data,
                f,
            );
        }
    }

    proof fn lemma_frame(fields: FieldRegistry, a: Seq<Entry>, b: Seq<Entry>) {
        assert forall|f: Fields| meta_field(f) || #[trigger] T::touches(f) implies all_of(
            a,
            fields.handle(f),
        ) == all_of(b, fields.handle(f)) by {
            assert(Self::touches(f));
        }
        assert forall|f: Fields| #[trigger] meta_field(f) implies all_of(a, fields.handle(f))
            == all_of(b, fields.handle(f)) by {
            assert(Self::touches(f));
        }
        lemma_meta_frame::<T>(fields, a, b);
    }

    proof fn lemma_round_trip(self, fields: FieldRegistry) {
        lemma_meta_round_trip(
            fields,
            self.id,
            self.facet@.path(),
            self.ctime,
            self.last_update,
            self.last_interaction,
            self.data,
        );
    }
}

/// Whether `entries` holds no entry of a field that the type `T` touches.
pub open spec fn untouched_by<T: DbAble>(fields: FieldRegistry, entries: Seq<Entry>) -> bool {
    forall|f: Fields| #[trigger]
        T::touches(f) ==> all_of(entries, fields.handle(f)) == Seq::<StoredView>::empty()
}

/// Entries of fields that a type does not touch do not change what the
/// type reads, wherever they stand in the document.
pub proof fn lemma_skips_untouched<T: DbAble>(
    fields: FieldRegistry,
    a: Seq<Entry>,
    b: Seq<Entry>,
    c: Seq<Entry>,
)
    requires
        fields.wf(),
        untouched_by::<T>(fields, b),
    ensures
        T::decoded(fields, a + b + c) == T::decoded(fields, a + c),
{
    assert forall|f: Fields| #[trigger] T::touches(f) implies all_of(a + b + c, fields.handle(f))
        == all_of(a + c, fields.handle(f)) by {
        let h = fields.handle(f);
        lemma_all_of_add(a + b, c, h);
        lemma_all_of_add(a, b, h);
        lemma_all_of_add(a, c, h);
        assert(all_of(a, h) + Seq::<StoredView>::empty() == all_of(a, h));
    }
    T::lemma_frame(fields, a + b + c, a + c);
}

/// A value reads back as itself from any document that holds its entries
/// behind entries of other fields only: the layers written around a value
/// do not disturb it.
pub proof fn lemma_reads_through_layers<T: DbAble>(fields: FieldRegistry, outer: Seq<Entry>, v: T)
    requires
        fields.wf(),
        T::layered(),
        v.encodable(),
        v.canonical(),
        untouched_by::<T>(fields, outer),
    ensures
        T::decoded(fields, outer + v.written(fields)) == Ok::<T::Model, Seq<char>>(v.model()),
{
    let e = v.written(fields);
    let none = Seq::<Entry>::empty();
    lemma_skips_untouched::<T>(fields, none, outer, e);
    assert(none + outer + e == outer + e);
    assert(none + e == e);
    v.lemma_round_trip(fields);
}

/// Writing a value into an empty document and reading the document gives
/// the value again, for every type whose layers own different fields.
pub proof fn lemma_written_then_read<T: DbAble>(fields: FieldRegistry, v: T, doc: Seq<Entry>)
    requires
        fields.wf(),
        T::layered(),
        v.encodable(),
        v.canonical(),
        doc == Seq::<Entry>::empty() + v.written(fields),
    ensures
        T::decoded(fields, doc) == Ok::<T::Model, Seq<char>>(v.model()),
{
    assert(Seq::<Entry>::empty() + v.written(fields) == v.written(fields));
    v.lemma_round_trip(fields);
}

/// The full stack of layers over a JSON payload is well layered: no two of
/// its layers own the same field.
pub proof fn lemma_full_stack_layered()
    ensures
        Meta::<Taggable<SearchableEntry<JsonObject>>, TypeFacet>::layered(),
        Meta::<Taggable<JsonObject>, TypeFacet>::layered(),
        Meta::<SearchableEntry<JsonObject>, TypeFacet>::layered(),
        Meta::<JsonObject, TypeFacet>::layered(),
        Meta::<Taggable<SearchableEntry<JsonObject>>, tantivy::schema::Facet>::layered(),
        Taggable::<SearchableEntry<JsonObject>>::layered(),
        Taggable::<JsonObject>::layered(),
        SearchableEntry::<JsonObject>::layered(),
{
}

/// A document that holds a fully layered object can be read through the
/// narrower types too: each of them ignores the layers it does not ask for
/// and gives the part of the object that it names.
pub proof fn lemma_prefix_views(
    fields: FieldRegistry,
    v: Meta<Taggable<SearchableEntry<JsonObject>>, TypeFacet>,
)
    requires
        fields.wf(),
        v.encodable(),
        v.canonical(),
    ensures
        Meta::<Taggable<SearchableEntry<JsonObject>>, TypeFacet>::decoded(fields, v.written(fields))
            == Ok::<_, Seq<char>>(v.model()),
        Taggable::<SearchableEntry<JsonObject>>::decoded(fields, v.written(fields)) == Ok::<
            _,
            Seq<char>,
        >(v.data.model()),
        SearchableEntry::<JsonObject>::decoded(fields, v.written(fields)) == Ok::<_, Seq<char>>(
            v.data.data.model(),
        ),
        JsonObject::decoded(fields, v.written(fields)) == Ok::<_, Seq<char>>(
            v.data.data.data.model(),
        ),
        Taggable::<JsonObject>::decoded(fields, v.written(fields)) == Ok::<_, Seq<char>>(
            TaggableModel { data: v.data.data.data.model(), tags: v.data.tags@ },
        ),
        Meta::<JsonObject, TypeFacet>::decoded(fields, v.written(fields)) == Ok::<_, Seq<char>>(
            MetaModel {
                id: v.id,
                facet: v.facet@,
                data: v.data.data.data.model(),
                ctime: v.ctime,
                last_update: v.last_update,
                last_interaction: v.last_interaction,
            },
        ),
{
    lemma_full_stack_layered();
    v.lemma_round_trip(fields);
    let e = v.written(fields);
    let meta = meta_entries(
        fields,
        v.id,
        v.facet@.path(),
        v.ctime,
        v.last_update,
        v.last_interaction,
    );
    let tags = tag_entries(fields, v.data.tags@);
    let items = indexed_views(v.data.data.searchable@);
    let texts = text_entries(fields, items);
    let json = v.data.data.data.written(fields);
    assert(e == meta + (tags + (texts + json)));
    // Behind the meta layer.
    assert(untouched_by::<Taggable<SearchableEntry<JsonObject>>>(fields, meta)) by {
        assert forall|f: Fields| #[trigger]
            Taggable::<SearchableEntry<JsonObject>>::touches(f) implies all_of(
            meta,
            fields.handle(f),
        ) == Seq::<StoredView>::empty() by {
            lemma_meta_entries(fields, v.id, v.facet@.path(), v.ctime, v.last_update, v.last_interaction, f);
        }
    }
    lemma_reads_through_layers::<Taggable<SearchableEntry<JsonObject>>>(fields, meta, v.data);
    // Behind the meta and tag layers.
    assert(untouched_by::<SearchableEntry<JsonObject>>(fields, meta + tags)) by {
        assert forall|f: Fields| #[trigger]
            SearchableEntry::<JsonObject>::touches(f) implies all_of(meta + tags, fields.handle(f))
            == Seq::<StoredView>::empty() by {
            lemma_all_of_add(meta, tags, fields.handle(f));
            lemma_meta_entries(fields, v.id, v.facet@.path(), v.ctime, v.last_update, v.last_interaction, f);
            lemma_tag_entries(fields, v.data.tags@, f);
        }
    }
    assert(e == (meta + tags) + (texts + json));
    lemma_reads_through_layers::<SearchableEntry<JsonObject>>(fields, meta + tags, v.data.data);
    // Behind all three layers.
    assert(untouched_by::<JsonObject>(fields, meta + tags + texts)) by {
        assert forall|f: Fields| #[trigger] JsonObject::touches(f) implies all_of(
            meta + tags + texts,
            fields.handle(f),
        ) == Seq::<StoredView>::empty() by {
            lemma_all_of_add(meta + tags, texts, fields.handle(f));
            lemma_all_of_add(meta, tags, fields.handle(f));
            lemma_meta_entries(fields, v.id, v.facet@.path(), v.ctime, v.last_update, v.last_interaction, f);
            lemma_tag_entries(fields, v.data.tags@, f);
            lemma_text_entries(fields, items, f);
        }
    }
    assert(e == (meta + tags + texts) + json);
    lemma_reads_through_layers::<JsonObject>(fields, meta + tags + texts, v.data.data.data);
    // The tag layer over the payload alone: the text entries are skipped.
    let tagged = Taggable { data: v.data.data.data, tags: v.data.tags };
    assert(untouched_by::<Taggable<JsonObject>>(fields, texts)) by {
        assert forall|f: Fields| #[trigger] Taggable::<JsonObject>::touches(f) implies all_of(
            texts,
            fields.handle(f),
        ) == Seq::<StoredView>::empty() by {
            lemma_text_entries(fields, items, f);
        }
    }
    assert(untouched_by::<Taggable<JsonObject>>(fields, meta)) by {
        assert forall|f: Fields| #[trigger] Taggable::<JsonObject>::touches(f) implies all_of(
            meta,
            fields.handle(f),
        ) == Seq::<StoredView>::empty() by {
            lemma_meta_entries(fields, v.id, v.facet@.path(), v.ctime, v.last_update, v.last_interaction, f);
        }
    }
    lemma_skips_untouched::<Taggable<JsonObject>>(fields, meta + tags, texts, json);
    assert(e == (meta + tags) + texts + json);
    assert((meta + tags) + json == meta + tagged.written(fields));
    lemma_reads_through_layers::<Taggable<JsonObject>>(fields, meta, tagged);
    // The meta layer over the payload alone: tag and text entries are skipped.
    let bare = Meta {
        id: v.id,
        facet: v.facet,
        data: v.data.data.data,
        ctime: v.ctime,
        last_update: v.last_update,
        last_interaction: v.last_interaction,
    };
    assert(untouched_by::<Meta<JsonObject, TypeFacet>>(fields, tags + texts)) by {
        assert forall|f: Fields| #[trigger]
            Meta::<JsonObject, TypeFacet>::touches(f) implies all_of(tags + texts, fields.handle(f))
            == Seq::<StoredView>::empty() by {
            lemma_all_of_add(tags, texts, fields.handle(f));
            lemma_tag_entries(fields, v.data.tags@, f);
            lemma_text_entries(fields, items, f);
        }
    }
    lemma_skips_untouched::<Meta<JsonObject, TypeFacet>>(fields, meta, tags + texts, json);
    assert(e == meta + (tags + texts) + json);
    assert(meta + json == bare.written(fields));
    bare.lemma_round_trip(fields);
}

} // verus!
