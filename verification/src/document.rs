//! Index documents, seen as the sequence of their field entries.
//!
//! The document type is the index engine's own. What a document holds is
//! named by [`doc_entries`]; the functions that write and read documents are
//! thin calls into the engine whose contracts are stated over that name and
//! are taken on trust.

use vstd::prelude::*;

verus! {

/// The index engine's document.
#[verifier::external_type_specification]
#[verifier::external_body]
pub struct ExDocument(tantivy::Document);

/// A JSON map.
#[verifier::external_type_specification]
#[verifier::external_body]
#[verifier::reject_recursive_types(K)]
#[verifier::reject_recursive_types(V)]
pub struct ExJsonMap<K, V>(serde_json::Map<K, V>);

/// A JSON value.
#[verifier::external_type_specification]
#[verifier::external_body]
pub struct ExJsonValue(serde_json::Value);

/// The index engine's facet.
#[verifier::external_type_specification]
#[verifier::external_body]
pub struct ExFacet(tantivy::schema::Facet);

/// The index engine's error for a text that is no facet path.
#[verifier::external_type_specification]
#[verifier::external_body]
pub struct ExFacetParseError(tantivy::schema::FacetParseError);

/// A JSON object: the shape in which a payload is stored.
pub type JsonObject = serde_json::Map<String, serde_json::Value>;

/// The compact JSON text of an object. Two objects with the same members
/// have the same text.
pub uninterp spec fn json_text(object: serde_json::Map<String, serde_json::Value>) -> Seq<char>;

/// The path text that the engine prints for a facet that was parsed from a
/// path `path` that holds a NUL character or a backslash before anything
/// but a slash.
pub uninterp spec fn facet_text(path: Seq<char>) -> Seq<char>;

/// The path text of a facet, as the engine prints it.
pub uninterp spec fn facet_path(facet: tantivy::schema::Facet) -> Seq<char>;

/// The entries of a document, in the order in which they were added.
pub uninterp spec fn doc_entries(doc: tantivy::Document) -> Seq<Entry>;

/// What a document entry holds, as a mathematical value.
pub enum StoredView {
    /// An unsigned number.
    U64(u64),
    /// A text.
    Text(Seq<char>),
    /// A facet, by the path text that the engine prints for it.
    Facet(Seq<char>),
    /// A JSON object, by its text.
    Json(Seq<char>),
    /// A value of a type that this crate never writes.
    Other,
}

/// One entry of a document: a field handle and a value.
pub struct Entry {
    pub field: u32,
    pub value: StoredView,
}

/// What a document entry holds.
pub enum Stored {
    /// An unsigned number.
    U64(u64),
    /// A text.
    Text(String),
    /// A facet.
    Facet(tantivy::schema::Facet),
    /// A JSON object.
    Json(JsonObject),
    /// A value of a type that this crate never writes.
    Other,
}

impl View for Stored {
    type V = StoredView;

    open spec fn view(&self) -> StoredView {
        match self {
            Stored::U64(n) => StoredView::U64(*n),
            Stored::Text(s) => StoredView::Text(s@),
            Stored::Facet(f) => StoredView::Facet(facet_path(*f)),
            Stored::Json(o) => StoredView::Json(json_text(*o)),
            Stored::Other => StoredView::Other,
        }
    }
}

/// The values of the entries with handle `field`, in order.
pub open spec fn all_of(entries: Seq<Entry>, field: u32) -> Seq<StoredView>
    decreases entries.len(),
{
    if entries.len() == 0 {
        Seq::empty()
    } else if entries.last().field == field {
        all_of(entries.drop_last(), field).push(entries.last().value)
    } else {
        all_of(entries.drop_last(), field)
    }
}

/// The value of the first entry with handle `field`, if there is one.
pub open spec fn first_of(entries: Seq<Entry>, field: u32) -> Option<StoredView> {
    if all_of(entries, field).len() > 0 {
        Some(all_of(entries, field)[0])
    } else {
        None
    }
}

/// A facet path that the engine stores and gives back unchanged: it starts
/// with a slash, holds no NUL character, and each backslash in it stands
/// before a slash, which it escapes.
pub open spec fn plain_path(path: Seq<char>) -> bool {
    &&& path.len() > 0
    &&& path[0] == '/'
    &&& forall|i: int| 0 <= i < path.len() ==> path[i] != '\0'
    &&& forall|i: int|
        0 <= i < path.len() && (#[trigger] path[i]) == '\\' ==> i + 1 < path.len() && path[i + 1] == '/'
}

/// The path text that the engine prints for a facet that was parsed from
/// the path `path`: the path itself where it is plain.
pub open spec fn stored_path(path: Seq<char>) -> Seq<char> {
    if plain_path(path) {
        path
    } else {
        facet_text(path)
    }
}

/// The views of a vector of stored values.
pub open spec fn views_of(values: Seq<Stored>) -> Seq<StoredView> {
    values.map_values(|s: Stored| s@)
}

/// Calls `Document::new`, which makes a document without entries.
#[verifier::external_body]
pub(crate) fn doc_new() -> (doc: tantivy::Document)
    ensures
        doc_entries(doc) == Seq::<Entry>::empty(),
{
    tantivy::Document::new()
}

/// Calls `Document::add_u64`, which appends one entry with the number.
#[verifier::external_body]
pub(crate) fn doc_add_u64(doc: &mut tantivy::Document, field: u32, value: u64)
    ensures
        doc_entries(*final(doc)) == doc_entries(*old(doc)).push(
            Entry { field, value: StoredView::U64(value) },
        ),
{
    doc.add_u64(tantivy::schema::Field::from_field_id(field), value)
}

/// Calls `Document::add_text`, which appends one entry with a copy of the
/// text.
#[verifier::external_body]
pub(crate) fn doc_add_text(doc: &mut tantivy::Document, field: u32, text: &str)
    ensures
        doc_entries(*final(doc)) == doc_entries(*old(doc)).push(
            Entry { field, value: StoredView::Text(text@) },
        ),
{
    doc.add_text(tantivy::schema::Field::from_field_id(field), text)
}

/// Whether a text can be a facet path: it starts with a slash.
pub open spec fn is_path(path: Seq<char>) -> bool {
    path.len() > 0 && path[0] == '/'
}

/// Calls `Facet::from_text`, which parses a path text as a facet. It
/// takes every text that starts with a slash and no other. A path without
/// NUL in which a backslash only escapes a slash is printed as it was
/// written.
#[verifier::external_body]
pub(crate) fn facet_parse(path: &str) -> (r: Result<
    tantivy::schema::Facet,
    tantivy::schema::FacetParseError,
>)
    ensures
        r is Ok <==> is_path(path@),
        r is Ok ==> facet_path(r->Ok_0) == if plain_path(path@) {
            path@
        } else {
            facet_text(path@)
        },
{
    tantivy::schema::Facet::from_text(path)
}

/// Calls `Facet::to_path_string`, which prints the path of a facet.
#[verifier::external_body]
pub(crate) fn facet_to_path(facet: &tantivy::schema::Facet) -> (path: String)
    ensures
        path@ == facet_path(*facet),
{
    facet.to_path_string()
}

/// Calls `Document::add_facet`, which appends one entry with the facet.
#[verifier::external_body]
pub(crate) fn doc_add_facet(doc: &mut tantivy::Document, field: u32, facet: tantivy::schema::Facet)
    ensures
        doc_entries(*final(doc)) == doc_entries(*old(doc)).push(
            Entry { field, value: StoredView::Facet(facet_path(facet)) },
        ),
{
    doc.add_facet(tantivy::schema::Field::from_field_id(field), facet)
}

/// Calls `Document::add_json_object`, which appends one entry that holds
/// the object.
#[verifier::external_body]
pub(crate) fn doc_add_json_object(doc: &mut tantivy::Document, field: u32, object: JsonObject)
    ensures
        doc_entries(*final(doc)) == doc_entries(*old(doc)).push(
            Entry { field, value: StoredView::Json(json_text(object)) },
        ),
{
    doc.add_json_object(tantivy::schema::Field::from_field_id(field), object)
}

/// Calls `Document::get_first`, which finds the first entry of the field,
/// and copies its value out: a number, a text, a facet and a JSON object
/// as they are, and a value of any other type as `Other`.
#[verifier::external_body]
pub(crate) fn doc_get_first(doc: &tantivy::Document, field: u32) -> (value: Option<Stored>)
    ensures
        match value {
            Some(v) => first_of(doc_entries(*doc), field) == Some(v@),
            None => first_of(doc_entries(*doc), field).is_none(),
        },
{
    match doc.get_first(tantivy::schema::Field::from_field_id(field)) {
        None => None,
        Some(tantivy::schema::Value::U64(n)) => Some(Stored::U64(*n)),
        Some(tantivy::schema::Value::Str(s)) => Some(Stored::Text(s.clone())),
        Some(tantivy::schema::Value::Facet(f)) => Some(Stored::Facet(f.clone())),
        Some(tantivy::schema::Value::JsonObject(o)) => Some(Stored::Json(o.clone())),
        Some(_) => Some(Stored::Other),
    }
}

/// Calls `Document::get_all`, which walks the entries of the field in
/// order, and copies their values out as [`doc_get_first`] does.
#[verifier::external_body]
pub(crate) fn doc_get_all(doc: &tantivy::Document, field: u32) -> (values: Vec<Stored>)
    ensures
        views_of(values@) == all_of(doc_entries(*doc), field),
{
    let mut values = Vec::new();
    for value in doc.get_all(tantivy::schema::Field::from_field_id(field)) {
        values.push(match value {
            tantivy::schema::Value::U64(n) => Stored::U64(*n),
            tantivy::schema::Value::Str(s) => Stored::Text(s.clone()),
            tantivy::schema::Value::Facet(f) => Stored::Facet(f.clone()),
            tantivy::schema::Value::JsonObject(o) => Stored::Json(o.clone()),
            _ => Stored::Other,
        });
    }
    values
}

/// Joining two sequences joins what they hold of a field.
pub proof fn lemma_all_of_add(a: Seq<Entry>, b: Seq<Entry>, field: u32)
    ensures
        all_of(a + b, field) == all_of(a, field) + all_of(b, field),
    decreases b.len(),
{
    if b.len() == 0 {
        assert(a + b == a);
        assert(all_of(a, field) + Seq::<StoredView>::empty() == all_of(a, field));
    } else {
        assert((a + b).drop_last() == a + b.drop_last());
        assert((a + b).last() == b.last());
        lemma_all_of_add(a, b.drop_last(), field);
        if b.last().field == field {
            assert(all_of(a + b, field) == (all_of(a, field) + all_of(b.drop_last(), field)).push(
                b.last().value,
            ));
            assert((all_of(a, field) + all_of(b.drop_last(), field)).push(b.last().value)
                == all_of(a, field) + all_of(b.drop_last(), field).push(b.last().value));
        }
    }
}

/// What a sequence with one more entry holds of a field.
pub proof fn lemma_all_of_push(a: Seq<Entry>, e: Entry, field: u32)
    ensures
        all_of(a.push(e), field) == if e.field == field {
            all_of(a, field).push(e.value)
        } else {
            all_of(a, field)
        },
{
    assert(a.push(e).drop_last() == a);
}

} // verus!
