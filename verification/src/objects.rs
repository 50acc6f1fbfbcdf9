//! The objects that the collection stores, and the layers that wrap them.

use vstd::prelude::*;
use crate::facet::TypeFacet;
use crate::fields::Fields;

verus! {

/// The id of a stored object.
pub type Id = u32;

/// The text of a JSON value that is a string; `None` for any other value.
pub uninterp spec fn json_string(value: serde_json::Value) -> Option<Seq<char>>;

/// Calls `Value::as_str`, which gives the text of a JSON string and `None`
/// for any other value, and copies the text.
#[verifier::external_body]
pub(crate) fn json_as_string(value: &serde_json::Value) -> (text: Option<String>)
    ensures
        match text {
            Some(s) => json_string(*value) == Some(s@),
            None => json_string(*value).is_none(),
        },
{
    value.as_str().map(String::from)
}

/// Makes the JSON string value `serde_json::Value::String` that holds the
/// text.
#[verifier::external_body]
pub(crate) fn json_from_string(text: String) -> (value: serde_json::Value)
    ensures
        json_string(value) == Some(text@),
{
    serde_json::Value::String(text)
}

/// `Clone::clone` of a JSON value gives an equal value: one with the same
/// text, where it is a string.
pub assume_specification[ <serde_json::Value as Clone>::clone ](value: &serde_json::Value) -> (copy:
    serde_json::Value)
    ensures
        json_string(copy) == json_string(*value),
;

/// A piece of data to index under a field, beside the payload itself.
#[derive(Debug, Clone)]
pub struct Indexed {
    pub field: Fields,
    pub data: serde_json::Value,
}

/// An [`Indexed`] as a mathematical value: the field, and the text of the
/// data where the data is a JSON string.
pub struct IndexedView {
    pub field: Fields,
    pub text: Option<Seq<char>>,
}

impl View for Indexed {
    type V = IndexedView;

    open spec fn view(&self) -> IndexedView {
        IndexedView { field: self.field, text: json_string(self.data) }
    }
}

impl IndexedView {
    /// Whether the index can take the entry: only text under the text field
    /// can be indexed.
    pub open spec fn valid(self) -> bool {
        self.field == Fields::Text && self.text.is_some()
    }
}

impl Indexed {
    /// Text to index under the text field.
    pub fn text(text: String) -> (e: Indexed)
        ensures
            e@ == (IndexedView { field: Fields::Text, text: Some(text@) }),
            e@.valid(),
    {
        Indexed { field: Fields::Text, data: json_from_string(text) }
    }
}

/// A payload together with text fragments to index for it.
#[derive(Debug, Clone)]
pub struct SearchableEntry<T> {
    pub data: T,
    pub searchable: Vec<Indexed>,
}

/// A payload together with the ids of the tags it carries. A tag may occur
/// twice, and need not exist.
#[derive(Debug, Clone)]
pub struct Taggable<T> {
    pub data: T,
    pub tags: Vec<Id>,
}

/// A payload with its id, its kind and its timestamps, in seconds since the
/// epoch.
#[derive(Debug, Clone)]
pub struct Meta<T, F> {
    pub id: Id,
    pub facet: F,
    pub data: T,
    pub ctime: u64,
    pub last_update: u64,
    pub last_interaction: u64,
}

/// A payload that may already be stored, with the key that tells.
#[derive(Debug, Clone)]
pub struct Unique<T, H> {
    pub data: T,
    pub key: H,
}

/// A [`SearchableEntry`] as a mathematical value.
pub struct SearchableModel<M> {
    pub data: M,
    pub searchable: Seq<IndexedView>,
}

/// A [`Taggable`] as a mathematical value.
pub struct TaggableModel<M> {
    pub data: M,
    pub tags: Seq<Id>,
}

/// A [`Meta`] as a mathematical value, with the kind as `P`.
pub struct MetaModel<M, P> {
    pub id: Id,
    pub facet: P,
    pub data: M,
    pub ctime: u64,
    pub last_update: u64,
    pub last_interaction: u64,
}

/// The views of a vector of entries to index.
pub open spec fn indexed_views(items: Seq<Indexed>) -> Seq<IndexedView> {
    items.map_values(|e: Indexed| e@)
}

/// A tag: a name of its own, or another name for a tag.
#[derive(Debug, Clone)]
pub enum Tag {
    Main { name: String },
    Alias { name: String, alias_to: Id },
}

impl Tag {
    /// The name of the tag.
    pub open spec fn name_spec(self) -> Seq<char> {
        match self {
            Tag::Main { name } => name@,
            Tag::Alias { name, .. } => name@,
        }
    }

    /// The tag that an object carries when it is tagged with the tag of id
    /// `id`: the tag itself, or the tag that an alias stands for.
    pub open spec fn target(self, id: Id) -> Id {
        match self {
            Tag::Main { .. } => id,
            Tag::Alias { alias_to, .. } => alias_to,
        }
    }

    /// The name of the tag.
    pub fn name(&self) -> (n: &str)
        ensures
            n@ == self.name_spec(),
    {
        match self {
            Tag::Main { name } => name.as_str(),
            Tag::Alias { name, .. } => name.as_str(),
        }
    }

    /// The id of the tag that stands behind this one, which has the id
    /// `id`: `id` for a main tag, the aliased id for an alias.
    pub fn resolve(&self, id: Id) -> (t: Id)
        ensures
            t == self.target(id),
    {
        match self {
            Tag::Main { .. } => id,
            Tag::Alias { alias_to, .. } => *alias_to,
        }
    }
}

/// A picture.
#[derive(Debug, Clone)]
pub struct Image {
    pub title: Option<String>,
    pub src: Option<crate::utility::Source>,
    pub path: crate::utility::Path,
    pub chksum: Vec<u8>,
    pub size: usize,
}

/// A link.
#[derive(Debug, Clone)]
pub struct Bookmark {
    pub title: Option<String>,
    pub url: String,
    pub description: Option<String>,
}

/// Objects that belong together.
#[derive(Debug, Clone)]
pub struct Group {
    pub main: Option<Id>,
    pub items: Vec<Id>,
}

/// A note that gives context to other objects.
#[derive(Debug, Clone)]
pub struct Notes {
    pub data: String,
}

impl<T> Meta<T, TypeFacet> {
    /// A new object, made at the time `now`: the three timestamps are `now`.
    pub fn created(id: Id, facet: TypeFacet, data: T, now: u64) -> (m: Self)
        ensures
            m.id == id,
            m.facet == facet,
            m.data == data,
            m.ctime == now,
            m.last_update == now,
            m.last_interaction == now,
    {
        Meta { id, facet, data, ctime: now, last_update: now, last_interaction: now }
    }
}

} // verus!
