//! The steps of a search and of a change that need no access to the index:
//! what to ask the index for, and what to make of its answers.

use vstd::prelude::*;
use crate::codec::{
    meta_entries, tag_entries, text_entries, texts_from, valid_prefix, DbAble,
};
use crate::document::{
    all_of, doc_add_facet, doc_entries, doc_new, facet_parse, is_path, json_text, plain_path,
    stored_path, Entry, JsonObject, StoredView,
};
use crate::error::{Error, ErrorKind};
use crate::facet::{FacetView, TypeFacet};
use crate::fields::{FieldRegistry, Fields};
use crate::ids::{lemma_nth_id_step, nth_id, IdAllocator};
use crate::objects::{
    indexed_views, Id, Indexed, IndexedView, Meta, MetaModel, SearchableEntry, SearchableModel, Tag,
    Taggable, TaggableModel,
};
use crate::query::{
    direct_query, direct_query_spec, scope_clause, tag_prequery, tag_prequery_spec, tagged_query,
    tagged_query_spec, Clause, Occur, QueryNode, QueryView, TAG_LIMIT,
};
use crate::score::Ranking;
use crate::tags::{first_occurrences, resolve_tags, targets, TagHit};
use crate::text::tokens;

verus! {

/// An object as the collection stores it: a JSON payload under all three
/// layers.
pub type StoredObject = Meta<Taggable<SearchableEntry<JsonObject>>, TypeFacet>;

/// A [`StoredObject`] as a mathematical value.
pub type StoredModel = MetaModel<TaggableModel<SearchableModel<Seq<char>>>, FacetView>;

/// An object as a document holds it: as a [`StoredObject`], with the kind
/// as the engine's own facet.
pub type StoredDocument = Meta<Taggable<SearchableEntry<JsonObject>>, tantivy::schema::Facet>;

/// A [`StoredDocument`] as a mathematical value: the kind is the path text
/// that the engine prints for it.
pub type DocumentModel = MetaModel<TaggableModel<SearchableModel<Seq<char>>>, Seq<char>>;

/// Writes a value into a new document.
pub fn to_document<T: DbAble>(fields: &FieldRegistry, value: T) -> (r: Result<
    tantivy::Document,
    Error,
>)
    requires
        fields.wf(),
    ensures
        match r {
            Ok(doc) => value.encodable() && doc_entries(doc) == value.written(*fields),
            Err(e) => !value.encodable() && e@ == value.encode_error() && e.kind
                == ErrorKind::Malformed,
        },
{
    let mut doc = doc_new();
    let ghost entries = value.written(*fields);
    match value.add(fields, &mut doc) {
        Ok(_) => {
            assert(Seq::<Entry>::empty() + entries == entries);
            Ok(doc)
        },
        Err(e) => Err(e),
    }
}

/// The entries of the documents, document by document.
pub open spec fn entries_of(docs: Seq<tantivy::Document>) -> Seq<Seq<Entry>> {
    docs.map_values(|d: tantivy::Document| doc_entries(d))
}

/// The models of the values.
pub open spec fn models_of<T: DbAble>(values: Seq<T>) -> Seq<T::Model> {
    values.map_values(|v: T| v.model())
}

/// What reading every document gives: the values, in order, or the error
/// of the first document that cannot be read.
pub open spec fn decoded_all<T: DbAble>(fields: FieldRegistry, docs: Seq<Seq<Entry>>) -> Result<
    Seq<T::Model>,
    Seq<char>,
>
    decreases docs.len(),
{
    if docs.len() == 0 {
        Ok(Seq::empty())
    } else {
        match decoded_all::<T>(fields, docs.drop_last()) {
            Err(e) => Err(e),
            Ok(values) => match T::decoded(fields, docs.last()) {
                Err(e) => Err(e),
                Ok(v) => Ok(values.push(v)),
            },
        }
    }
}

/// Once a document cannot be read, the documents behind it do not matter.
pub proof fn lemma_first_error_stays<T: DbAble>(fields: FieldRegistry, docs: Seq<Seq<Entry>>, n: int)
    requires
        0 <= n <= docs.len(),
        decoded_all::<T>(fields, docs.take(n)) is Err,
    ensures
        decoded_all::<T>(fields, docs) == decoded_all::<T>(fields, docs.take(n)),
    decreases docs.len() - n,
{
    if n == docs.len() {
        assert(docs.take(n) == docs);
    } else {
        assert(docs.take(n + 1).drop_last() == docs.take(n));
        lemma_first_error_stays::<T>(fields, docs, n + 1);
    }
}

/// Reads the documents of the hits of a search, in order. One document
/// that cannot be read fails the whole search, with its error.
pub fn decode_hits<T: DbAble>(fields: &FieldRegistry, docs: &Vec<tantivy::Document>) -> (r: Result<
    Vec<T>,
    Error,
>)
    requires
        fields.wf(),
    ensures
        match r {
            Ok(values) => decoded_all::<T>(*fields, entries_of(docs@)) == Ok::<
                Seq<T::Model>,
                Seq<char>,
            >(models_of(values@)),
            Err(e) => decoded_all::<T>(*fields, entries_of(docs@)) == Err::<
                Seq<T::Model>,
                Seq<char>,
            >(e@) && e.kind == ErrorKind::Corrupt,
        },
{
    let ghost all = entries_of(docs@);
    let mut values: Vec<T> = Vec::new();
    let mut i: usize = 0;
    assert(all.take(0).len() == 0);
    assert(models_of(values@) =~= Seq::<T::Model>::empty());
    while i < docs.len()
        invariant
            fields.wf(),
            all == entries_of(docs@),
            0 <= i <= docs@.len(),
            decoded_all::<T>(*fields, all.take(i as int)) == Ok::<Seq<T::Model>, Seq<char>>(
                models_of(values@),
            ),
        decreases docs@.len() - i,
    {
        let ghost before = values@;
        assert(all.take(i + 1).drop_last() == all.take(i as int));
        assert(all.take(i + 1).last() == doc_entries(docs@[i as int]));
        match T::take(fields, &docs[i]) {
            Ok(v) => {
                values.push(v);
                assert(models_of(values@) =~= models_of(before).push(v.model()));
            },
            Err(e) => {
                proof {
                    lemma_first_error_stays::<T>(*fields, all, i + 1);
                }
                return Err(e);
            },
        }
        i += 1;
    }
    assert(all.take(i as int) == all);
    Ok(values)
}

/// The hit of a lookup, where there is one; else the error that the object
/// does not exist.
pub fn found<D>(hit: Option<D>) -> (r: Result<D, Error>)
    ensures
        match r {
            Ok(d) => hit == Some(d),
            Err(e) => hit.is_none() && e@ == "object does not exist"@ && e.kind
                == ErrorKind::NotFound,
        },
{
    match hit {
        Some(d) => Ok(d),
        None => Err(Error::of(ErrorKind::NotFound, "object does not exist")),
    }
}

/// The query for the object with the id `id`.
pub fn id_query(id: Id) -> (q: QueryNode)
    ensures
        q@ == (QueryView::Number { field: Fields::Id, value: id as u64 }),
{
    QueryNode::Number { field: Fields::Id, value: id as u64 }
}

/// The query for every object of a kind.
pub fn kind_query(kind: &TypeFacet) -> (q: QueryNode)
    ensures
        q@ == (QueryView::Facet { field: Fields::Type, path: kind@.path() }),
{
    QueryNode::Facet { field: Fields::Type, path: kind.to_path() }
}

/// The query for the tag with the id `id`: the id and the kind are both
/// required.
pub fn tag_by_id_query(id: Id) -> (q: QueryNode)
    ensures
        q@ == (QueryView::Boolean {
            clauses: seq![
                (Occur::Must, QueryView::Number { field: Fields::Id, value: id as u64 }),
                scope_clause(FacetView::Tag.path()),
            ],
        }),
{
    let by_id = id_query(id);
    let by_kind = kind_query(&TypeFacet::Tag);
    let mut clauses: Vec<Clause> = Vec::new();
    clauses.push(Clause { occur: Occur::Must, query: by_id });
    clauses.push(Clause { occur: Occur::Must, query: by_kind });
    let q = QueryNode::Boolean { clauses };
    assert(q@->clauses =~= seq![
        (Occur::Must, QueryView::Number { field: Fields::Id, value: id as u64 }),
        scope_clause(FacetView::Tag.path()),
    ]);
    q
}

/// The object that stores a new tag: the tag, with its name as the text to
/// find it by.
pub fn new_tag(id: Id, tag: Tag, now: u64) -> (m: Meta<SearchableEntry<Tag>, TypeFacet>)
    ensures
        m.id == id,
        m.facet@ == FacetView::Tag,
        m.ctime == now,
        m.last_update == now,
        m.last_interaction == now,
        m.data.data == tag,
        indexed_views(m.data.searchable@) == seq![
            IndexedView { field: Fields::Text, text: Some(tag.name_spec()) },
        ],
{
    let mut searchable: Vec<Indexed> = Vec::new();
    searchable.push(Indexed::text(tag.name().to_owned()));
    assert(indexed_views(searchable@) =~= seq![
        IndexedView { field: Fields::Text, text: Some(tag.name_spec()) },
    ]);
    Meta::created(id, TypeFacet::Tag, SearchableEntry { data: tag, searchable }, now)
}

/// The entries of the document of a new searchable entry: the object has
/// the id `id` and the kind with the path `path`, no tags, and all its
/// timestamps are `now`.
pub open spec fn new_entries(
    fields: FieldRegistry,
    id: Id,
    path: Seq<char>,
    entry: SearchableEntry<JsonObject>,
    now: u64,
) -> Seq<Entry> {
    meta_entries(fields, id, stored_path(path), now, now, now) + entry.written(fields)
}

/// The documents of a batch of new searchable entries of one kind, all
/// made at the time `now`: one document for each entry, in order, with
/// the ids that follow each other from the next id on. The batch is whole:
/// where one entry cannot be stored there are no documents, and no id is
/// spent.
pub fn new_documents(
    fields: &FieldRegistry,
    ids: &mut IdAllocator,
    data: Vec<SearchableEntry<JsonObject>>,
    facet: &TypeFacet,
    now: u64,
) -> (r: Result<Vec<tantivy::Document>, Error>)
    requires
        fields.wf(),
    ensures
        r is Ok <==> (forall|i: int|
            0 <= i < data@.len() ==> is_path(facet@.path()) && (#[trigger] data@[i]).encodable()),
        r is Ok ==> r->Ok_0@.len() == data@.len() && final(ids).next_id() == nth_id(
            old(ids).next_id(),
            data@.len() as int,
        ) && forall|i: int|
            0 <= i < data@.len() ==> doc_entries(#[trigger] r->Ok_0@[i]) == new_entries(
                *fields,
                nth_id(old(ids).next_id(), i) as u32,
                facet@.path(),
                data@[i],
                now,
            ),
        r is Err ==> final(ids).next_id() == old(ids).next_id() && r->Err_0.kind
            == ErrorKind::Malformed && r->Err_0@ == if is_path(facet@.path()) {
            "invalid searchable entry"@
        } else {
            "bad facet"@
        },
{
    let ghost start = ids.next_id();
    let ghost all = data@;
    let ghost path = facet@.path();
    let mut next = IdAllocator::restored(ids.get_state());
    let mut docs: Vec<tantivy::Document> = Vec::new();
    proof {
        lemma_nth_id_step(start, 0, 0);
    }
    for entry in it: data
        invariant
            fields.wf(),
            it.seq() == all,
            path == facet@.path(),
            ids.next_id() == start,
            next.next_id() == nth_id(start, it.index() as int),
            docs@.len() == it.index(),
            it.index() > 0 ==> is_path(path),
            forall|i: int| 0 <= i < docs@.len() ==> (#[trigger] all[i]).encodable(),
            forall|i: int|
                0 <= i < docs@.len() ==> doc_entries(#[trigger] docs@[i]) == new_entries(
                    *fields,
                    nth_id(start, i) as u32,
                    path,
                    all[i],
                    now,
                ),
    {
        let ghost i = it.index() as int;
        assert(entry == all[i]);
        let id = next.new_id();
        proof {
            lemma_nth_id_step(start, i, 1);
            lemma_nth_id_step(start, i, 0);
        }
        let kind = TypeFacet::from_path(facet.as_str());
        let tags: Vec<Id> = Vec::new();
        let object: StoredObject = Meta::created(id, kind, Taggable { data: entry, tags }, now);
        proof {
            assert(kind@.path() == path);
            assert(tag_entries(*fields, tags@) =~= Seq::<Entry>::empty());
            assert(Seq::<Entry>::empty() + entry.written(*fields) == entry.written(*fields));
        }
        match to_document(fields, object) {
            Ok(doc) => {
                assert(is_path(path) && all[i].encodable());
                assert(doc_entries(doc) == new_entries(
                    *fields,
                    nth_id(start, i) as u32,
                    path,
                    all[i],
                    now,
                ));
                docs.push(doc);
            },
            Err(e) => {
                assert(!(is_path(path) && all[i].encodable()));
                return Err(e);
            },
        }
    }
    assert(docs@.len() == all.len());
    ids.update_state(next.get_state());
    Ok(docs)
}

/// The entries of a stored object, from its model.
pub open spec fn object_entries(fields: FieldRegistry, m: DocumentModel) -> Seq<Entry> {
    meta_entries(fields, m.id, m.facet, m.ctime, m.last_update, m.last_interaction) + (
    tag_entries(fields, m.data.tags) + (text_entries(fields, m.data.data.searchable) + seq![
        Entry { field: fields.handle(Fields::Json), value: StoredView::Json(m.data.data.data) },
    ]))
}

/// The model with other tags.
pub open spec fn retagged(m: DocumentModel, tags: Seq<Id>) -> DocumentModel {
    MetaModel {
        id: m.id,
        facet: m.facet,
        data: TaggableModel { data: m.data.data, tags },
        ctime: m.ctime,
        last_update: m.last_update,
        last_interaction: m.last_interaction,
    }
}

/// The tags without every occurrence of `tag`.
pub open spec fn without(tags: Seq<Id>, tag: Id) -> Seq<Id>
    decreases tags.len(),
{
    if tags.len() == 0 {
        Seq::empty()
    } else if tags.last() == tag {
        without(tags.drop_last(), tag)
    } else {
        without(tags.drop_last(), tag).push(tags.last())
    }
}

/// Removing a tag leaves no occurrence of it, keeps every other tag, and
/// changes nothing where the tag does not occur.
pub proof fn lemma_without(tags: Seq<Id>, tag: Id, other: Id)
    requires
        other != tag,
    ensures
        !without(tags, tag).contains(tag),
        without(tags, tag).contains(other) <==> tags.contains(other),
        !tags.contains(tag) ==> without(tags, tag) == tags,
    decreases tags.len(),
{
    let w = without(tags, tag);
    if tags.len() > 0 {
        let shorter = tags.drop_last();
        let v = without(shorter, tag);
        lemma_without(shorter, tag, other);
        assert(tags == shorter.push(tags.last()));
        if w.contains(other) {
            let k = choose|k: int| 0 <= k < w.len() && w[k] == other;
            if k < v.len() {
                assert(v[k] == other);
                assert(v.contains(other));
                assert(shorter.contains(other));
                let j = choose|j: int| 0 <= j < shorter.len() && shorter[j] == other;
                assert(tags[j] == other);
            } else {
                assert(tags[tags.len() - 1] == other);
            }
        }
        if tags.contains(other) {
            let j = choose|j: int| 0 <= j < tags.len() && tags[j] == other;
            if j < shorter.len() {
                assert(shorter[j] == other);
                assert(shorter.contains(other));
                assert(v.contains(other));
                let k = choose|k: int| 0 <= k < v.len() && v[k] == other;
                assert(w[k] == other);
            } else {
                assert(w[w.len() - 1] == other);
            }
        }
        if w.contains(tag) {
            let k = choose|k: int| 0 <= k < w.len() && w[k] == tag;
            if k < v.len() {
                assert(v[k] == tag);
                assert(v.contains(tag));
            }
        }
        if !tags.contains(tag) {
            assert(tags[tags.len() - 1] != tag);
            if shorter.contains(tag) {
                let j = choose|j: int| 0 <= j < shorter.len() && shorter[j] == tag;
                assert(tags[j] == tag);
            }
        }
    } else {
        assert(w.len() == 0);
    }
}

/// The entries that reading gives for the text field are all valid.
pub proof fn lemma_texts_from_valid(values: Seq<StoredView>)
    ensures
        valid_prefix(texts_from(values)) == texts_from(values).len(),
    decreases values.len(),
{
    if values.len() > 0 {
        lemma_texts_from_valid(values.drop_last());
        let rest = texts_from(values.drop_last());
        match values.last() {
            StoredView::Text(s) => {
                let e = IndexedView { field: Fields::Text, text: Some(s) };
                assert(rest.push(e).drop_last() == rest);
            },
            _ => {},
        }
    }
}

/// Whether the engine takes the path as a facet: it starts with a slash.
pub fn is_facet_path(path: &str) -> (b: bool)
    ensures
        b == is_path(path@),
{
    path.unicode_len() > 0 && path.get_char(0) == '/'
}

/// Writes an object that was read from a document into a new document.
fn rewrite(fields: &FieldRegistry, object: StoredDocument) -> (r: Result<tantivy::Document, Error>)
    requires
        fields.wf(),
        valid_prefix(indexed_views(object.data.data.searchable@))
            == object.data.data.searchable@.len(),
    ensures
        r is Ok,
        doc_entries(r->Ok_0) == object_entries(*fields, object.model()),
        StoredDocument::decoded(*fields, doc_entries(r->Ok_0)) == Ok::<DocumentModel, Seq<char>>(
            object.model(),
        ),
{
    let ghost m = object.model();
    proof {
        crate::codec::lemma_full_stack_layered();
        object.lemma_round_trip(*fields);
    }
    match to_document(fields, object) {
        Ok(d) => {
            assert(doc_entries(d) =~= object_entries(*fields, m));
            Ok(d)
        },
        Err(e) => Err(e),
    }
}

/// The document of a stored object with one more tag: the tag `tag_id`,
/// behind those it has. Nothing else of the object changes; its kind stays
/// the facet that the document holds.
pub fn with_tag(fields: &FieldRegistry, doc: &tantivy::Document, tag_id: Id) -> (r: Result<
    tantivy::Document,
    Error,
>)
    requires
        fields.wf(),
    ensures
        match StoredDocument::decoded(*fields, doc_entries(*doc)) {
            Err(msg) => r is Err && r->Err_0@ == msg && r->Err_0.kind == ErrorKind::Corrupt,
            Ok(m) => r is Ok && doc_entries(r->Ok_0) == object_entries(
                *fields,
                retagged(m, m.data.tags.push(tag_id)),
            ) && StoredDocument::decoded(*fields, doc_entries(r->Ok_0)) == Ok::<
                DocumentModel,
                Seq<char>,
            >(retagged(m, m.data.tags.push(tag_id))),
        },
{
    let mut object: StoredDocument = match StoredDocument::take(fields, doc) {
        Ok(object) => object,
        Err(e) => {
            return Err(e);
        },
    };
    proof {
        lemma_texts_from_valid(all_of(doc_entries(*doc), fields.handle(Fields::Text)));
    }
    object.data.tags.push(tag_id);
    rewrite(fields, object)
}

/// The document of a stored object without the tag `tag_id`, wherever the
/// object has it. Nothing else of the object changes; its kind stays the
/// facet that the document holds.
pub fn without_tag(fields: &FieldRegistry, doc: &tantivy::Document, tag_id: Id) -> (r: Result<
    tantivy::Document,
    Error,
>)
    requires
        fields.wf(),
    ensures
        match StoredDocument::decoded(*fields, doc_entries(*doc)) {
            Err(msg) => r is Err && r->Err_0@ == msg && r->Err_0.kind == ErrorKind::Corrupt,
            Ok(m) => r is Ok && doc_entries(r->Ok_0) == object_entries(
                *fields,
                retagged(m, without(m.data.tags, tag_id)),
            ) && StoredDocument::decoded(*fields, doc_entries(r->Ok_0)) == Ok::<
                DocumentModel,
                Seq<char>,
            >(retagged(m, without(m.data.tags, tag_id))),
        },
{
    let object: StoredDocument = match StoredDocument::take(fields, doc) {
        Ok(object) => object,
        Err(e) => {
            return Err(e);
        },
    };
    proof {
        lemma_texts_from_valid(all_of(doc_entries(*doc), fields.handle(Fields::Text)));
    }
    let mut tags: Vec<Id> = Vec::new();
    let mut i: usize = 0;
    assert(object.data.tags@.take(0).len() == 0);
    while i < object.data.tags.len()
        invariant
            0 <= i <= object.data.tags@.len(),
            tags@ == without(object.data.tags@.take(i as int), tag_id),
        decreases object.data.tags@.len() - i,
    {
        assert(object.data.tags@.take(i + 1).drop_last() == object.data.tags@.take(i as int));
        assert(object.data.tags@.take(i + 1).last() == object.data.tags@[i as int]);
        if object.data.tags[i] != tag_id {
            tags.push(object.data.tags[i]);
        }
        i += 1;
    }
    assert(object.data.tags@.take(i as int) == object.data.tags@);
    let changed = Meta {
        id: object.id,
        facet: object.facet,
        data: Taggable { data: object.data.data, tags },
        ctime: object.ctime,
        last_update: object.last_update,
        last_interaction: object.last_interaction,
    };
    rewrite(fields, changed)
}

/// Whether an object of the kind `facet` with the entries to index `items`
/// can be stored, whatever its payload is: the kind is looked at first, then
/// the entries. A payload is only worth turning into its stored shape where
/// this holds.
pub fn check_shape(facet: &TypeFacet, items: &Vec<Indexed>) -> (r: Result<(), Error>)
    ensures
        match r {
            Ok(_) => is_path(facet@.path()) && valid_prefix(indexed_views(items@)) == items@.len(),
            Err(e) => e.kind == ErrorKind::Malformed && if is_path(facet@.path()) {
                valid_prefix(indexed_views(items@)) < items@.len() && e@
                    == "invalid searchable entry"@
            } else {
                e@ == "bad facet"@
            },
        },
{
    if !is_facet_path(facet.as_str()) {
        return Err(Error::of(ErrorKind::Malformed, "bad facet"));
    }
    check_searchable(items)
}

/// Whether every entry to index can be indexed.
pub fn check_searchable(items: &Vec<Indexed>) -> (r: Result<(), Error>)
    ensures
        match r {
            Ok(_) => valid_prefix(indexed_views(items@)) == items@.len(),
            Err(e) => valid_prefix(indexed_views(items@)) < items@.len() && e@
                == "invalid searchable entry"@ && e.kind == ErrorKind::Malformed,
        },
{
    let ghost views = indexed_views(items@);
    let mut i: usize = 0;
    assert(views.take(0).len() == 0);
    while i < items.len()
        invariant
            views == indexed_views(items@),
            0 <= i <= items@.len(),
            valid_prefix(views.take(i as int)) == i,
        decreases items@.len() - i,
    {
        assert(views[i as int] == items@[i as int]@);
        assert(views.take(i + 1).drop_last() == views.take(i as int));
        assert(views.take(i + 1).last() == views[i as int]);
        let ok = match items[i].field {
            Fields::Text => crate::objects::json_as_string(&items[i].data).is_some(),
            _ => false,
        };
        if !ok {
            proof {
                crate::codec::lemma_valid_prefix_stops(views, i as int);
            }
            return Err(Error::of(ErrorKind::Malformed, "invalid searchable entry"));
        }
        i += 1;
    }
    assert(views.take(i as int) == views);
    Ok(())
}

/// The kind under which the state of the id allocator is kept from one
/// run to the next.
pub fn state_facet() -> (kind: TypeFacet)
    ensures
        kind@ == FacetView::Temp("/app_data/state"@),
        plain_path(kind@.path()),
{
    proof {
        lemma_state_path();
    }
    TypeFacet::Temp("/app_data/state".to_owned())
}

/// The path of the state document is stored as it is written.
pub proof fn lemma_state_path()
    ensures
        plain_path("/app_data/state"@),
{
    reveal_strlit("/app_data/state");
    let p = "/app_data/state"@;
    assert(p.len() == 15);
    assert forall|i: int| 0 <= i < p.len() implies p[i] != '\\' && p[i] != '\0' by {
        if i == 0 {
        } else if i == 1 {
        } else if i == 2 {
        } else if i == 3 {
        } else if i == 4 {
        } else if i == 5 {
        } else if i == 6 {
        } else if i == 7 {
        } else if i == 8 {
        } else if i == 9 {
        } else if i == 10 {
        } else if i == 11 {
        } else if i == 12 {
        } else if i == 13 {
        } else {
        }
    }
}

/// The document that keeps the state of the id allocator: the state, as a
/// JSON object, under the kind of [`state_facet`]. It has no id and no
/// timestamps, and ordinary searches do not find it.
pub fn state_document(fields: &FieldRegistry, state: JsonObject) -> (doc: tantivy::Document)
    requires
        fields.wf(),
    ensures
        doc_entries(doc) == seq![
            Entry {
                field: fields.handle(Fields::Type),
                value: StoredView::Facet("/app_data/state"@),
            },
            Entry { field: fields.handle(Fields::Json), value: StoredView::Json(json_text(state)) },
        ],
        JsonObject::decoded(*fields, doc_entries(doc)) == Ok::<Seq<char>, Seq<char>>(
            json_text(state),
        ),
{
    let kind = state_facet();
    let mut doc = doc_new();
    match facet_parse(kind.as_str()) {
        Ok(facet) => {
            doc_add_facet(&mut doc, fields.get_field(Fields::Type), facet);
        },
        Err(_) => {
            assert(false);
        },
    }
    let ghost first = doc_entries(doc);
    let ghost text = json_text(state);
    let r = state.add(fields, &mut doc);
    proof {
        let e = Entry { field: fields.handle(Fields::Json), value: StoredView::Json(text) };
        assert(doc_entries(doc) =~= seq![first[0], e]);
        if fields.handle(Fields::Type) == fields.handle(Fields::Json) {
            fields.lemma_handles_distinct(Fields::Type, Fields::Json);
        }
        crate::document::lemma_all_of_push(first, e, fields.handle(Fields::Json));
        crate::document::lemma_all_of_push(Seq::<Entry>::empty(), first[0], fields.handle(Fields::Json));
        assert(first =~= Seq::<Entry>::empty().push(first[0]));
        assert(doc_entries(doc) =~= first.push(e));
        assert(all_of(Seq::<Entry>::empty(), fields.handle(Fields::Json)) =~= Seq::<StoredView>::empty());
    }
    doc
}


/// What to ask the index for: the hits of `query`, ranked by `ranking`,
/// from the place `offset` on, `limit` of them at most.
#[derive(Debug)]
pub struct SearchRequest {
    pub query: QueryNode,
    pub limit: usize,
    pub offset: usize,
    pub ranking: Ranking,
}

/// The first step of a tagged search for the text `query`: the best
/// tags that match it, by relevance alone. The hits are to be read as tags
/// and handed to [`tagged_search`].
pub fn tag_search(query: &str) -> (r: SearchRequest)
    ensures
        r.query@ == tag_prequery_spec(tokens(query@)),
        r.limit == TAG_LIMIT,
        r.offset == 0,
        r.ranking == Ranking::Relevance,
{
    SearchRequest {
        query: tag_prequery(query),
        limit: TAG_LIMIT,
        offset: 0,
        ranking: Ranking::Relevance,
    }
}

/// The second step of a tagged search for the text `query` among the
/// objects of the kind `ob_type`, given the tags `tags` that matched the
/// text, best first: every object of the kind is a hit; the title, the
/// targets of the tags at twice the weight, and the loose match of each
/// word of the text decide the rank. The documents of the hits are to be
/// read with [`decode_hits`], which fails the search where one of them
/// cannot be read.
pub fn tagged_search(
    ob_type: &TypeFacet,
    query: &str,
    tags: &Vec<TagHit>,
    limit: usize,
    offset: usize,
    ranking: Ranking,
) -> (r: SearchRequest)
    ensures
        r.query@ == tagged_query_spec(
            ob_type@.path(),
            query@,
            tokens(query@),
            first_occurrences(targets(tags@)),
        ),
        r.limit == limit,
        r.offset == offset,
        r.ranking == ranking,
{
    let boosts = resolve_tags(tags);
    SearchRequest { query: tagged_query(ob_type, query, &boosts), limit, offset, ranking }
}

/// A direct search for the text `query` among the objects of the kind
/// `ob_type`. The documents of the hits are to be read with
/// [`decode_hits`], which fails the search where one of them cannot be
/// read.
pub fn direct_search(
    ob_type: &TypeFacet,
    query: &str,
    limit: usize,
    offset: usize,
    ranking: Ranking,
) -> (r: SearchRequest)
    ensures
        r.query@ == direct_query_spec(ob_type@.path(), tokens(query@)),
        r.limit == limit,
        r.offset == offset,
        r.ranking == ranking,
{
    SearchRequest { query: direct_query(ob_type, query), limit, offset, ranking }
}

} // verus!
