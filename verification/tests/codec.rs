use kolekk::codec::DbAble;
use kolekk::document::JsonObject;
use kolekk::facet::TypeFacet;
use kolekk::fields::{FieldRegistry, Fields};
use kolekk::objects::{Indexed, Meta, SearchableEntry, Taggable};
use kolekk::error::ErrorKind;
use kolekk::search::{
    check_searchable, check_shape, decode_hits, to_document, with_tag, without_tag, StoredDocument,
    StoredObject,
};
use tantivy::schema::{Facet, Field};
use tantivy::Document;

fn payload(n: u64) -> JsonObject {
    let mut inner = JsonObject::new();
    inner.insert("deep".to_string(), serde_json::Value::from(vec![1u64, 2, n]));
    let mut o = JsonObject::new();
    o.insert("title".to_string(), serde_json::Value::from("A title"));
    o.insert("count".to_string(), serde_json::Value::from(n));
    o.insert("nothing".to_string(), serde_json::Value::Null);
    o.insert("inner".to_string(), serde_json::Value::Object(inner));
    o
}

fn full(facet: TypeFacet, tags: Vec<u32>, texts: Vec<&str>) -> StoredObject {
    Meta {
        id: 4_000_000_000,
        facet,
        data: Taggable {
            data: SearchableEntry {
                data: payload(7),
                searchable: texts.into_iter().map(|t| Indexed::text(t.to_string())).collect(),
            },
            tags,
        },
        ctime: 1,
        last_update: u64::MAX,
        last_interaction: 3,
    }
}

fn texts(o: &SearchableEntry<JsonObject>) -> Vec<String> {
    o.searchable
        .iter()
        .map(|e| {
            assert_eq!(e.field, Fields::Text);
            e.data.as_str().unwrap().to_string()
        })
        .collect()
}

fn assert_same(a: &StoredObject, b: &StoredObject) {
    assert_eq!(a.id, b.id);
    assert_eq!(a.facet.to_path(), b.facet.to_path());
    assert_eq!(format!("{:?}", a.facet), format!("{:?}", b.facet));
    assert_eq!(a.ctime, b.ctime);
    assert_eq!(a.last_update, b.last_update);
    assert_eq!(a.last_interaction, b.last_interaction);
    assert_eq!(a.data.tags, b.data.tags);
    assert_eq!(texts(&a.data.data), texts(&b.data.data));
    assert_eq!(a.data.data.data, b.data.data.data);
}

fn round_trip(o: StoredObject) {
    let fields = FieldRegistry::new();
    let doc = to_document(&fields, o.clone()).unwrap();
    let back: StoredObject = DbAble::take(&fields, &doc).unwrap();
    assert_same(&o, &back);
}

#[test]
fn full_object_round_trip() {
    round_trip(full(TypeFacet::Bookmark, vec![1, 2, 3], vec!["one", "two words"]));
}

#[test]
fn round_trip_with_empty_tags_and_texts() {
    round_trip(full(TypeFacet::Image, vec![], vec![]));
    round_trip(full(TypeFacet::Image, vec![], vec!["only text"]));
    round_trip(full(TypeFacet::Image, vec![9], vec![]));
}

#[test]
fn round_trip_keeps_duplicate_tags_and_their_order() {
    round_trip(full(TypeFacet::Group, vec![5, 1, 5, 5, 0, u32::MAX], vec!["", " ", "a"]));
}

#[test]
fn round_trip_of_every_kind() {
    for facet in [
        TypeFacet::Image,
        TypeFacet::Bookmark,
        TypeFacet::Tag,
        TypeFacet::Group,
        TypeFacet::Content,
        TypeFacet::Notes,
        TypeFacet::Temp("/app_data/state".to_string()),
        TypeFacet::Temp("/temp/0b0e5b1c-0000-4000-8000-000000000000".to_string()),
        TypeFacet::Temp("/".to_string()),
        TypeFacet::Temp("/with space/and-ünïcode/".to_string()),
        TypeFacet::Temp("//".to_string()),
        TypeFacet::Temp("/a\\/b".to_string()),
        TypeFacet::Temp("/\\/".to_string()),
        TypeFacet::Temp("/a\\//b\\/\\/c/".to_string()),
    ] {
        round_trip(full(facet, vec![1], vec!["t"]));
    }
}

#[test]
fn a_facet_path_with_a_backslash_or_a_nul_is_not_kept() {
    let fields = FieldRegistry::new();
    let o = full(TypeFacet::Temp("/a\\b".to_string()), vec![], vec![]);
    let doc = to_document(&fields, o).unwrap();
    let back: StoredObject = DbAble::take(&fields, &doc).unwrap();
    assert_eq!(back.facet.to_path(), "/ab");
    let o = full(TypeFacet::Temp("/a\u{0}b".to_string()), vec![], vec![]);
    let doc = to_document(&fields, o).unwrap();
    let back: StoredObject = DbAble::take(&fields, &doc).unwrap();
    assert_eq!(back.facet.to_path(), "/a/b");
}

#[test]
fn a_named_path_under_temp_reads_back_as_the_named_kind() {
    let fields = FieldRegistry::new();
    let o = full(TypeFacet::Temp("/image".to_string()), vec![], vec![]);
    let doc = to_document(&fields, o).unwrap();
    let back: StoredObject = DbAble::take(&fields, &doc).unwrap();
    assert!(matches!(back.facet, TypeFacet::Image));
}

#[test]
fn entries_are_written_in_order() {
    let fields = FieldRegistry::new();
    let doc = to_document(&fields, full(TypeFacet::Notes, vec![8, 9], vec!["x"])).unwrap();
    let handles: Vec<u32> = doc.field_values().iter().map(|fv| fv.field().field_id()).collect();
    let h = |f: Fields| fields.get_field(f);
    assert_eq!(
        handles,
        vec![
            h(Fields::Id),
            h(Fields::Type),
            h(Fields::Ctime),
            h(Fields::Mtime),
            h(Fields::LastInteraction),
            h(Fields::Tag),
            h(Fields::Tag),
            h(Fields::Text),
            h(Fields::Json),
        ]
    );
    let values = doc.field_values();
    assert_eq!(values[0].value().as_u64(), Some(4_000_000_000));
    assert_eq!(values[1].value().as_facet().unwrap().to_path_string(), "/notes");
    assert_eq!(values[2].value().as_u64(), Some(1));
    assert_eq!(values[3].value().as_u64(), Some(u64::MAX));
    assert_eq!(values[4].value().as_u64(), Some(3));
    assert_eq!(values[5].value().as_u64(), Some(8));
    assert_eq!(values[6].value().as_u64(), Some(9));
    assert_eq!(values[7].value().as_text(), Some("x"));
    assert_eq!(values[8].value().as_json(), Some(&payload(7)));
}

#[test]
fn the_registry_decides_the_handles() {
    let fields = FieldRegistry::from_handles(vec![18, 17, 16, 15, 14, 13, 12, 11, 10]).unwrap();
    let o = full(TypeFacet::Notes, vec![8], vec!["x"]);
    let doc = to_document(&fields, o.clone()).unwrap();
    let handles: Vec<u32> = doc.field_values().iter().map(|fv| fv.field().field_id()).collect();
    assert_eq!(handles, vec![18, 17, 12, 11, 10, 14, 16, 13]);
    let back: StoredObject = DbAble::take(&fields, &doc).unwrap();
    assert_same(&o, &back);
    // Read with other handles, the document does not hold an object.
    let other = FieldRegistry::new();
    assert!(StoredObject::take(&other, &doc).is_err());
}

#[test]
fn a_document_reads_through_narrower_types() {
    let fields = FieldRegistry::new();
    let o = full(TypeFacet::Bookmark, vec![1, 2], vec!["one", "two"]);
    let doc = to_document(&fields, o.clone()).unwrap();

    let a: Taggable<SearchableEntry<JsonObject>> = DbAble::take(&fields, &doc).unwrap();
    assert_eq!(a.tags, vec![1, 2]);
    assert_eq!(texts(&a.data), vec!["one", "two"]);
    assert_eq!(a.data.data, payload(7));

    let b: SearchableEntry<JsonObject> = DbAble::take(&fields, &doc).unwrap();
    assert_eq!(texts(&b), vec!["one", "two"]);
    assert_eq!(b.data, payload(7));

    let c: JsonObject = DbAble::take(&fields, &doc).unwrap();
    assert_eq!(c, payload(7));

    let d: Taggable<JsonObject> = DbAble::take(&fields, &doc).unwrap();
    assert_eq!(d.tags, vec![1, 2]);
    assert_eq!(d.data, payload(7));

    let e: Meta<JsonObject, TypeFacet> = DbAble::take(&fields, &doc).unwrap();
    assert_eq!(e.id, o.id);
    assert_eq!(e.facet.to_path(), "/bookmark");
    assert_eq!((e.ctime, e.last_update, e.last_interaction), (1, u64::MAX, 3));
    assert_eq!(e.data, payload(7));

    let f: Meta<SearchableEntry<JsonObject>, TypeFacet> = DbAble::take(&fields, &doc).unwrap();
    assert_eq!(texts(&f.data), vec!["one", "two"]);

    let g: Meta<Taggable<JsonObject>, TypeFacet> = DbAble::take(&fields, &doc).unwrap();
    assert_eq!(g.data.tags, vec![1, 2]);
}

#[test]
fn layers_that_were_not_written_read_as_empty() {
    let fields = FieldRegistry::new();
    let doc = to_document(&fields, payload(1)).unwrap();
    let a: Taggable<SearchableEntry<JsonObject>> = DbAble::take(&fields, &doc).unwrap();
    assert_eq!(a.tags, Vec::<u32>::new());
    assert_eq!(a.data.searchable.len(), 0);
    assert_eq!(a.data.data, payload(1));
    let m: Result<Meta<JsonObject, TypeFacet>, _> = DbAble::take(&fields, &doc);
    assert_eq!(m.unwrap_err().message(), "bad id");
}

fn with(entries: &[(Fields, u64)], facet: Option<&str>) -> Document {
    let fields = FieldRegistry::new();
    let mut doc = Document::new();
    for (f, v) in entries {
        doc.add_u64(Field::from_field_id(fields.get_field(*f)), *v);
    }
    if let Some(path) = facet {
        doc.add_facet(Field::from_field_id(fields.get_field(Fields::Type)), Facet::from(path));
    }
    doc
}

fn meta_error(doc: &Document) -> String {
    let fields = FieldRegistry::new();
    let r: Result<Meta<JsonObject, TypeFacet>, _> = DbAble::take(&fields, doc);
    r.unwrap_err().message().to_string()
}

#[test]
fn each_missing_field_has_its_error() {
    assert_eq!(meta_error(&with(&[], None)), "bad id");
    assert_eq!(meta_error(&with(&[(Fields::Id, 1)], None)), "bad facet");
    assert_eq!(meta_error(&with(&[(Fields::Id, 1)], Some("/x"))), "bad ctime");
    assert_eq!(
        meta_error(&with(&[(Fields::Id, 1), (Fields::Ctime, 1)], Some("/x"))),
        "bad last_update"
    );
    assert_eq!(
        meta_error(&with(&[(Fields::Id, 1), (Fields::Ctime, 1), (Fields::Mtime, 1)], Some("/x"))),
        "bad last_interaction"
    );
    assert_eq!(
        meta_error(&with(
            &[(Fields::Id, 1), (Fields::Ctime, 1), (Fields::Mtime, 1), (Fields::LastInteraction, 1)],
            Some("/x")
        )),
        "no Json in document"
    );
}

#[test]
fn a_field_of_the_wrong_type_is_an_error() {
    let fields = FieldRegistry::new();
    let h = |f: Fields| Field::from_field_id(fields.get_field(f));

    let mut doc = Document::new();
    doc.add_text(h(Fields::Id), "1");
    assert_eq!(meta_error(&doc), "bad id");

    let mut doc = with(&[(Fields::Id, 1)], None);
    doc.add_text(h(Fields::Type), "/bookmark");
    assert_eq!(meta_error(&doc), "bad facet");

    let mut doc = Document::new();
    doc.add_text(h(Fields::Json), "{}");
    let r: Result<JsonObject, _> = DbAble::take(&fields, &doc);
    assert_eq!(r.unwrap_err().message(), "value is not a Map");

    let mut doc = Document::new();
    doc.add_u64(h(Fields::Tag), 1);
    doc.add_i64(h(Fields::Tag), 2);
    doc.add_json_object(h(Fields::Json), payload(1));
    let r: Result<Taggable<JsonObject>, _> = DbAble::take(&fields, &doc);
    assert_eq!(r.unwrap_err().message(), "bad tags");

    // Values under the text field that are no text are passed over.
    let mut doc = Document::new();
    doc.add_text(h(Fields::Text), "kept");
    doc.add_u64(h(Fields::Text), 2);
    doc.add_text(h(Fields::Text), "also kept");
    doc.add_json_object(h(Fields::Json), payload(1));
    let r: SearchableEntry<JsonObject> = DbAble::take(&fields, &doc).unwrap();
    assert_eq!(texts(&r), vec!["kept", "also kept"]);
}

#[test]
fn the_first_value_of_a_field_counts() {
    let fields = FieldRegistry::new();
    let mut doc = with(
        &[
            (Fields::Id, 1),
            (Fields::Id, 2),
            (Fields::Ctime, 3),
            (Fields::Ctime, 4),
            (Fields::Mtime, 5),
            (Fields::LastInteraction, 6),
        ],
        Some("/notes"),
    );
    doc.add_facet(Field::from_field_id(fields.get_field(Fields::Type)), Facet::from("/image"));
    doc.add_json_object(Field::from_field_id(fields.get_field(Fields::Json)), payload(1));
    doc.add_json_object(Field::from_field_id(fields.get_field(Fields::Json)), payload(2));
    let m: Meta<JsonObject, TypeFacet> = DbAble::take(&fields, &doc).unwrap();
    assert_eq!((m.id, m.ctime, m.last_update, m.last_interaction), (1, 3, 5, 6));
    assert!(matches!(m.facet, TypeFacet::Notes));
    assert_eq!(m.data, payload(1));
}

#[test]
fn a_stored_id_is_cut_to_the_width_of_an_id() {
    let doc = {
        let fields = FieldRegistry::new();
        let mut doc = with(
            &[
                (Fields::Id, (1u64 << 32) + 5),
                (Fields::Ctime, 1),
                (Fields::Mtime, 1),
                (Fields::LastInteraction, 1),
                (Fields::Tag, (7u64 << 32) + 9),
            ],
            Some("/notes"),
        );
        doc.add_json_object(Field::from_field_id(fields.get_field(Fields::Json)), payload(1));
        doc
    };
    let fields = FieldRegistry::new();
    let m: Meta<Taggable<JsonObject>, TypeFacet> = DbAble::take(&fields, &doc).unwrap();
    assert_eq!(m.id, 5);
    assert_eq!(m.data.tags, vec![9]);
}

#[test]
fn only_text_under_the_text_field_can_be_indexed() {
    let fields = FieldRegistry::new();
    let bad = [
        Indexed { field: Fields::Text, data: serde_json::Value::from(1u64) },
        Indexed { field: Fields::Text, data: serde_json::Value::Null },
        Indexed { field: Fields::Id, data: serde_json::Value::from("text") },
        Indexed { field: Fields::Json, data: serde_json::Value::from("text") },
    ];
    for entry in bad {
        let mut doc = Document::new();
        let e = entry.add(&fields, &mut doc).unwrap_err();
        assert_eq!(e.message(), "invalid searchable entry");
        assert_eq!(doc.len(), 0);

        let o = SearchableEntry {
            data: payload(1),
            searchable: vec![Indexed::text("written".to_string()), entry.clone(), Indexed::text("not written".to_string())],
        };
        let mut doc = Document::new();
        let e = o.add(&fields, &mut doc).unwrap_err();
        assert_eq!(e.message(), "invalid searchable entry");
        assert_eq!(doc.len(), 1);
        assert_eq!(doc.field_values()[0].value().as_text(), Some("written"));
    }
    let mut doc = Document::new();
    Indexed::text("fine".to_string()).add(&fields, &mut doc).unwrap();
    assert_eq!(doc.len(), 1);
}

#[test]
fn writing_appends_to_what_the_document_holds() {
    let fields = FieldRegistry::new();
    let mut doc = Document::new();
    doc.add_u64(Field::from_field_id(77), 1);
    payload(3).add(&fields, &mut doc).unwrap();
    assert_eq!(doc.len(), 2);
    assert_eq!(doc.field_values()[0].field().field_id(), 77);
    let back: JsonObject = DbAble::take(&fields, &doc).unwrap();
    assert_eq!(back, payload(3));
}

#[test]
fn one_unreadable_hit_fails_the_search() {
    let fields = FieldRegistry::new();
    let good = |n: u64| to_document(&fields, payload(n)).unwrap();
    let docs = vec![good(1), good(2), good(3)];
    let all: Vec<JsonObject> = decode_hits(&fields, &docs).unwrap();
    assert_eq!(all, vec![payload(1), payload(2), payload(3)]);

    let none: Vec<JsonObject> = decode_hits(&fields, &Vec::new()).unwrap();
    assert_eq!(none.len(), 0);

    let mut wrong = Document::new();
    wrong.add_text(Field::from_field_id(fields.get_field(Fields::Json)), "text");
    let docs = vec![good(1), Document::new(), wrong, good(2)];
    let r: Result<Vec<JsonObject>, _> = decode_hits(&fields, &docs);
    assert_eq!(r.unwrap_err().message(), "no Json in document");
}

#[test]
fn a_kind_without_a_leading_slash_is_refused() {
    let fields = FieldRegistry::new();
    for path in ["", "image", " /image", "\\/image"] {
        let o = full(TypeFacet::Temp(path.to_string()), vec![1], vec!["t"]);
        let e = to_document(&fields, o.clone()).unwrap_err();
        assert_eq!((e.kind, e.message()), (ErrorKind::Malformed, "bad facet"));
        let mut doc = Document::new();
        doc.add_u64(Field::from_field_id(77), 1);
        let e = o.add(&fields, &mut doc).unwrap_err();
        assert_eq!((e.kind, e.message()), (ErrorKind::Malformed, "bad facet"));
        assert_eq!(doc.len(), 1);
    }
}

#[test]
fn errors_have_their_kinds() {
    let fields = FieldRegistry::new();
    let e = StoredObject::take(&fields, &Document::new()).unwrap_err();
    assert_eq!((e.kind, e.message()), (ErrorKind::Corrupt, "bad id"));
    let e = JsonObject::take(&fields, &Document::new()).unwrap_err();
    assert_eq!((e.kind, e.message()), (ErrorKind::Corrupt, "no Json in document"));
    let r: Result<Vec<JsonObject>, _> = decode_hits(&fields, &vec![Document::new()]);
    assert_eq!(r.unwrap_err().kind, ErrorKind::Corrupt);
    let bad = Indexed { field: Fields::Text, data: serde_json::Value::Null };
    let mut doc = Document::new();
    let e = bad.add(&fields, &mut doc).unwrap_err();
    assert_eq!((e.kind, e.message()), (ErrorKind::Malformed, "invalid searchable entry"));
    let o = SearchableEntry { data: payload(1), searchable: vec![bad.clone()] };
    let e = to_document(&fields, o).unwrap_err();
    assert_eq!((e.kind, e.message()), (ErrorKind::Malformed, "invalid searchable entry"));
    let e = with_tag(&fields, &Document::new(), 1).unwrap_err();
    assert_eq!((e.kind, e.message()), (ErrorKind::Corrupt, "bad id"));
}

#[test]
fn the_shape_is_checked_kind_first() {
    let good = vec![Indexed::text("a".to_string())];
    let bad = vec![Indexed::text("a".to_string()), Indexed { field: Fields::Id, data: serde_json::Value::from("x") }];
    assert!(check_shape(&TypeFacet::Image, &good).is_ok());
    assert!(check_shape(&TypeFacet::Image, &vec![]).is_ok());
    assert!(check_searchable(&good).is_ok());
    let e = check_shape(&TypeFacet::Image, &bad).unwrap_err();
    assert_eq!((e.kind, e.message()), (ErrorKind::Malformed, "invalid searchable entry"));
    let e = check_searchable(&bad).unwrap_err();
    assert_eq!((e.kind, e.message()), (ErrorKind::Malformed, "invalid searchable entry"));
    let e = check_shape(&TypeFacet::Temp("x".to_string()), &bad).unwrap_err();
    assert_eq!((e.kind, e.message()), (ErrorKind::Malformed, "bad facet"));
    let e = check_shape(&TypeFacet::Temp("x".to_string()), &good).unwrap_err();
    assert_eq!((e.kind, e.message()), (ErrorKind::Malformed, "bad facet"));
}

#[test]
fn a_document_keeps_its_facet_when_its_tags_change() {
    let fields = FieldRegistry::new();
    // Facets that the engine prints in a way that does not read back as
    // themselves: a part with a backslash, a part with a slash.
    let facets = [
        Facet::from_path(vec!["a\\b", "c"]),
        Facet::from_path(vec!["a/b"]),
        Facet::from_path(vec!["plain", "path"]),
        Facet::root(),
    ];
    for facet in facets {
        let object: StoredDocument = Meta {
            id: 3,
            facet: facet.clone(),
            data: Taggable {
                data: SearchableEntry { data: payload(2), searchable: vec![Indexed::text("t".to_string())] },
                tags: vec![1, 2, 1],
            },
            ctime: 4,
            last_update: 5,
            last_interaction: 6,
        };
        let doc = to_document(&fields, object).unwrap();
        let back: StoredDocument = DbAble::take(&fields, &doc).unwrap();
        assert_eq!(back.facet, facet);
        assert_eq!((back.id, back.ctime, back.last_update, back.last_interaction), (3, 4, 5, 6));

        let more = with_tag(&fields, &doc, 9).unwrap();
        let back: StoredDocument = DbAble::take(&fields, &more).unwrap();
        assert_eq!(back.facet, facet);
        assert_eq!(back.data.tags, vec![1, 2, 1, 9]);
        assert_eq!(back.data.data.data, payload(2));
        assert_eq!(texts(&back.data.data), vec!["t"]);

        let fewer = without_tag(&fields, &more, 1).unwrap();
        let back: StoredDocument = DbAble::take(&fields, &fewer).unwrap();
        assert_eq!(back.facet, facet);
        assert_eq!(back.data.tags, vec![2, 9]);
        assert_eq!((back.id, back.ctime, back.last_update, back.last_interaction), (3, 4, 5, 6));

        // Read as an object of this crate, the kind is what the path stands for.
        let seen: StoredObject = DbAble::take(&fields, &doc).unwrap();
        assert_eq!(seen.facet.to_path(), facet.to_path_string());
    }
}
