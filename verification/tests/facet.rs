use kolekk::facet::TypeFacet;
use kolekk::fields::{schema_fields, FieldKind, FieldOptions, FieldRegistry, Fields, FIELD_COUNT};

fn named() -> Vec<(TypeFacet, &'static str)> {
    vec![
        (TypeFacet::Image, "/image"),
        (TypeFacet::Bookmark, "/bookmark"),
        (TypeFacet::Tag, "/tag"),
        (TypeFacet::Group, "/group"),
        (TypeFacet::Content, "/content"),
        (TypeFacet::Notes, "/notes"),
    ]
}

#[test]
fn named_kinds_round_trip() {
    for (kind, path) in named() {
        assert_eq!(kind.to_path(), path);
        assert_eq!(kind.as_str(), path);
        let back = TypeFacet::from(kind.to_path());
        assert_eq!(format!("{:?}", back), format!("{:?}", kind));
        let back = TypeFacet::from_path(path);
        assert_eq!(format!("{:?}", back), format!("{:?}", kind));
        let back = TypeFacet::try_from(path.to_string()).unwrap();
        assert_eq!(format!("{:?}", back), format!("{:?}", kind));
    }
}

#[test]
fn other_paths_are_temp() {
    for s in ["", "/", "image", "/Image", "/image/", "/images", "/app_data/state", "/tag/x", " /tag", "no slash"] {
        match TypeFacet::from(s.to_string()) {
            TypeFacet::Temp(t) => assert_eq!(t, s),
            other => panic!("{:?} for {:?}", other, s),
        }
        assert_eq!(TypeFacet::from_path(s).to_path(), s);
        assert_eq!(TypeFacet::Temp(s.to_string()).as_str(), s);
    }
}

#[test]
fn field_names_and_places() {
    let names: Vec<&str> = schema_fields().into_iter().map(|f| f.as_str()).collect();
    assert_eq!(
        names,
        vec!["id", "type", "text", "chksum", "tag", "json", "ctime", "mtime", "last_interaction"]
    );
    assert_eq!(FIELD_COUNT, 9);
    for (i, f) in schema_fields().into_iter().enumerate() {
        assert_eq!(f.index(), i);
        assert_eq!(Fields::from_index(i), Some(f));
    }
    assert_eq!(Fields::from_index(9), None);
    assert_eq!(Fields::Type.kind(), FieldKind::Facet);
    assert_eq!(Fields::Text.kind(), FieldKind::Text);
    assert_eq!(Fields::Chksum.kind(), FieldKind::Bytes);
    assert_eq!(Fields::Json.kind(), FieldKind::Json);
    for f in [Fields::Id, Fields::Tag, Fields::Ctime, Fields::Mtime, Fields::LastInteraction] {
        assert_eq!(f.kind(), FieldKind::U64);
        assert_eq!(f.options(), FieldOptions { stored: true, indexed: true, fast: true });
    }
    assert_eq!(Fields::Text.options(), FieldOptions { stored: true, indexed: true, fast: false });
    for f in [Fields::Type, Fields::Chksum, Fields::Json] {
        assert_eq!(f.options(), FieldOptions { stored: true, indexed: false, fast: false });
    }
}

#[test]
fn registry_of_handles() {
    let fresh = FieldRegistry::new();
    for f in schema_fields() {
        assert_eq!(fresh.get_field(f) as usize, f.index());
        assert_eq!(fresh.field_of(f.index() as u32), Some(f));
    }
    assert_eq!(fresh.field_of(9), None);

    let r = FieldRegistry::from_handles(vec![10, 20, 30, 40, 50, 60, 70, 80, 90]).unwrap();
    assert_eq!(r.get_field(Fields::Id), 10);
    assert_eq!(r.get_field(Fields::Type), 20);
    assert_eq!(r.get_field(Fields::Text), 30);
    assert_eq!(r.get_field(Fields::Chksum), 40);
    assert_eq!(r.get_field(Fields::Tag), 50);
    assert_eq!(r.get_field(Fields::Json), 60);
    assert_eq!(r.get_field(Fields::Ctime), 70);
    assert_eq!(r.get_field(Fields::Mtime), 80);
    assert_eq!(r.get_field(Fields::LastInteraction), 90);
    assert_eq!(r.field_of(50), Some(Fields::Tag));
    assert_eq!(r.field_of(5), None);

    assert!(FieldRegistry::from_handles(vec![]).is_none());
    assert!(FieldRegistry::from_handles(vec![0, 1, 2, 3, 4, 5, 6, 7]).is_none());
    assert!(FieldRegistry::from_handles(vec![0, 1, 2, 3, 4, 5, 6, 7, 8, 9]).is_none());
    assert!(FieldRegistry::from_handles(vec![0, 1, 2, 3, 4, 5, 6, 7, 0]).is_none());
    assert!(FieldRegistry::from_handles(vec![0, 1, 2, 3, 4, 5, 6, 8, 8]).is_none());
}

#[test]
fn kinds_hold_what_lies_below_them() {
    let t = |p: &str| TypeFacet::from_path(p);
    assert!(TypeFacet::Image.holds(&TypeFacet::Image));
    assert!(TypeFacet::Image.holds(&t("/image/thumbnail")));
    assert!(TypeFacet::Image.holds(&t("/image/a/b")));
    assert!(TypeFacet::Image.holds(&t("/image/")));
    assert!(!TypeFacet::Image.holds(&t("/imagery")));
    assert!(!TypeFacet::Image.holds(&t("/imag")));
    assert!(!TypeFacet::Image.holds(&t("/")));
    assert!(!TypeFacet::Image.holds(&TypeFacet::Bookmark));
    assert!(!t("/image/thumbnail").holds(&TypeFacet::Image));
    assert!(t("/").holds(&TypeFacet::Image));
    assert!(t("/").holds(&t("/")));
    assert!(t("/").holds(&t("//")));
    assert!(!t("/").holds(&t("image")));
    assert!(!t("/").holds(&t("")));
    assert!(t("").holds(&t("")));
    assert!(t("/a/b").holds(&t("/a/b/c")));
    assert!(!t("/a/b").holds(&t("/a/bc")));
}
