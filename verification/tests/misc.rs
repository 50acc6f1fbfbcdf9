use kolekk::api::lastfm::non_empty_str;
use kolekk::api::tachidesk::ExtensionAction;
use kolekk::api::tmdb::{Config, ExternalId, Id, ImageConfig};
use kolekk::error::{BadError, Error, ErrorKind, InferBadError};
use kolekk::facet::{new_temp_facet, TypeFacet};
use kolekk::filesystem::{file_mdata, get_path, is_file_same, AppConfig, Checksum};
use kolekk::ids::{AppDatabaseState, IdAllocator};
use kolekk::objects::{Indexed, Meta};
use kolekk::score::{ObjectSearchScoreTweaker, Rank, RankKey, TagSearchScoreTweaker};
use kolekk::fields::{FieldRegistry, Fields};
use kolekk::utility::{join_paths, BasePath, FileMetadata, Path, Thumbnail, ThumbnailSize};

#[test]
fn errors_carry_their_message() {
    let e = Error::new("something".to_string());
    assert_eq!(e.message(), "something");
    assert_eq!(e.msg, "something");
    assert_eq!(e.kind, ErrorKind::Other);
    let e = Error::of(ErrorKind::NotFound, "gone");
    assert_eq!((e.kind, e.message()), (ErrorKind::NotFound, "gone"));
    assert_eq!(Some(1).bad_err("none").unwrap(), 1);
    assert_eq!(None::<u8>.bad_err("none").unwrap_err().message(), "none");
    assert_eq!(Ok::<u8, ()>(2).bad_err("failed").unwrap(), 2);
    assert_eq!(Err::<u8, u32>(7).bad_err("failed").unwrap_err().message(), "failed");
    assert_eq!(Ok::<u8, u32>(2).infer_err().unwrap(), 2);
    assert_eq!(Err::<u8, u32>(7).infer_err().unwrap_err().message(), "7");
    assert_eq!("x".parse::<u8>().infer_err().unwrap_err().message(), "invalid digit found in string");
    assert_eq!(Err::<u8, u32>(7).infer_err().unwrap_err().kind, ErrorKind::Other);
    assert_eq!(None::<u8>.bad_err("none").unwrap_err().kind, ErrorKind::Other);
}

#[test]
fn ids_count_up() {
    let mut ids = IdAllocator::new();
    assert_eq!(ids.new_id(), 0);
    assert_eq!(ids.new_id(), 1);
    assert_eq!(ids.new_id(), 2);
    assert_eq!(ids.get_state(), AppDatabaseState { id_gen: 3 });
    let mut again = IdAllocator::restored(ids.get_state());
    assert_eq!(again.new_id(), 3);
    again.update_state(AppDatabaseState { id_gen: 100 });
    assert_eq!(again.new_id(), 100);
    assert_eq!(again.new_id(), 101);
    assert_eq!(AppDatabaseState::default(), AppDatabaseState { id_gen: 0 });
}

#[test]
fn ids_start_again_behind_the_largest() {
    let mut ids = IdAllocator::restored(AppDatabaseState { id_gen: u32::MAX - 1 });
    assert_eq!(ids.new_id(), u32::MAX - 1);
    assert_eq!(ids.new_id(), u32::MAX);
    assert_eq!(ids.new_id(), 0);
    assert_eq!(ids.new_id(), 1);
}

#[test]
fn new_objects_carry_one_time() {
    let m = Meta::created(3, TypeFacet::Notes, "payload", 77);
    assert_eq!((m.id, m.ctime, m.last_update, m.last_interaction), (3, 77, 77, 77));
    assert_eq!(m.data, "payload");
    assert!(matches!(m.facet, TypeFacet::Notes));
    let e = Indexed::text("words".to_string());
    assert_eq!(e.field, Fields::Text);
    assert_eq!(e.data, serde_json::Value::String("words".to_string()));
}

#[test]
fn rank_keys_are_ordered() {
    let k = |secondary, id| RankKey { secondary, id };
    assert_eq!(k(1, 9).rank(&k(2, 0)), Rank::Lower);
    assert_eq!(k(2, 0).rank(&k(1, 9)), Rank::Higher);
    assert_eq!(k(5, 1).rank(&k(5, 2)), Rank::Lower);
    assert_eq!(k(5, 2).rank(&k(5, 1)), Rank::Higher);
    assert_eq!(k(5, 2).rank(&k(5, 2)), Rank::Same);
    assert_eq!(k(u64::MAX, u64::MAX).rank(&k(u64::MAX, 0)), Rank::Higher);
    // The ranking agrees with the order of the pairs.
    for a in [k(0, 0), k(0, 1), k(1, 0), k(1, 1)] {
        for b in [k(0, 0), k(0, 1), k(1, 0), k(1, 1)] {
            let expected = match (a.secondary, a.id).cmp(&(b.secondary, b.id)) {
                std::cmp::Ordering::Less => Rank::Lower,
                std::cmp::Ordering::Equal => Rank::Same,
                std::cmp::Ordering::Greater => Rank::Higher,
            };
            assert_eq!(a.rank(&b), expected);
        }
    }
}

#[test]
fn tweakers_read_their_columns() {
    let fields = FieldRegistry::from_handles(vec![10, 20, 30, 40, 50, 60, 70, 80, 90]).unwrap();
    let o = ObjectSearchScoreTweaker::new(&fields, 123);
    assert_eq!((o.now, o.ctime_field, o.id_field), (123, 70, 10));
    assert_eq!(o.score(5, 6), RankKey { secondary: 5, id: 6 });
    let t = TagSearchScoreTweaker::new(&fields, 456);
    assert_eq!((t.now, t.last_interaction, t.id_field), (456, 90, 10));
    assert_eq!(t.score(7, 8), RankKey { secondary: 7, id: 8 });
}

#[test]
fn thumbnail_sizes() {
    let widths = [
        (ThumbnailSize::Original, None, "original", 9),
        (ThumbnailSize::W50, Some(50), "w50", 0),
        (ThumbnailSize::W100, Some(100), "w100", 1),
        (ThumbnailSize::W150, Some(150), "w150", 2),
        (ThumbnailSize::W200, Some(200), "w200", 3),
        (ThumbnailSize::W350, Some(350), "w350", 4),
        (ThumbnailSize::W500, Some(500), "w500", 5),
        (ThumbnailSize::W750, Some(750), "w750", 6),
        (ThumbnailSize::W1000, Some(1000), "w1000", 7),
        (ThumbnailSize::W1920, Some(1920), "w1920", 8),
    ];
    for (size, value, name, index) in widths {
        assert_eq!(size.value(), value);
        assert_eq!(size.as_str(), name);
        assert_eq!(size.index(), index);
    }
    let steps = [
        (0, ThumbnailSize::W50),
        (75, ThumbnailSize::W50),
        (76, ThumbnailSize::W100),
        (125, ThumbnailSize::W100),
        (126, ThumbnailSize::W200),
        (250, ThumbnailSize::W200),
        (251, ThumbnailSize::W350),
        (400, ThumbnailSize::W350),
        (401, ThumbnailSize::W500),
        (600, ThumbnailSize::W500),
        (601, ThumbnailSize::W750),
        (800, ThumbnailSize::W750),
        (801, ThumbnailSize::W1000),
        (1400, ThumbnailSize::W1000),
        (1401, ThumbnailSize::W1920),
        (2100, ThumbnailSize::W1920),
        (2101, ThumbnailSize::Original),
        (u32::MAX, ThumbnailSize::Original),
    ];
    for (u, size) in steps {
        assert_eq!(ThumbnailSize::get_appropriate_size(u), size);
    }
}

#[test]
fn thumbnails_are_never_wider_than_the_image() {
    let t = Thumbnail { width: 500, uuid: "u".to_string() };
    assert!(t.needs_new_thumbnail(ThumbnailSize::W350));
    assert!(!t.needs_new_thumbnail(ThumbnailSize::W500));
    assert!(!t.needs_new_thumbnail(ThumbnailSize::W750));
    assert!(!t.needs_new_thumbnail(ThumbnailSize::Original));
    assert_eq!(t.get_appropriate_size(ThumbnailSize::W350), ThumbnailSize::W350);
    assert_eq!(t.get_appropriate_size(ThumbnailSize::W500), ThumbnailSize::Original);
    assert_eq!(t.get_appropriate_size(ThumbnailSize::W1920), ThumbnailSize::Original);
    assert_eq!(t.get_appropriate_size(ThumbnailSize::Original), ThumbnailSize::Original);
}

#[test]
fn paths_are_joined_as_the_file_system_joins_them() {
    for (base, p) in [
        ("/data", "images"),
        ("/data/", "images"),
        ("/data", "/etc/passwd"),
        ("", "images"),
        ("", ""),
        ("/data", ""),
        ("data", "a/b/c"),
        ("/", "x"),
        ("a//", "b"),
        ("a", "./b"),
        ("a", "../b"),
    ] {
        let expected = std::path::Path::new(base).join(p);
        assert_eq!(join_paths(base, p), expected.to_str().unwrap(), "{:?} {:?}", base, p);
    }
    let p = Path { base: BasePath::AppCacheDir, path: "thumbnails".to_string() }.join("abc");
    assert_eq!(p.base, BasePath::AppCacheDir);
    assert_eq!(p.path, "thumbnails/abc");
}

#[test]
fn application_paths() {
    let config = AppConfig {
        app_data_dir: "/home/u/.local/share/app".to_string(),
        app_config_dir: "/home/u/.config/app".to_string(),
        app_cache_dir: "/home/u/.cache/app".to_string(),
        app_log_dir: "/home/u/.log/app".to_string(),
        home_dir: "/home/u".to_string(),
    };
    let at = |base, path: &str| get_path(&Path { base, path: path.to_string() }, &config);
    assert_eq!(at(BasePath::AppDataDir, "images/1"), "/home/u/.local/share/app/images/1");
    assert_eq!(at(BasePath::AppCacheDir, "t"), "/home/u/.cache/app/t");
    assert_eq!(at(BasePath::AbsolutePath, "/tmp/x"), "/tmp/x");
    assert_eq!(at(BasePath::AbsolutePath, "relative"), "relative");
    assert_eq!(at(BasePath::AppDataDir, "/tmp/x"), "/tmp/x");
}

fn hex(bytes: &[u8]) -> String {
    bytes.iter().map(|b| format!("{:02x}", b)).collect()
}

#[test]
fn checksums() {
    let empty = file_mdata(b"");
    assert_eq!(hex(&empty.chksum), "d41d8cd98f00b204e9800998ecf8427e");
    assert_eq!(empty.size, 0);
    let abc = file_mdata(b"abc");
    assert_eq!(hex(&abc.chksum), "900150983cd24fb0d6963f7d28e17f72");
    assert_eq!(abc.size, 3);
    let fox = file_mdata(b"The quick brown fox jumps over the lazy dog");
    assert_eq!(hex(&fox.chksum), "9e107d9d372bb6826bd81d3542a419d6");
    assert_eq!(fox.size, 43);
}

#[test]
fn files_are_told_apart_by_checksum_and_size() {
    let a = file_mdata(b"abc");
    assert!(is_file_same(file_mdata(b"abc"), &a).is_none());
    let other = is_file_same(file_mdata(b"abd"), &a).unwrap();
    assert_eq!(other.chksum, file_mdata(b"abd").chksum);
    let longer = FileMetadata { chksum: a.chksum, size: 4 };
    assert_eq!(is_file_same(longer, &a).unwrap().size, 4);
    assert!(a.same_as(&a));
    assert!(!a.same_as(&longer));
    let mut last = a;
    last.chksum[15] ^= 1;
    assert!(!a.same_as(&last));
}

#[test]
fn service_ids() {
    assert_eq!(Id::Movie { id: 5 }.id_type(), "movie");
    assert_eq!(Id::Tv { id: 6 }.id_type(), "tv");
    assert_eq!(Id::Movie { id: 5 }.id(), 5);
    assert_eq!(Id::Tv { id: 6 }.id(), 6);
    assert_eq!(ExternalId::Tvdb("t1".to_string()).id_type(), "tvdb_id");
    assert_eq!(ExternalId::Imbd("tt2".to_string()).id_type(), "imdb_id");
    assert_eq!(ExternalId::Tvdb("t1".to_string()).id(), "t1");
    assert_eq!(ExternalId::Imbd("tt2".to_string()).id(), "tt2");
    assert_eq!(ExtensionAction::Install.as_str(), "install");
    assert_eq!(ExtensionAction::Update.as_str(), "update");
    assert_eq!(ExtensionAction::Uninstall.as_str(), "uninstall");
}

#[test]
fn image_address() {
    let usual = "https://image.tmdb.org/t/p/";
    assert_eq!(Config { images: None }.get_secure_base_url(), usual);
    let none = Config { images: Some(ImageConfig { base_url: Some("x".to_string()), secure_base_url: None }) };
    assert_eq!(none.get_secure_base_url(), usual);
    let own = Config { images: Some(ImageConfig { base_url: None, secure_base_url: Some("https://x/".to_string()) }) };
    assert_eq!(own.get_secure_base_url(), "https://x/");
    let default = Config::default();
    assert_eq!(default.get_secure_base_url(), usual);
    assert_eq!(default.images.unwrap().base_url.unwrap(), "http://image.tmdb.org/t/p/");
}

#[test]
fn empty_text_is_no_text() {
    assert_eq!(non_empty_str(None), None);
    assert_eq!(non_empty_str(Some(String::new())), None);
    assert_eq!(non_empty_str(Some(" ".to_string())), Some(" ".to_string()));
    assert_eq!(non_empty_str(Some("mbid".to_string())), Some("mbid".to_string()));
}

#[test]
fn temporary_kinds() {
    let a = new_temp_facet();
    let b = new_temp_facet();
    assert_ne!(a, b);
    for path in [a, b] {
        assert_eq!(path.len(), 42);
        assert!(path.starts_with("/temp/"));
        assert!(path[6..].chars().all(|c| c == '-' || c.is_ascii_digit() || ('a'..='f').contains(&c)));
        for (i, c) in path.chars().enumerate() {
            assert_eq!(c == '-', [14, 19, 24, 29].contains(&i), "{}", path);
        }
        let parsed = uuid::Uuid::parse_str(&path[6..]).unwrap();
        assert_eq!(parsed.get_version_num(), 4);
        match TypeFacet::from(path.clone()) {
            TypeFacet::Temp(p) => assert_eq!(p, path),
            other => panic!("{:?}", other),
        }
    }
}

#[test]
fn a_checksum_is_the_same_however_the_contents_are_cut() {
    let contents: Vec<u8> = (0..5000u32).map(|i| (i * 7 % 251) as u8).collect();
    let whole = file_mdata(&contents);
    assert_eq!(whole.size, 5000);
    for piece in [1usize, 7, 64, 4999, 5000, 9000] {
        let mut checksum = Checksum::new();
        for part in contents.chunks(piece) {
            checksum.update(part);
        }
        checksum.update(b"");
        let m = checksum.finish();
        assert_eq!(m.chksum, whole.chksum);
        assert_eq!(m.size, 5000);
    }
    let nothing = Checksum::new().finish();
    assert_eq!(hex(&nothing.chksum), "d41d8cd98f00b204e9800998ecf8427e");
    assert_eq!(nothing.size, 0);
    let mut two = Checksum::new();
    two.update(b"The quick brown fox ");
    two.update(b"jumps over the lazy dog");
    assert_eq!(hex(&two.finish().chksum), "9e107d9d372bb6826bd81d3542a419d6");
}
