//! Object kinds and their facet paths.

use vstd::prelude::*;
use vstd::string::StringExecFns;
use crate::scan::{has_prefix_chars, starts_with};
use crate::text::chars_of;

verus! {

/// The kind of a stored object.
///
/// Six kinds are named. `Temp` holds any other facet path, for documents
/// that ordinary object searches should not see.
#[derive(Debug, Clone)]
pub enum TypeFacet {
    Image,
    Bookmark,
    Tag,
    Group,
    Content,
    Notes,
    Temp(String),
}

/// A kind as a mathematical value.
pub enum FacetView {
    Image,
    Bookmark,
    Tag,
    Group,
    Content,
    Notes,
    Temp(Seq<char>),
}

impl FacetView {
    /// The facet path of the kind.
    pub open spec fn path(self) -> Seq<char> {
        match self {
            FacetView::Image => "/image"@,
            FacetView::Bookmark => "/bookmark"@,
            FacetView::Tag => "/tag"@,
            FacetView::Group => "/group"@,
            FacetView::Content => "/content"@,
            FacetView::Notes => "/notes"@,
            FacetView::Temp(s) => s,
        }
    }

    /// Whether the kind is one of the six named ones.
    pub open spec fn is_named(self) -> bool {
        !(self is Temp)
    }

    /// The kind that a facet path stands for: the named kind with that path,
    /// or `Temp` of the path itself.
    pub open spec fn of_path(p: Seq<char>) -> FacetView {
        if p == "/image"@ {
            FacetView::Image
        } else if p == "/bookmark"@ {
            FacetView::Bookmark
        } else if p == "/tag"@ {
            FacetView::Tag
        } else if p == "/group"@ {
            FacetView::Group
        } else if p == "/content"@ {
            FacetView::Content
        } else if p == "/notes"@ {
            FacetView::Notes
        } else {
            FacetView::Temp(p)
        }
    }
}

/// Whether `p` is the path of a named kind.
pub open spec fn is_named_path(p: Seq<char>) -> bool {
    p == "/image"@ || p == "/bookmark"@ || p == "/tag"@ || p == "/group"@ || p == "/content"@
        || p == "/notes"@
}

impl View for TypeFacet {
    type V = FacetView;

    open spec fn view(&self) -> FacetView {
        match self {
            TypeFacet::Image => FacetView::Image,
            TypeFacet::Bookmark => FacetView::Bookmark,
            TypeFacet::Tag => FacetView::Tag,
            TypeFacet::Group => FacetView::Group,
            TypeFacet::Content => FacetView::Content,
            TypeFacet::Notes => FacetView::Notes,
            TypeFacet::Temp(s) => FacetView::Temp(s@),
        }
    }
}

/// The six named paths are pairwise different, and each starts with a slash.
pub proof fn lemma_named_paths()
    ensures
        "/image"@ != "/bookmark"@,
        "/image"@ != "/tag"@,
        "/image"@ != "/group"@,
        "/image"@ != "/content"@,
        "/image"@ != "/notes"@,
        "/bookmark"@ != "/tag"@,
        "/bookmark"@ != "/group"@,
        "/bookmark"@ != "/content"@,
        "/bookmark"@ != "/notes"@,
        "/tag"@ != "/group"@,
        "/tag"@ != "/content"@,
        "/tag"@ != "/notes"@,
        "/group"@ != "/content"@,
        "/group"@ != "/notes"@,
        "/content"@ != "/notes"@,
        forall|k: FacetView| k.is_named() ==> #[trigger] k.path().len() > 1 && k.path()[0] == '/',
{
    reveal_strlit("/image");
    reveal_strlit("/bookmark");
    reveal_strlit("/tag");
    reveal_strlit("/group");
    reveal_strlit("/content");
    reveal_strlit("/notes");
    assert("/image"@.len() == 6);
    assert("/bookmark"@.len() == 9);
    assert("/tag"@.len() == 4);
    assert("/group"@[3] == 'o');
    assert("/notes"@[3] == 't');
    assert("/content"@.len() == 8);
    assert("/image"@[0] == '/');
    assert("/bookmark"@[0] == '/');
    assert("/tag"@[0] == '/');
    assert("/group"@[0] == '/');
    assert("/content"@[0] == '/');
    assert("/notes"@[0] == '/');
}

/// Reading back the path of a named kind gives the kind again.
pub proof fn lemma_named_round_trip(k: FacetView)
    requires
        k.is_named(),
    ensures
        FacetView::of_path(k.path()) == k,
{
    lemma_named_paths();
}

/// A path that belongs to no named kind stands for `Temp` of itself, and the
/// path of that kind is the same path again.
pub proof fn lemma_other_round_trip(p: Seq<char>)
    requires
        !is_named_path(p),
    ensures
        FacetView::of_path(p) == FacetView::Temp(p),
        FacetView::of_path(p).path() == p,
{
}

/// The path of whatever kind a path stands for is that path: no path is
/// changed by reading it as a kind and writing it out again.
pub proof fn lemma_path_round_trip(p: Seq<char>)
    ensures
        FacetView::of_path(p).path() == p,
{
}

impl TypeFacet {
    /// The facet path of the kind, borrowed.
    pub fn as_str(&self) -> (p: &str)
        ensures
            p@ == self@.path(),
    {
        match self {
            TypeFacet::Image => "/image",
            TypeFacet::Bookmark => "/bookmark",
            TypeFacet::Tag => "/tag",
            TypeFacet::Group => "/group",
            TypeFacet::Content => "/content",
            TypeFacet::Notes => "/notes",
            TypeFacet::Temp(s) => s.as_str(),
        }
    }

    /// The facet path of the kind.
    pub fn to_path(&self) -> (p: String)
        ensures
            p@ == self@.path(),
    {
        self.as_str().to_owned()
    }

    /// The kind that the path `value` stands for. Every path stands for one.
    pub fn from_path(value: &str) -> (t: TypeFacet)
        ensures
            t@ == FacetView::of_path(value@),
    {
        TypeFacet::from(value.to_owned())
    }

    /// The same as [`TypeFacet::from`], in the shape of a fallible
    /// conversion that never fails.
    pub fn try_from(value: String) -> (r: Result<TypeFacet, ()>)
        ensures
            r is Ok,
            r->Ok_0@ == FacetView::of_path(value@),
    {
        Ok(TypeFacet::from(value))
    }
}

impl From<String> for TypeFacet {
    fn from(value: String) -> (t: TypeFacet) {
        if value == "/image".to_owned() {
            TypeFacet::Image
        } else if value == "/bookmark".to_owned() {
            TypeFacet::Bookmark
        } else if value == "/tag".to_owned() {
            TypeFacet::Tag
        } else if value == "/group".to_owned() {
            TypeFacet::Group
        } else if value == "/content".to_owned() {
            TypeFacet::Content
        } else if value == "/notes".to_owned() {
            TypeFacet::Notes
        } else {
            TypeFacet::Temp(value)
        }
    }
}

impl vstd::std_specs::convert::FromSpecImpl<String> for TypeFacet {
    open spec fn obeys_from_spec() -> bool {
        true
    }

    open spec fn from_spec(value: String) -> TypeFacet {
        if value@ == "/image"@ {
            TypeFacet::Image
        } else if value@ == "/bookmark"@ {
            TypeFacet::Bookmark
        } else if value@ == "/tag"@ {
            TypeFacet::Tag
        } else if value@ == "/group"@ {
            TypeFacet::Group
        } else if value@ == "/content"@ {
            TypeFacet::Content
        } else if value@ == "/notes"@ {
            TypeFacet::Notes
        } else {
            TypeFacet::Temp(value)
        }
    }
}


/// Whether the facet path `path` lies within the facet path `kind`: it is
/// `kind` itself, or `kind` followed by a slash and more. Every path that
/// starts with a slash lies within the root path `/`.
pub open spec fn lies_within(path: Seq<char>, kind: Seq<char>) -> bool {
    ||| path == kind
    ||| kind == seq!['/'] && starts_with(path, kind)
    ||| starts_with(path, kind.push('/'))
}

/// Every path lies within itself, and within what lies within.
pub proof fn lemma_lies_within(a: Seq<char>, b: Seq<char>, c: Seq<char>)
    ensures
        lies_within(a, a),
        lies_within(a, b) && lies_within(b, c) ==> lies_within(a, c),
{
    if lies_within(a, b) && lies_within(b, c) && a != b && b != c {
        if c == seq!['/'] {
            assert(b.take(1) == c);
            if b == seq!['/'] {
            } else {
                assert(starts_with(a, b.push('/')));
                assert(a.take(b.len() as int + 1) == b.push('/'));
                assert(a.take(1) =~= a.take(b.len() as int + 1).take(1));
                assert(b.push('/').take(1) =~= b.take(1));
            }
        } else {
            let cs = c.push('/');
            assert(b.take(cs.len() as int) == cs);
            if b == seq!['/'] {
                assert(cs.len() >= 1);
                assert(b.len() == 1);
                assert(cs =~= seq!['/']);
                assert(c =~= Seq::<char>::empty());
                assert(a.take(1) == b);
                assert(a.take(cs.len() as int) == cs);
            } else {
                let bs = b.push('/');
                assert(a.take(bs.len() as int) == bs);
                assert(a.take(cs.len() as int) =~= bs.take(cs.len() as int));
                assert(bs.take(cs.len() as int) =~= b.take(cs.len() as int));
            }
        }
    }
}

impl TypeFacet {
    /// Whether the kind `other` is this kind or lies below it.
    pub fn holds(&self, other: &TypeFacet) -> (b: bool)
        ensures
            b == lies_within(other@.path(), self@.path()),
    {
        let kind = chars_of(self.as_str());
        let path = chars_of(other.as_str());
        let n = path.len();
        proof {
            assert(path@.subrange(0, n as int) == path@);
        }
        if kind.len() == n && has_prefix_chars(&path, 0, n, &kind) {
            assert(path@.take(n as int) == path@);
            return true;
        }
        if kind.len() == 1 && kind[0] == '/' {
            proof {
                assert(kind@ =~= seq!['/']);
                if starts_with(path@, kind@.push('/')) {
                    assert(path@.take(1) =~= path@.take(2).take(1));
                    assert(kind@.push('/').take(1) =~= kind@);
                }
                if path@ == kind@ {
                    assert(path@.take(1) == path@);
                }
            }
            return has_prefix_chars(&path, 0, n, &kind);
        }
        let mut below = kind;
        below.push('/');
        has_prefix_chars(&path, 0, n, &below)
    }
}

/// Whether a character is a lower-case hexadecimal digit or a hyphen.
pub open spec fn hex_or_hyphen(c: char) -> bool {
    ('0' <= c && c <= '9') || ('a' <= c && c <= 'f') || c == '-'
}

/// Calls `Uuid::new_v4` for a random id and writes it with
/// `Uuid::hyphenated`: 36 characters, hyphens at the places 8, 13, 18 and
/// 23 and lower-case hexadecimal digits at the others. Which id comes is
/// left open.
#[verifier::external_body]
fn random_uuid() -> (id: String)
    ensures
        id@.len() == 36,
        forall|i: int| 0 <= i < 36 ==> hex_or_hyphen(#[trigger] id@[i]),
        forall|i: int|
            0 <= i < 36 ==> ((#[trigger] id@[i]) == '-' <==> i == 8 || i == 13 || i == 18 || i == 23),
{
    uuid::Uuid::new_v4().hyphenated().to_string()
}

/// The path of a new kind for documents that are kept for a while only:
/// `/temp/` and a random id. The path belongs to no named kind and is
/// stored as it is written.
pub fn new_temp_facet() -> (path: String)
    ensures
        path@.len() == 42,
        path@.subrange(0, 6) == "/temp/"@,
        forall|i: int| 6 <= i < 42 ==> hex_or_hyphen(#[trigger] path@[i]),
        forall|i: int|
            6 <= i < 42 ==> ((#[trigger] path@[i]) == '-' <==> i == 14 || i == 19 || i == 24 || i
                == 29),
        !is_named_path(path@),
        path@.len() > 0 && path@[0] == '/',
        forall|i: int| 0 <= i < path@.len() ==> path@[i] != '\\' && path@[i] != '\0',
{
    let id = random_uuid();
    let mut path = "/temp/".to_owned();
    path.append(id.as_str());
    proof {
        reveal_strlit("/temp/");
        let p = "/temp/"@;
        assert(p.len() == 6);
        assert(path@ == p + id@);
        assert(path@.subrange(0, 6) =~= p);
        assert forall|i: int| 6 <= i < 42 implies hex_or_hyphen(#[trigger] path@[i]) by {
            assert(path@[i] == id@[i - 6]);
        }
        assert forall|i: int| 6 <= i < 42 implies ((#[trigger] path@[i]) == '-' <==> i == 14 || i
            == 19 || i == 24 || i == 29) by {
            assert(path@[i] == id@[i - 6]);
        }
        assert forall|i: int| 0 <= i < path@.len() implies path@[i] != '\\' && path@[i] != '\0' by {
            if i < 6 {
                assert(path@[i] == p[i]);
            } else {
                assert(hex_or_hyphen(path@[i]));
            }
        }
        reveal_strlit("/image");
        reveal_strlit("/bookmark");
        reveal_strlit("/tag");
        reveal_strlit("/group");
        reveal_strlit("/content");
        reveal_strlit("/notes");
    }
    path
}

} // verus!
