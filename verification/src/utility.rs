//! Paths, sources, thumbnail sizes, and what arrives by drag and drop.

use vstd::prelude::*;
use vstd::string::StringExecFns;

verus! {

/// The directory that a relative path starts from.
#[derive(Debug, Clone, Copy, PartialEq, Eq, Structural)]
pub enum BasePath {
    AppDataDir,
    AppCacheDir,
    AbsolutePath,
}

/// A path below one of the application's directories, or an absolute one.
/// The path is held as text, with `/` between its parts.
#[derive(Debug, Clone)]
pub struct Path {
    pub base: BasePath,
    pub path: String,
}

/// Whether a path text is absolute: it starts with a slash.
pub open spec fn is_absolute(p: Seq<char>) -> bool {
    p.len() > 0 && p[0] == '/'
}

/// The path `p` adjoined to the path `base`: `p` itself where it is
/// absolute; else `base`, a slash unless `base` is empty or ends with one,
/// and `p`.
pub open spec fn joined(base: Seq<char>, p: Seq<char>) -> Seq<char> {
    if is_absolute(p) {
        p
    } else if base.len() > 0 && base.last() != '/' {
        base.push('/') + p
    } else {
        base + p
    }
}

/// Adjoins the path `p` to the path `base`.
pub fn join_paths(base: &str, p: &str) -> (r: String)
    ensures
        r@ == joined(base@, p@),
{
    if p.unicode_len() > 0 && p.get_char(0) == '/' {
        return p.to_owned();
    }
    let n = base.unicode_len();
    let mut r = base.to_owned();
    if n > 0 && base.get_char(n - 1) != '/' {
        proof {
            reveal_strlit("/");
            assert("/"@ =~= seq!['/']);
            assert(base@ + seq!['/'] =~= base@.push('/'));
        }
        r.append("/");
    }
    r.append(p);
    r
}

impl Path {
    /// The path with `p` adjoined, from the same base.
    pub fn join(&self, p: &str) -> (r: Path)
        ensures
            r.base == self.base,
            r.path@ == joined(self.path@, p@),
    {
        Path { base: self.base, path: join_paths(self.path.as_str(), p) }
    }
}

/// Where an object came from.
#[derive(Debug, Clone)]
pub enum Source {
    Path(Path),
    Url(String),
}

/// The widths in which thumbnails are kept.
#[derive(Debug, Clone, Copy, PartialEq, Eq, Structural, Hash)]
pub enum ThumbnailSize {
    Original,
    W50,
    W100,
    W150,
    W200,
    W350,
    W500,
    W750,
    W1000,
    W1920,
}

impl ThumbnailSize {
    /// The width in pixels; the full size has none of its own.
    pub open spec fn value_spec(self) -> Option<u32> {
        match self {
            ThumbnailSize::Original => None,
            ThumbnailSize::W50 => Some(50u32),
            ThumbnailSize::W100 => Some(100u32),
            ThumbnailSize::W150 => Some(150u32),
            ThumbnailSize::W200 => Some(200u32),
            ThumbnailSize::W350 => Some(350u32),
            ThumbnailSize::W500 => Some(500u32),
            ThumbnailSize::W750 => Some(750u32),
            ThumbnailSize::W1000 => Some(1000u32),
            ThumbnailSize::W1920 => Some(1920u32),
        }
    }

    /// The size to show at a width of `u` pixels.
    pub open spec fn appropriate(u: u32) -> ThumbnailSize {
        if u <= 75 {
            ThumbnailSize::W50
        } else if u <= 125 {
            ThumbnailSize::W100
        } else if u <= 250 {
            ThumbnailSize::W200
        } else if u <= 400 {
            ThumbnailSize::W350
        } else if u <= 600 {
            ThumbnailSize::W500
        } else if u <= 800 {
            ThumbnailSize::W750
        } else if u <= 1400 {
            ThumbnailSize::W1000
        } else if u <= 2100 {
            ThumbnailSize::W1920
        } else {
            ThumbnailSize::Original
        }
    }

    /// The name of the size, as used in file names.
    pub open spec fn name(self) -> Seq<char> {
        match self {
            ThumbnailSize::Original => "original"@,
            ThumbnailSize::W50 => "w50"@,
            ThumbnailSize::W100 => "w100"@,
            ThumbnailSize::W150 => "w150"@,
            ThumbnailSize::W200 => "w200"@,
            ThumbnailSize::W350 => "w350"@,
            ThumbnailSize::W500 => "w500"@,
            ThumbnailSize::W750 => "w750"@,
            ThumbnailSize::W1000 => "w1000"@,
            ThumbnailSize::W1920 => "w1920"@,
        }
    }

    /// The place of the size among the sizes: the widths count from zero,
    /// the full size comes last.
    pub open spec fn position(self) -> int {
        match self {
            ThumbnailSize::Original => 9,
            ThumbnailSize::W50 => 0,
            ThumbnailSize::W100 => 1,
            ThumbnailSize::W150 => 2,
            ThumbnailSize::W200 => 3,
            ThumbnailSize::W350 => 4,
            ThumbnailSize::W500 => 5,
            ThumbnailSize::W750 => 6,
            ThumbnailSize::W1000 => 7,
            ThumbnailSize::W1920 => 8,
        }
    }

    /// The width in pixels; the full size has none of its own.
    pub fn value(&self) -> (v: Option<u32>)
        ensures
            v == self.value_spec(),
    {
        match self {
            ThumbnailSize::Original => None,
            ThumbnailSize::W50 => Some(50),
            ThumbnailSize::W100 => Some(100),
            ThumbnailSize::W150 => Some(150),
            ThumbnailSize::W200 => Some(200),
            ThumbnailSize::W350 => Some(350),
            ThumbnailSize::W500 => Some(500),
            ThumbnailSize::W750 => Some(750),
            ThumbnailSize::W1000 => Some(1000),
            ThumbnailSize::W1920 => Some(1920),
        }
    }

    /// The size to show at a width of `u` pixels.
    pub fn get_appropriate_size(u: u32) -> (s: ThumbnailSize)
        ensures
            s == Self::appropriate(u),
    {
        if u <= 75 {
            ThumbnailSize::W50
        } else if u <= 125 {
            ThumbnailSize::W100
        } else if u <= 250 {
            ThumbnailSize::W200
        } else if u <= 400 {
            ThumbnailSize::W350
        } else if u <= 600 {
            ThumbnailSize::W500
        } else if u <= 800 {
            ThumbnailSize::W750
        } else if u <= 1400 {
            ThumbnailSize::W1000
        } else if u <= 2100 {
            ThumbnailSize::W1920
        } else {
            ThumbnailSize::Original
        }
    }

    /// The name of the size, as used in file names.
    pub fn as_str(&self) -> (n: &'static str)
        ensures
            n@ == self.name(),
    {
        match self {
            ThumbnailSize::Original => "original",
            ThumbnailSize::W50 => "w50",
            ThumbnailSize::W100 => "w100",
            ThumbnailSize::W150 => "w150",
            ThumbnailSize::W200 => "w200",
            ThumbnailSize::W350 => "w350",
            ThumbnailSize::W500 => "w500",
            ThumbnailSize::W750 => "w750",
            ThumbnailSize::W1000 => "w1000",
            ThumbnailSize::W1920 => "w1920",
        }
    }

    /// The place of the size among the sizes.
    pub fn index(&self) -> (i: usize)
        ensures
            i == self.position(),
            i < 10,
    {
        match self {
            ThumbnailSize::Original => 9,
            ThumbnailSize::W50 => 0,
            ThumbnailSize::W100 => 1,
            ThumbnailSize::W150 => 2,
            ThumbnailSize::W200 => 3,
            ThumbnailSize::W350 => 4,
            ThumbnailSize::W500 => 5,
            ThumbnailSize::W750 => 6,
            ThumbnailSize::W1000 => 7,
            ThumbnailSize::W1920 => 8,
        }
    }
}

/// The image that a thumbnail is made from: its width, and the name of the
/// directory that holds its sizes.
#[derive(Debug, Clone)]
pub struct Thumbnail {
    pub width: u32,
    pub uuid: String,
}

impl Thumbnail {
    /// Whether the size is narrower than the image, so that a thumbnail of
    /// its own is worth making.
    pub open spec fn needs_new(self, size: ThumbnailSize) -> bool {
        match size.value_spec() {
            Some(v) => v < self.width,
            None => false,
        }
    }

    /// Whether the size is narrower than the image.
    pub fn needs_new_thumbnail(&self, size: ThumbnailSize) -> (b: bool)
        ensures
            b == self.needs_new(size),
    {
        match size.value() {
            Some(v) => v < self.width,
            None => false,
        }
    }

    /// The size to serve when `size` is asked for: `size` itself where it is
    /// narrower than the image, else the full size.
    pub fn get_appropriate_size(&self, size: ThumbnailSize) -> (s: ThumbnailSize)
        ensures
            s == if self.needs_new(size) {
                size
            } else {
                ThumbnailSize::Original
            },
    {
        if self.needs_new_thumbnail(size) {
            size
        } else {
            ThumbnailSize::Original
        }
    }
}

/// A file that arrived as bytes.
#[derive(Debug, Clone)]
pub struct ByteArrayFile {
    pub name: String,
    pub data: Vec<u8>,
}

/// What a drag, a drop or a paste brought, in the order of preference.
#[derive(Debug, Clone)]
pub struct DragDropPaste<F> {
    pub file_uris: Option<Vec<String>>,
    pub text: Option<String>,
    pub text_html: Option<String>,
    pub files: Option<Vec<F>>,
    pub uri_list: Option<String>,
    pub kolekk_text: Option<Vec<DragDropData<String>>>,
}

/// One piece of typed data of a drag and drop.
#[derive(Debug, Clone)]
pub struct DragDropData<T> {
    pub typpe: String,
    pub data: T,
}

/// The checksum and the size of a file.
#[derive(Debug, Clone, Copy)]
pub struct FileMetadata {
    pub chksum: [u8; 16],
    pub size: u64,
}

impl FileMetadata {
    /// Whether two files have the same checksum and size.
    pub open spec fn same(self, other: FileMetadata) -> bool {
        self.chksum@ == other.chksum@ && self.size == other.size
    }

    /// Whether two files have the same checksum and size.
    pub fn same_as(&self, other: &FileMetadata) -> (b: bool)
        ensures
            b == self.same(*other),
    {
        if self.size != other.size {
            return false;
        }
        let mut i: usize = 0;
        while i < 16
            invariant
                0 <= i <= 16,
                forall|k: int| 0 <= k < i ==> self.chksum@[k] == other.chksum@[k],
            decreases 16 - i,
        {
            if self.chksum[i] != other.chksum[i] {
                return false;
            }
            i += 1;
        }
        assert(self.chksum@ =~= other.chksum@);
        true
    }
}

/// Whether an entry of a directory listing is a file or a folder.
#[derive(Debug, Clone, Copy, PartialEq, Eq, Structural)]
pub enum FilderKind {
    File,
    Folder,
}

/// A file or a folder, with what the folder holds.
#[derive(Debug)]
pub struct Filder {
    pub name: String,
    pub files: Option<Vec<Filder>>,
    pub kind: FilderKind,
}

} // verus!
