//! Where the application keeps its files, and how it tells files apart.

use vstd::prelude::*;
use crate::utility::{join_paths, joined, BasePath, FileMetadata, Path, Source};

verus! {

/// The directories of the application, as path texts.
#[derive(Debug, Clone)]
pub struct AppConfig {
    pub app_data_dir: String,
    pub app_config_dir: String,
    pub app_cache_dir: String,
    pub app_log_dir: String,
    pub home_dir: String,
}

/// A file that was put into one of the application's directories.
#[derive(Debug, Clone)]
pub struct FiledResult {
    pub title: Option<String>,
    pub src: Option<Source>,
    pub dest: Path,
}

/// The running state of an MD5 computation.
#[verifier::external_type_specification]
#[verifier::external_body]
pub struct ExMd5Context(md5::Context);

/// The MD5 digest of a sequence of bytes: sixteen bytes.
pub uninterp spec fn md5_digest(bytes: Seq<u8>) -> Seq<u8>;

/// The bytes that an MD5 computation has consumed so far, in order.
pub uninterp spec fn md5_consumed(context: md5::Context) -> Seq<u8>;

/// Calls `Context::new`, which starts an MD5 computation that has consumed
/// nothing.
#[verifier::external_body]
fn md5_new() -> (context: md5::Context)
    ensures
        md5_consumed(context) == Seq::<u8>::empty(),
{
    md5::Context::new()
}

/// Calls `Context::consume`, which feeds the bytes to the computation.
#[verifier::external_body]
fn md5_consume(context: &mut md5::Context, part: &[u8])
    ensures
        md5_consumed(*final(context)) == md5_consumed(*old(context)) + part@,
{
    context.consume(part)
}

/// Calls `Context::compute`, which ends the computation and gives the
/// digest of all that was consumed.
#[verifier::external_body]
fn md5_finish(context: md5::Context) -> (digest: [u8; 16])
    ensures
        digest@ == md5_digest(md5_consumed(context)),
{
    context.compute().0
}

/// The checksum and the size of a file, computed from its contents piece
/// by piece.
pub struct Checksum {
    context: md5::Context,
    size: u64,
}

impl Checksum {
    /// The bytes that were fed so far, in order.
    pub closed spec fn fed(self) -> Seq<u8> {
        md5_consumed(self.context)
    }

    /// The number of bytes that were fed so far, as long as it fits; the
    /// largest number else.
    pub closed spec fn counted(self) -> u64 {
        self.size
    }

    /// Whether the count is the number of bytes that were fed, or stands at
    /// the largest number because more were fed.
    pub closed spec fn wf(self) -> bool {
        if md5_consumed(self.context).len() <= u64::MAX {
            self.size == md5_consumed(self.context).len()
        } else {
            self.size == u64::MAX
        }
    }

    /// A checksum of nothing.
    pub fn new() -> (c: Checksum)
        ensures
            c.wf(),
            c.fed() == Seq::<u8>::empty(),
            c.counted() == 0,
    {
        Checksum { context: md5_new(), size: 0 }
    }

    /// Feeds the next piece of the contents.
    pub fn update(&mut self, part: &[u8])
        requires
            old(self).wf(),
        ensures
            final(self).wf(),
            final(self).fed() == old(self).fed() + part@,
            final(self).counted() == if old(self).counted() + part@.len() <= u64::MAX {
                (old(self).counted() + part@.len()) as u64
            } else {
                u64::MAX
            },
    {
        md5_consume(&mut self.context, part);
        let n = part.len() as u64;
        self.size = if n <= u64::MAX - self.size {
            self.size + n
        } else {
            u64::MAX
        };
    }

    /// The checksum and the size of all that was fed.
    pub fn finish(self) -> (m: FileMetadata)
        requires
            self.wf(),
        ensures
            m.chksum@ == md5_digest(self.fed()),
            m.size == self.counted(),
    {
        FileMetadata { chksum: md5_finish(self.context), size: self.size }
    }
}

/// The path in the file system that a path of the application stands for.
pub fn get_path(path: &Path, config: &AppConfig) -> (r: String)
    ensures
        r@ == match path.base {
            BasePath::AppDataDir => joined(config.app_data_dir@, path.path@),
            BasePath::AppCacheDir => joined(config.app_cache_dir@, path.path@),
            BasePath::AbsolutePath => path.path@,
        },
{
    match path.base {
        BasePath::AppDataDir => join_paths(config.app_data_dir.as_str(), path.path.as_str()),
        BasePath::AppCacheDir => join_paths(config.app_cache_dir.as_str(), path.path.as_str()),
        BasePath::AbsolutePath => path.path.clone(),
    }
}

/// The checksum and the size of a file with the contents `contents`.
pub fn file_mdata(contents: &[u8]) -> (m: FileMetadata)
    ensures
        m.chksum@ == md5_digest(contents@),
        m.size == contents@.len(),
{
    let n = contents.len();
    let mut checksum = Checksum::new();
    checksum.update(contents);
    assert(n <= u64::MAX);
    assert(Seq::<u8>::empty() + contents@ == contents@);
    checksum.finish()
}

/// Tells whether a file is the one that is already known: `None` if it has
/// the checksum and size `data`, else what it has instead.
pub fn is_file_same(new_file: FileMetadata, data: &FileMetadata) -> (r: Option<FileMetadata>)
    ensures
        r == if new_file.same(*data) {
            None
        } else {
            Some(new_file)
        },
{
    if new_file.same_as(data) {
        None
    } else {
        Some(new_file)
    }
}

} // verus!
