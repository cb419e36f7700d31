//! A store kept in a directory tree. An object lives at
//! `root/xx/yy/rest`, where `xx`, `yy` and `rest` are the first two
//! characters, the next two and the remainder of its identifier.
//!
//! The decisions of storing and retrieving are made here; the reads and
//! writes of files are left to the caller, who hands back what it read.
use vstd::prelude::*;

use std::path::PathBuf;

use crate::error::CasError;
use crate::identifier::{compute_identifier, identifier_of};

verus! {

/// `std::path::PathBuf`, carried through as an opaque value.
#[verifier::external_type_specification]
#[verifier::external_body]
pub struct ExPathBuf(std::path::PathBuf);

/// The path that `PathBuf::join` makes of a base path and one segment.
pub uninterp spec fn path_join(base: PathBuf, segment: Seq<char>) -> PathBuf;

/// Relies on `Path::join`: the base path with `segment` pushed onto it.
#[verifier::external_body]
fn join_segment(base: &PathBuf, segment: &str) -> (r: PathBuf)
    ensures
        r == path_join(*base, segment@),
{
    base.join(segment)
}

/// Fewest characters an identifier needs to have a location: two for each
/// directory level and at least one for the file name.
pub const MIN_ID_LEN: usize = 5;

/// The first directory level of an identifier's location.
pub open spec fn shard_first(id: Seq<char>) -> Seq<char> {
    id.subrange(0, 2)
}

/// The second directory level of an identifier's location.
pub open spec fn shard_second(id: Seq<char>) -> Seq<char> {
    id.subrange(2, 4)
}

/// The file name of an identifier's location.
pub open spec fn shard_rest(id: Seq<char>) -> Seq<char> {
    id.subrange(4, id.len() as int)
}

/// Where the object named `id` lives under `root`.
pub open spec fn object_path(root: PathBuf, id: Seq<char>) -> PathBuf {
    path_join(path_join(path_join(root, shard_first(id)), shard_second(id)), shard_rest(id))
}

/// What reading an object's file gave.
#[derive(Debug)]
pub enum ReadOutcome {
    /// The file's whole contents.
    Found(Vec<u8>),
    /// No file is there.
    Missing,
    /// Reading failed for another reason.
    Failed(std::io::Error),
}

/// The answer owed to a request for `id` when the file at its location held
/// `contents` (`None`: no such file).
pub open spec fn verdict(id: Seq<char>, contents: Option<Seq<u8>>) -> Result<Seq<u8>, CasError> {
    match contents {
        None => Err(CasError::NotFound),
        Some(c) => if identifier_of(c) == id {
            Ok(c)
        } else {
            Err(CasError::IntegrityMismatch)
        },
    }
}

/// What a request for `id` yields from a directory tree whose files are
/// `files` (path to contents), as `retrieve_path` and `check_read` decide it.
pub open spec fn retrieve_from(root: PathBuf, files: Map<PathBuf, Seq<u8>>, id: Seq<char>) -> Result<
    Seq<u8>,
    CasError,
> {
    if id.len() < MIN_ID_LEN {
        Err(CasError::NotFound)
    } else {
        let p = object_path(root, id);
        verdict(
            id,
            if files.contains_key(p) {
                Some(files[p])
            } else {
                None
            },
        )
    }
}

/// The files after `payload` is written where `plan_store` puts it.
pub open spec fn store_into(root: PathBuf, files: Map<PathBuf, Seq<u8>>, payload: Seq<u8>) -> Map<
    PathBuf,
    Seq<u8>,
> {
    files.insert(object_path(root, identifier_of(payload)), payload)
}

/// Where and under which identifier a payload is to be written.
pub struct StorePlan {
    pub id: String,
    pub path: PathBuf,
}

/// A content-addressable store rooted at a directory.
pub struct FileSystemCAS {
    root_dir: PathBuf,
}

impl FileSystemCAS {
    /// The directory under which all objects live.
    pub closed spec fn root(&self) -> PathBuf {
        self.root_dir
    }

    /// Binds a store to `root_dir`, which need not exist yet.
    pub fn new(root_dir: PathBuf) -> (r: Self)
        ensures
            r.root() == root_dir,
    {
        FileSystemCAS { root_dir }
    }

    /// The location of the object named `id`: `root/xx/yy/rest`.
    pub fn path_from_id(&self, id: &str) -> (r: PathBuf)
        requires
            id@.len() >= MIN_ID_LEN,
        ensures
            r == object_path(self.root(), id@),
    {
        let len = id.unicode_len();
        let xx = id.substring_char(0, 2);
        let yy = id.substring_char(2, 4);
        let rest = id.substring_char(4, len);
        let first = join_segment(&self.root_dir, xx);
        let second = join_segment(&first, yy);
        join_segment(&second, rest)
    }

    /// The identifier of `data` and the path its bytes are to be written to.
    pub fn plan_store(&self, data: &[u8]) -> (r: StorePlan)
        ensures
            r.id@ == identifier_of(data@),
            r.path == object_path(self.root(), identifier_of(data@)),
    {
        let id = compute_identifier(data);
        let path = self.path_from_id(id.as_str());
        StorePlan { id, path }
    }

    /// The path to read for `id`, or `None` where `id` is too short to have
    /// a location (nothing can be stored under it).
    pub fn retrieve_path(&self, id: &str) -> (r: Option<PathBuf>)
        ensures
            id@.len() >= MIN_ID_LEN ==> r == Some(object_path(self.root(), id@)),
            id@.len() < MIN_ID_LEN ==> r is None,
    {
        if id.unicode_len() >= MIN_ID_LEN {
            Some(self.path_from_id(id))
        } else {
            None
        }
    }
}

/// Tells whether two strings hold the same characters.
pub fn same_text(a: &str, b: &str) -> (r: bool)
    ensures
        r == (a@ == b@),
{
    let x = a.as_bytes();
    let y = b.as_bytes();
    proof {
        vstd::utf8::encode_utf8_decode_utf8(a@);
        vstd::utf8::encode_utf8_decode_utf8(b@);
    }
    if x.len() != y.len() {
        return false;
    }
    let n = x.len();
    let mut i: usize = 0;
    while i < n
        invariant
            n == x@.len(),
            n == y@.len(),
            x@ == vstd::utf8::encode_utf8(a@),
            y@ == vstd::utf8::encode_utf8(b@),
            i <= n,
            forall|k: int| 0 <= k < i ==> x@[k] == y@[k],
        decreases n - i,
    {
        if x[i] != y[i] {
            return false;
        }
        i = i + 1;
    }
    assert(x@ =~= y@);
    true
}

/// Decides what a request for `id` yields, given what reading its file gave:
/// the bytes if they hash to `id`, else the failure that fits.
pub fn check_read(id: &str, outcome: ReadOutcome) -> (r: Result<Vec<u8>, CasError>)
    ensures
        match outcome {
            ReadOutcome::Found(b) => match verdict(id@, Some(b@)) {
                Ok(_) => r == Ok::<Vec<u8>, CasError>(b),
                Err(e) => r == Err::<Vec<u8>, CasError>(e),
            },
            ReadOutcome::Missing => r == Err::<Vec<u8>, CasError>(CasError::NotFound),
            ReadOutcome::Failed(e) => r == Err::<Vec<u8>, CasError>(CasError::Io(e)),
        },
{
    match outcome {
        ReadOutcome::Found(bytes) => {
            let actual = compute_identifier(bytes.as_slice());
            if same_text(actual.as_str(), id) {
                Ok(bytes)
            } else {
                Err(CasError::IntegrityMismatch)
            }
        },
        ReadOutcome::Missing => Err(CasError::NotFound),
        ReadOutcome::Failed(e) => Err(CasError::Io(e)),
    }
}

} // verus!
