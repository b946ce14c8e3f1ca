use vstd::prelude::*;
use vstd::string::StringExecFns;
use crate::bimap::BiKey;
use crate::errors::PersistenceError;
use crate::keys::{PersistenceKey, file_scheme};

verus! {

/// A storage backend: it resolves a persistence key to the payload bytes
/// stored there, and persists payload bytes at a key.
pub trait StorageBackend: Sized {
    /// The durable contents: the payload bytes stored per key.  Backends
    /// outside the verifier's reach may leave the default, which models
    /// nothing stored.
    open spec fn contents(&self) -> Map<(Seq<char>, Seq<char>), Seq<u8>> {
        Map::empty()
    }

    /// Read the payload stored at `key`.  Success yields exactly the
    /// stored bytes; an absent location always fails.
    fn read(&self, key: &PersistenceKey) -> (r: Result<Vec<u8>, PersistenceError>)
        ensures
            r matches Ok(b) ==> self.contents().contains_key(key@) && b@ == self.contents()[key@],
            r matches Err(e) ==> e == PersistenceError::StorageRead,
            !self.contents().contains_key(key@) ==> r is Err,
    ;

    /// Write `data` as the payload at `key`.  Success stores exactly
    /// those bytes; failure leaves the contents unchanged, never
    /// partially written.
    fn write(&mut self, key: &PersistenceKey, data: &Vec<u8>) -> (r: Result<
        (),
        PersistenceError,
    >)
        ensures
            r is Ok ==> final(self).contents() == old(self).contents().insert(key@, data@),
            r is Err ==> final(self).contents() == old(self).contents(),
            r matches Err(e) ==> (e == PersistenceError::StorageWrite || e
                == PersistenceError::NotADirectory),
    ;
}

/// The association that a history of writes leaves behind: the latest
/// write to each key wins.
pub open spec fn stored_map(s: Seq<(PersistenceKey, Vec<u8>)>) -> Map<
    (Seq<char>, Seq<char>),
    Seq<u8>,
>
    decreases s.len(),
{
    if s.len() == 0 {
        Map::empty()
    } else {
        stored_map(s.drop_last()).insert(s.last().0@, s.last().1@)
    }
}

/// An exact copy of a byte string.
fn copy_bytes(src: &Vec<u8>) -> (r: Vec<u8>)
    ensures
        r@ == src@,
{
    let n = src.len();
    let mut out: Vec<u8> = Vec::new();
    let mut i: usize = 0;
    while i < n
        invariant
            n == src.len(),
            i <= n,
            out@ == src@.subrange(0, i as int),
        decreases n - i,
    {
        out.push(src[i]);
        proof {
            assert(out@ =~= src@.subrange(0, i + 1 as int));
        }
        i = i + 1;
    }
    proof {
        assert(src@.subrange(0, n as int) =~= src@);
    }
    out
}

/// The in-memory reference backend: a write history whose latest entry
/// per key is the stored payload.  It backs tests and deployments that
/// need no durability.
pub struct MemStorage {
    entries: Vec<(PersistenceKey, Vec<u8>)>,
}

impl MemStorage {
    /// A backend holding nothing.
    pub fn new() -> (r: Self)
        ensures
            r.contents() == Map::<(Seq<char>, Seq<char>), Seq<u8>>::empty(),
    {
        MemStorage { entries: Vec::new() }
    }
}

/// The payload under `k` is the one of the latest entry for `k`.
proof fn lemma_stored_lookup(s: Seq<(PersistenceKey, Vec<u8>)>, i: int)
    requires
        0 <= i < s.len(),
        forall|j: int| i < j < s.len() ==> (#[trigger] s[j]).0@ != s[i].0@,
    ensures
        stored_map(s).contains_key(s[i].0@),
        stored_map(s)[s[i].0@] == s[i].1@,
    decreases s.len(),
{
    if i == s.len() - 1 {
    } else {
        let rest = s.drop_last();
        assert(forall|j: int| i < j < rest.len() ==> (#[trigger] rest[j]).0@ != rest[i].0@);
        lemma_stored_lookup(rest, i);
        assert(s.last().0@ != s[i].0@);
    }
}

/// A key no entry carries is absent from the stored association.
proof fn lemma_stored_absent(s: Seq<(PersistenceKey, Vec<u8>)>, k: (Seq<char>, Seq<char>))
    requires
        forall|j: int| 0 <= j < s.len() ==> (#[trigger] s[j]).0@ != k,
    ensures
        !stored_map(s).contains_key(k),
    decreases s.len(),
{
    if s.len() > 0 {
        let rest = s.drop_last();
        assert(forall|j: int| 0 <= j < rest.len() ==> (#[trigger] rest[j]).0@ != k);
        lemma_stored_absent(rest, k);
    }
}

impl StorageBackend for MemStorage {
    closed spec fn contents(&self) -> Map<(Seq<char>, Seq<char>), Seq<u8>> {
        stored_map(self.entries@)
    }

    fn read(&self, key: &PersistenceKey) -> (r: Result<Vec<u8>, PersistenceError>) {
        let ghost s0 = self.entries@;
        let mut i: usize = self.entries.len();
        while i > 0
            invariant
                i <= self.entries.len(),
                s0 == self.entries@,
                forall|j: int| i <= j < s0.len() ==> (#[trigger] s0[j]).0@ != key@,
            decreases i,
        {
            i = i - 1;
            let hit = self.entries[i].0.exact_eq(key);
            if hit {
                proof {
                    lemma_stored_lookup(s0, i as int);
                }
                return Ok(copy_bytes(&self.entries[i].1));
            }
        }
        proof {
            lemma_stored_absent(s0, key@);
        }
        Err(PersistenceError::StorageRead)
    }

    fn write(&mut self, key: &PersistenceKey, data: &Vec<u8>) -> (r: Result<
        (),
        PersistenceError,
    >) {
        let ghost s0 = self.entries@;
        let entry = (key.dup(), copy_bytes(data));
        self.entries.push(entry);
        proof {
            assert(self.entries@.drop_last() =~= s0);
        }
        Ok(())
    }
}

/// What a probe of a key's path found on the storage medium.
#[derive(Clone, Copy, Debug, PartialEq, Eq, Structural)]
pub enum PathState {
    /// Nothing exists at the path.
    Missing,
    /// The path is a directory.
    Directory,
    /// The path exists but is not a directory.
    OtherFile,
}

/// The actions the file backend must take to persist a payload.
#[derive(Debug)]
pub struct WritePlan {
    /// The directory tree at the key's path must be created first.
    pub create_directory: bool,
    /// The file the payload goes to, inside the key's directory.
    pub payload_file: String,
}

/// The fixed name of the payload file inside a key's directory.
pub open spec fn payload_name() -> Seq<char> {
    "/index.bin"@
}

/// The payload file of a key of the `file` scheme.
pub fn payload_path(key: &PersistenceKey) -> (r: String)
    ensures
        r@ == key.path@ + payload_name(),
{
    key.path.clone().concat("/index.bin")
}

/// Decide how to read from the file backend: a key of another scheme has
/// no backend; a missing path has no payload; otherwise the payload file
/// inside the key's directory is read.
pub fn plan_read(key: &PersistenceKey, probe: &PathState) -> (r: Result<String, PersistenceError>)
    ensures
        match r {
            Ok(p) => key.scheme@ == file_scheme() && !(probe is Missing) && p@ == key.path@
                + payload_name(),
            Err(e) => (e == PersistenceError::UnsupportedLocator && key.scheme@ != file_scheme())
                || (e == PersistenceError::StorageRead && key.scheme@ == file_scheme()
                && probe is Missing),
        },
        key.scheme@ == file_scheme() && !(probe is Missing) ==> r is Ok,
{
    if !key.is_file_scheme() {
        return Err(PersistenceError::UnsupportedLocator);
    }
    match probe {
        PathState::Missing => Err(PersistenceError::StorageRead),
        _ => Ok(payload_path(key)),
    }
}

/// Decide how to write to the file backend: a key of another scheme has
/// no backend; a path that exists as a plain file fails before anything
/// is written; otherwise the payload file is written, after creating the
/// directory where it was missing.
pub fn plan_write(key: &PersistenceKey, probe: &PathState) -> (r: Result<
    WritePlan,
    PersistenceError,
>)
    ensures
        match r {
            Ok(plan) => key.scheme@ == file_scheme() && !(probe is OtherFile)
                && plan.create_directory == (probe is Missing) && plan.payload_file@ == key.path@
                + payload_name(),
            Err(e) => (e == PersistenceError::UnsupportedLocator && key.scheme@ != file_scheme())
                || (e == PersistenceError::NotADirectory && key.scheme@ == file_scheme()
                && probe is OtherFile),
        },
        key.scheme@ == file_scheme() && !(probe is OtherFile) ==> r is Ok,
{
    if !key.is_file_scheme() {
        return Err(PersistenceError::UnsupportedLocator);
    }
    match probe {
        PathState::OtherFile => Err(PersistenceError::NotADirectory),
        PathState::Missing => Ok(
            WritePlan { create_directory: true, payload_file: payload_path(key) },
        ),
        PathState::Directory => Ok(
            WritePlan { create_directory: false, payload_file: payload_path(key) },
        ),
    }
}

} // verus!
