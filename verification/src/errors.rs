use vstd::prelude::*;

verus! {

/// The failure taxonomy of the persistence subsystem.
///
/// `LockAcquisition` is reserved for deployments that guard a registry with
/// a lock; the registry service in this crate is passed by reference and
/// never raises it.  `Encode` is likewise reserved for snapshot codecs that
/// can fail; the reference codec is total.
#[derive(Clone, Copy, Debug, PartialEq, Eq, Structural)]
pub enum PersistenceError {
    /// The registry's guard could not be taken; fatal, never retried.
    LockAcquisition,
    /// The storage location is absent or could not be read.
    StorageRead,
    /// The payload could not be written at the storage location.
    StorageWrite,
    /// The storage path exists but is not a directory.
    NotADirectory,
    /// The key's scheme has no storage backend.
    UnsupportedLocator,
    /// The stored bytes do not decode to a snapshot.
    Decode,
    /// A snapshot could not be encoded.
    Encode,
}

} // verus!
