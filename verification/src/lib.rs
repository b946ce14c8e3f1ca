//! Persistent actor identity and recovery.
//!
//! An actor can be tied to a durable storage location through a
//! [`keys::PersistenceKey`].  A process-wide [`registry::Registry`] keeps a
//! bidirectional, one-to-one association between keys and weak actor
//! handles, and the recovery functions decide, for a given key, whether to
//! reuse a live actor, reconstruct one from a stored snapshot, or create a
//! fresh one.

pub mod bimap;
pub mod counter;
pub mod errors;
pub mod handles;
pub mod keys;
pub mod laws;
pub mod recovery;
pub mod registry;
pub mod runtime;
pub mod snapshot;
pub mod storage;
