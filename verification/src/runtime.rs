use vstd::prelude::*;
use crate::handles::{StrongHandle, WeakHandle};
use crate::snapshot::PersistentActor;

verus! {

/// The capabilities the recovery logic needs from an actor runtime for
/// one persistent actor type `A`: constructing an actor never fails, and
/// a weak handle upgrades exactly while its actor is alive.
pub trait ActorRuntime<A: PersistentActor>: Sized {
    /// The ids of the actors currently alive.  Runtimes outside the
    /// verifier's reach may leave the default, which models no actor
    /// alive.
    open spec fn live(&self) -> Set<u64> {
        Set::empty()
    }

    /// The spawn history: each spawned actor's id with the construction
    /// arguments it was built from.  Runtimes outside the verifier's
    /// reach may leave the default, which models an empty history.
    open spec fn log(&self) -> Seq<(u64, A::Args)> {
        Seq::empty()
    }

    /// Construct and start an actor from `args`; never fails.
    fn spawn(&mut self, args: A::Args) -> (h: StrongHandle)
        ensures
            final(self).live() == old(self).live().insert(h.id),
            final(self).log() == old(self).log().push((h.id, args)),
    ;

    /// Attempt to recover a strong handle from a weak one.  It succeeds
    /// exactly while the actor is alive; there is no partial state.
    fn upgrade(&self, w: &WeakHandle) -> (r: Option<StrongHandle>)
        ensures
            match r {
                Some(h) => h.id == w.id && self.live().contains(w.id),
                None => !self.live().contains(w.id),
            },
    ;
}

} // verus!
