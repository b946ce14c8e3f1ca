use vstd::prelude::*;
use crate::bimap::BiKey;

verus! {

/// An owning reference to a running actor, as handed out by the runtime.
/// It is identified by the runtime-assigned actor id; whether the actor is
/// still alive is the runtime's knowledge, not the handle's.
#[derive(Clone, Copy, Debug, PartialEq, Eq, Structural)]
pub struct StrongHandle {
    pub id: u64,
}

/// A non-owning reference to an actor.  It does not keep the actor alive;
/// upgrading it back to a strong handle fails once the actor terminated.
/// The registry stores only this form, so it never prevents termination.
#[derive(Clone, Copy, Debug, PartialEq, Eq, Structural)]
pub struct WeakHandle {
    pub id: u64,
}

impl View for WeakHandle {
    type V = u64;

    open spec fn view(&self) -> u64 {
        self.id
    }
}

impl BiKey for WeakHandle {
    fn exact_eq(&self, other: &Self) -> (r: bool)
        ensures
            r == (self@ == other@),
    {
        self.id == other.id
    }

    fn dup(&self) -> (r: Self)
        ensures
            r == *self,
    {
        WeakHandle { id: self.id }
    }
}

impl StrongHandle {
    /// Drop ownership: the weak form of this handle.
    pub fn downgrade(&self) -> (w: WeakHandle)
        ensures
            w.id == self.id,
    {
        WeakHandle { id: self.id }
    }
}

} // verus!
