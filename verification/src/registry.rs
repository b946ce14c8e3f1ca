use vstd::prelude::*;
use crate::bimap::{BiKey, BiMap, distinct_sides, has_left, has_right, maps_left, spec_insert};
use crate::errors::PersistenceError;
use crate::handles::{StrongHandle, WeakHandle};
use crate::keys::PersistenceKey;
use crate::runtime::ActorRuntime;
use crate::snapshot::PersistentActor;

verus! {

/// The registry service for one persistent actor type: the process-wide,
/// one-to-one association between persistence keys and weak actor
/// handles.  It stores only weak handles, so it never keeps an actor
/// alive, and entries of dead actors simply fail to upgrade on lookup.
pub struct Registry {
    map: BiMap<PersistenceKey, WeakHandle>,
}

impl View for Registry {
    type V = Seq<(PersistenceKey, WeakHandle)>;

    closed spec fn view(&self) -> Seq<(PersistenceKey, WeakHandle)> {
        self.map@
    }
}

impl Registry {
    /// The one-to-one invariant: at most one entry per key and at most
    /// one entry per handle.
    pub open spec fn wf(self) -> bool {
        distinct_sides(self@)
    }

    /// An empty registry.
    pub fn new() -> (r: Self)
        ensures
            r@ == Seq::<(PersistenceKey, WeakHandle)>::empty(),
            r.wf(),
    {
        Registry { map: BiMap::new() }
    }

    /// Associate `key` with the weak form of `handle`, evicting whatever
    /// entry shared the key or the handle.  Collision is resolved by
    /// eviction, never reported as an error.
    pub fn register_persistent(&mut self, key: PersistenceKey, handle: &StrongHandle) -> (r:
        Result<(), PersistenceError>)
        requires
            old(self).wf(),
        ensures
            final(self).wf(),
            r is Ok,
            final(self)@ == spec_insert(old(self)@, key, WeakHandle { id: handle.id }),
    {
        let weak = handle.downgrade();
        let _evicted = self.map.insert(key, weak);
        Ok(())
    }

    /// The persistence key of `handle`'s actor, where it has one.
    pub fn persistence_key(&self, handle: &StrongHandle) -> (r: Option<PersistenceKey>)
        ensures
            match r {
                Some(k) => maps_left(self@, k@, handle.id),
                None => !has_right(self@, handle.id),
            },
    {
        let weak = handle.downgrade();
        match self.map.get_by_right(&weak) {
            Some(k) => Some(k.dup()),
            None => None,
        }
    }

    /// The weak handle registered under `key`, if any, regardless of
    /// whether its actor is still alive.
    pub fn lookup_weak(&self, key: &PersistenceKey) -> (r: Option<WeakHandle>)
        ensures
            match r {
                Some(w) => maps_left(self@, key@, w@),
                None => !has_left(self@, key@),
            },
    {
        match self.map.get_by_left(key) {
            Some(w) => Some(*w),
            None => None,
        }
    }

    /// A strong handle for the actor registered under `key`.  It is
    /// `None` both where no entry exists and where the entry's actor has
    /// terminated: callers cannot tell the two apart and fall through to
    /// recovery either way.
    pub fn lookup_persistent<A: PersistentActor, R: ActorRuntime<A>>(
        &self,
        rt: &R,
        key: &PersistenceKey,
    ) -> (r: Option<StrongHandle>)
        ensures
            match r {
                Some(h) => maps_left(self@, key@, h.id) && rt.live().contains(h.id),
                None => !has_left(self@, key@) || (exists|w: u64|
                    maps_left(self@, key@, w) && !rt.live().contains(w)),
            },
    {
        match self.lookup_weak(key) {
            Some(w) => rt.upgrade(&w),
            None => None,
        }
    }
}

} // verus!
