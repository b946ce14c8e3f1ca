use vstd::prelude::*;
use crate::bimap::{BiKey, has_left, has_right, lemma_left_unique, lemma_right_unique, maps_left,
    spec_insert};
use crate::errors::PersistenceError;
use crate::handles::{StrongHandle, WeakHandle};
use crate::keys::{PersistenceKey, file_scheme};
use crate::registry::Registry;
use crate::runtime::ActorRuntime;
use crate::snapshot::PersistentActor;
use crate::storage::StorageBackend;

verus! {

/// Unconditionally construct a new actor from `args` and register it
/// under `key`, evicting whatever entry shared the key or the handle.
/// Spawning never fails and collision is resolved by eviction, so this
/// never returns an error.
pub fn spawn_persistent<A: PersistentActor, R: ActorRuntime<A>>(
    rt: &mut R,
    reg: &mut Registry,
    key: PersistenceKey,
    args: A::Args,
) -> (r: Result<StrongHandle, PersistenceError>)
    requires
        old(reg).wf(),
    ensures
        final(reg).wf(),
        r is Ok,
        r matches Ok(h) ==> ({
            &&& final(rt).live() == old(rt).live().insert(h.id)
            &&& final(rt).log() == old(rt).log().push((h.id, args))
            &&& final(reg)@ == spec_insert(old(reg)@, key, WeakHandle { id: h.id })
        }),
{
    let h = rt.spawn(args);
    match reg.register_persistent(key, &h) {
        Ok(()) => Ok(h),
        Err(e) => Err(e),
    }
}

/// Bring the actor of `key` back: reuse it where it is still alive, else
/// read its snapshot from storage, decode it, and spawn a new actor from
/// the decoded arguments.  A strict linear pipeline: each stage's
/// failure short-circuits to the caller, and nothing is registered or
/// spawned unless every stage before it succeeded.
pub fn respawn_persistent<A: PersistentActor, R: ActorRuntime<A>, S: StorageBackend>(
    rt: &mut R,
    st: &S,
    reg: &mut Registry,
    key: PersistenceKey,
) -> (r: Result<StrongHandle, PersistenceError>)
    requires
        old(reg).wf(),
    ensures
        final(reg).wf(),
        ({
            let hit = exists|w: u64| maps_left(old(reg)@, key@, w) && old(rt).live().contains(w);
            &&& (hit ==> r is Ok)
            &&& (r matches Ok(h) ==> {
                ||| (hit && maps_left(old(reg)@, key@, h.id) && old(rt).live().contains(h.id)
                    && final(rt).log() == old(rt).log() && final(rt).live() == old(rt).live()
                    && final(reg)@ == old(reg)@)
                ||| (!hit && key.scheme@ == file_scheme() && st.contents().contains_key(key@) && (
                A::decoded(st.contents()[key@]) matches Some(snap) && final(rt).log() == old(rt).log().push((h.id, A::args_of(snap)))) && final(rt).live() == old(rt).live().insert(h.id) && final(reg)@ == spec_insert(
                    old(reg)@,
                    key,
                    WeakHandle { id: h.id },
                ))
            })
            &&& (r matches Err(e) ==> {
                &&& !hit
                &&& final(rt).log() == old(rt).log()
                &&& final(rt).live() == old(rt).live()
                &&& final(reg)@ == old(reg)@
                &&& (e == PersistenceError::UnsupportedLocator <==> key.scheme@ != file_scheme())
                &&& (e == PersistenceError::Decode ==> st.contents().contains_key(key@)
                    && A::decoded(st.contents()[key@]) is None)
                &&& (e == PersistenceError::UnsupportedLocator || e
                    == PersistenceError::StorageRead || e == PersistenceError::Decode)
            })
            &&& (!hit && key.scheme@ == file_scheme() && !st.contents().contains_key(key@) ==> r
                == Err::<StrongHandle, PersistenceError>(PersistenceError::StorageRead))
        }),
{
    let looked = reg.lookup_persistent::<A, R>(rt, &key);
    match looked {
        Some(h) => {
            return Ok(h);
        },
        None => {
            proof {
                if exists|w: u64| maps_left(reg@, key@, w) && rt.live().contains(w) {
                    let w = choose|w: u64|
                        maps_left(reg@, key@, w) && rt.live().contains(w);
                    assert(has_left(reg@, key@)) by {
                        let i = choose|i: int|
                            0 <= i < reg@.len() && (#[trigger] reg@[i]).0@ == key@ && reg@[i].1@
                                == w;
                        assert((reg@[i]).0@ == key@);
                    }
                    let w2 = choose|w2: u64|
                        maps_left(reg@, key@, w2) && !rt.live().contains(w2);
                    lemma_left_unique(reg@, key@, w, w2);
                }
            }
        },
    }
    if !key.is_file_scheme() {
        return Err(PersistenceError::UnsupportedLocator);
    }
    let data = match st.read(&key) {
        Ok(d) => d,
        Err(e) => {
            return Err(e);
        },
    };
    let snap = match A::decode_snapshot(data.as_slice()) {
        Some(s) => s,
        None => {
            return Err(PersistenceError::Decode);
        },
    };
    let args = A::into_args(snap);
    spawn_persistent::<A, R>(rt, reg, key, args)
}

/// Bring the actor of `key` back, falling back to a fresh actor built
/// from the caller's `args` where recovery fails for any reason.  This
/// never returns an error: it degrades from "resume prior state" to
/// "start fresh" without surfacing one.
pub fn try_respawn_persistent<A: PersistentActor, R: ActorRuntime<A>, S: StorageBackend>(
    rt: &mut R,
    st: &S,
    reg: &mut Registry,
    key: PersistenceKey,
    args: A::Args,
) -> (r: Result<StrongHandle, PersistenceError>)
    requires
        old(reg).wf(),
    ensures
        final(reg).wf(),
        r is Ok,
        r matches Ok(h) ==> ({
            // reuse: a live registered actor, nothing spawned
            ||| (maps_left(old(reg)@, key@, h.id) && old(rt).live().contains(h.id) && final(rt).log() == old(rt).log() && final(reg)@ == old(reg)@)
            // recovered: the stored snapshot decoded and was spawned
            ||| (st.contents().contains_key(key@) && (A::decoded(
                st.contents()[key@],
            ) matches Some(snap) && final(rt).log() == old(rt).log().push((h.id, A::args_of(snap))))
                && final(reg)@ == spec_insert(old(reg)@, key, WeakHandle { id: h.id }))
            // fresh: fell back to the caller's arguments
            ||| (final(rt).log() == old(rt).log().push((h.id, args)) && final(reg)@ == spec_insert(
                old(reg)@,
                key,
                WeakHandle { id: h.id },
            ))
        }),
        // where a live actor is registered, reuse is owed: no storage work
        // and no spawn
        (exists|w: u64| maps_left(old(reg)@, key@, w) && old(rt).live().contains(w)) ==> (
        r matches Ok(h) && maps_left(old(reg)@, key@, h.id) && old(rt).live().contains(h.id)
            && final(rt).log() == old(rt).log() && final(reg)@ == old(reg)@),
        // where no live actor is registered and no decodable snapshot is
        // stored, the fresh path is owed
        !(exists|w: u64| maps_left(old(reg)@, key@, w) && old(rt).live().contains(w)) && (
        key.scheme@ != file_scheme() || !st.contents().contains_key(key@) || A::decoded(
            st.contents()[key@],
        ) is None) ==> (r matches Ok(h) && final(rt).log() == old(rt).log().push((h.id, args))
            && final(reg)@ == spec_insert(old(reg)@, key, WeakHandle { id: h.id })),
{
    let retry = key.dup();
    match respawn_persistent::<A, R, S>(rt, st, reg, key) {
        Ok(h) => Ok(h),
        Err(e) => spawn_persistent::<A, R>(rt, reg, retry, args),
    }
}

/// Persist the actor's current state: where the actor has no registry
/// entry it is not persistent, and this is a no-op success with no
/// storage side effect; otherwise its snapshot is encoded and stored at
/// its key, whole or not at all.
pub fn save_snapshot<A: PersistentActor, S: StorageBackend>(
    state: &A,
    reg: &Registry,
    st: &mut S,
    handle: &StrongHandle,
) -> (r: Result<(), PersistenceError>)
    requires
        reg.wf(),
    ensures
        !has_right(reg@, handle.id) ==> (r is Ok && final(st).contents() == old(st).contents()),
        forall|kv: (Seq<char>, Seq<char>)| maps_left(reg@, kv, handle.id) ==> {
            ||| (kv.0 != file_scheme() && r == Err::<(), PersistenceError>(
                PersistenceError::UnsupportedLocator,
            ) && final(st).contents() == old(st).contents())
            ||| (kv.0 == file_scheme() && r is Ok && final(st).contents() == old(st).contents().insert(kv, A::encoded(state.to_snapshot())))
            ||| (kv.0 == file_scheme() && r is Err && final(st).contents() == old(st).contents())
        },
        r matches Err(e) ==> (e == PersistenceError::UnsupportedLocator || e
            == PersistenceError::StorageWrite || e == PersistenceError::NotADirectory),
{
    let key = match reg.persistence_key(handle) {
        Some(k) => k,
        None => {
            proof {
                assert forall|kv: (Seq<char>, Seq<char>)|
                    maps_left(reg@, kv, handle.id) implies false by {
                    let i = choose|i: int|
                        0 <= i < reg@.len() && (#[trigger] reg@[i]).0@ == kv && reg@[i].1@
                            == handle.id;
                    assert((reg@[i]).1@ == handle.id);
                    assert(has_right(reg@, handle.id));
                }
            }
            return Ok(());
        },
    };
    proof {
        assert forall|kv: (Seq<char>, Seq<char>)|
            maps_left(reg@, kv, handle.id) implies kv == key@ by {
            lemma_right_unique(reg@, handle.id, kv, key@);
        }
    }
    let snap = state.snapshot();
    let bytes = A::encode_snapshot(&snap);
    if !key.is_file_scheme() {
        return Err(PersistenceError::UnsupportedLocator);
    }
    match st.write(&key, &bytes) {
        Ok(()) => Ok(()),
        Err(e) => Err(e),
    }
}

} // verus!
