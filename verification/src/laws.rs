use vstd::prelude::*;
use crate::bimap::{distinct_sides, has_left, has_right, lemma_insert_membership, lemma_insert_wf,
    lemma_left_unique, maps_left, spec_insert};
use crate::handles::WeakHandle;
use crate::keys::PersistenceKey;

verus! {

/// Registering two distinct keys with two distinct handles leaves both
/// associations present and independently resolvable, and the registry
/// one-to-one.
pub proof fn lemma_register_independent(
    s: Seq<(PersistenceKey, WeakHandle)>,
    k1: PersistenceKey,
    w1: WeakHandle,
    k2: PersistenceKey,
    w2: WeakHandle,
)
    requires
        distinct_sides(s),
        k1@ != k2@,
        w1@ != w2@,
    ensures
        maps_left(spec_insert(spec_insert(s, k1, w1), k2, w2), k1@, w1@),
        maps_left(spec_insert(spec_insert(s, k1, w1), k2, w2), k2@, w2@),
        distinct_sides(spec_insert(spec_insert(s, k1, w1), k2, w2)),
{
    let s1 = spec_insert(s, k1, w1);
    lemma_insert_membership(s, k1, w1, k1@, w1@);
    lemma_insert_membership(s1, k2, w2, k1@, w1@);
    lemma_insert_membership(s1, k2, w2, k2@, w2@);
    lemma_insert_wf(s, k1, w1);
    lemma_insert_wf(s1, k2, w2);
}

/// Registering a key twice leaves it resolving to the second handle
/// only: the first handle's entry is evicted from both directions, so
/// its reverse lookup finds nothing while the second handle's finds the
/// key.
pub proof fn lemma_register_replaces(
    s: Seq<(PersistenceKey, WeakHandle)>,
    k: PersistenceKey,
    w1: WeakHandle,
    w2: WeakHandle,
)
    requires
        distinct_sides(s),
        w1@ != w2@,
    ensures
        maps_left(spec_insert(spec_insert(s, k, w1), k, w2), k@, w2@),
        forall|v: u64| maps_left(spec_insert(spec_insert(s, k, w1), k, w2), k@, v) ==> v == w2@,
        !has_right(spec_insert(spec_insert(s, k, w1), k, w2), w1@),
        has_right(spec_insert(spec_insert(s, k, w1), k, w2), w2@),
{
    let s1 = spec_insert(s, k, w1);
    let s2 = spec_insert(s1, k, w2);
    lemma_insert_membership(s1, k, w2, k@, w2@);
    assert(maps_left(s2, k@, w2@));
    assert(has_right(s2, w2@)) by {
        let i = choose|i: int| 0 <= i < s2.len() && (#[trigger] s2[i]).0@ == k@ && s2[i].1@ == w2@;
        assert((s2[i]).1@ == w2@);
    }
    assert forall|v: u64| maps_left(s2, k@, v) implies v == w2@ by {
        lemma_insert_membership(s1, k, w2, k@, v);
    }
    assert forall|i: int| 0 <= i < s2.len() implies (#[trigger] s2[i]).1@ != w1@ by {
        let p = s2[i];
        assert(maps_left(s2, p.0@, p.1@));
        lemma_insert_membership(s1, k, w2, p.0@, p.1@);
        if p.1@ == w1@ {
            assert(maps_left(s1, p.0@, w1@) && p.0@ != k@);
            lemma_insert_membership(s, k, w1, p.0@, w1@);
        }
    }
}

/// A registered entry whose actor has terminated yields nothing a lookup
/// could return, although the entry itself is still present: any handle
/// the key maps to is the dead one.
pub proof fn lemma_lookup_after_termination(
    s: Seq<(PersistenceKey, WeakHandle)>,
    k: (Seq<char>, Seq<char>),
    w: u64,
    live: Set<u64>,
)
    requires
        distinct_sides(s),
        maps_left(s, k, w),
        !live.contains(w),
    ensures
        has_left(s, k),
        forall|v: u64| maps_left(s, k, v) ==> !live.contains(v),
{
    assert(has_left(s, k)) by {
        let i = choose|i: int| 0 <= i < s.len() && (#[trigger] s[i]).0@ == k && s[i].1@ == w;
        assert((s[i]).0@ == k);
    }
    assert forall|v: u64| maps_left(s, k, v) implies !live.contains(v) by {
        lemma_left_unique(s, k, w, v);
    }
}

} // verus!
