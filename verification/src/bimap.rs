use vstd::prelude::*;

verus! {

/// An element that can sit on either side of a [`BiMap`]: it can decide
/// equality of abstract values and produce an equal duplicate.
pub trait BiKey: View + Sized {
    /// Decide whether two elements have the same abstract value.
    fn exact_eq(&self, other: &Self) -> (r: bool)
        ensures
            r == (self@ == other@),
    ;

    /// An equal duplicate of this element.
    fn dup(&self) -> (r: Self)
        ensures
            r == *self,
    ;
}

/// The pair at some index of `s` has left value `k` and right value `v`.
pub open spec fn maps_left<K: View, V: View>(s: Seq<(K, V)>, k: K::V, v: V::V) -> bool {
    exists|i: int| 0 <= i < s.len() && (#[trigger] s[i]).0@ == k && s[i].1@ == v
}

/// Some pair of `s` has left value `k`.
pub open spec fn has_left<K: View, V: View>(s: Seq<(K, V)>, k: K::V) -> bool {
    exists|i: int| 0 <= i < s.len() && (#[trigger] s[i]).0@ == k
}

/// Some pair of `s` has right value `v`.
pub open spec fn has_right<K: View, V: View>(s: Seq<(K, V)>, v: V::V) -> bool {
    exists|i: int| 0 <= i < s.len() && (#[trigger] s[i]).1@ == v
}

/// No two pairs of `s` share a left value, and none share a right value:
/// the association is one-to-one.
pub open spec fn distinct_sides<K: View, V: View>(s: Seq<(K, V)>) -> bool {
    forall|i: int, j: int|
        0 <= i < j < s.len() ==> (#[trigger] s[i]).0@ != (#[trigger] s[j]).0@ && s[i].1@ != s[j].1@
}

/// The pairs after inserting `(k, v)`: every pair that shares either side
/// with the new one is evicted, and the new pair goes at the end.
pub open spec fn spec_insert<K: View, V: View>(s: Seq<(K, V)>, k: K, v: V) -> Seq<(K, V)> {
    s.filter(|p: (K, V)| p.0@ != k@ && p.1@ != v@).push((k, v))
}

/// A bidirectional one-to-one associative container: each left value is
/// paired with at most one right value and conversely.  Inserting a pair
/// evicts whatever previous pair shared either side with it.
pub struct BiMap<K, V> {
    pairs: Vec<(K, V)>,
}

impl<K, V> View for BiMap<K, V> {
    type V = Seq<(K, V)>;

    closed spec fn view(&self) -> Seq<(K, V)> {
        self.pairs@
    }
}

impl<K: BiKey, V: BiKey> BiMap<K, V> {
    /// The one-to-one invariant of the container.
    pub open spec fn wf(self) -> bool {
        distinct_sides(self@)
    }

    /// An empty map.
    pub fn new() -> (r: Self)
        ensures
            r@ == Seq::<(K, V)>::empty(),
            r.wf(),
    {
        BiMap { pairs: Vec::new() }
    }

    /// The number of associations held.
    pub fn len(&self) -> (n: usize)
        ensures
            n == self@.len(),
    {
        self.pairs.len()
    }

    /// Forward lookup: the right value paired with `k`, if any.
    pub fn get_by_left(&self, k: &K) -> (r: Option<&V>)
        ensures
            match r {
                Some(v) => maps_left(self@, k@, v@),
                None => !has_left(self@, k@),
            },
    {
        let n = self.pairs.len();
        let mut i: usize = 0;
        while i < n
            invariant
                n == self.pairs.len(),
                i <= n,
                forall|j: int| 0 <= j < i ==> (#[trigger] self.pairs@[j]).0@ != k@,
            decreases n - i,
        {
            if self.pairs[i].0.exact_eq(k) {
                return Some(&self.pairs[i].1);
            }
            i = i + 1;
        }
        None
    }

    /// Reverse lookup: the left value paired with `v`, if any.
    pub fn get_by_right(&self, v: &V) -> (r: Option<&K>)
        ensures
            match r {
                Some(k) => maps_left(self@, k@, v@),
                None => !has_right(self@, v@),
            },
    {
        let n = self.pairs.len();
        let mut i: usize = 0;
        while i < n
            invariant
                n == self.pairs.len(),
                i <= n,
                forall|j: int| 0 <= j < i ==> (#[trigger] self.pairs@[j]).1@ != v@,
            decreases n - i,
        {
            if self.pairs[i].1.exact_eq(v) {
                return Some(&self.pairs[i].0);
            }
            i = i + 1;
        }
        None
    }

    /// Insert the pair `(k, v)`, evicting and returning any existing pair
    /// that shared either `k` or `v`.  Where a pair shared `k` and another
    /// shared `v`, both are evicted and the one sharing `k` is returned.
    pub fn insert(&mut self, k: K, v: V) -> (evicted: Option<(K, V)>)
        requires
            old(self).wf(),
        ensures
            final(self)@ == spec_insert(old(self)@, k, v),
            final(self).wf(),
            match evicted {
                Some(p) => (p.0@ == k@ || p.1@ == v@) && exists|i: int|
                    0 <= i < old(self)@.len() && old(self)@[i] == p,
                None => !has_left(old(self)@, k@) && !has_right(old(self)@, v@),
            },
            has_left(old(self)@, k@) ==> (evicted matches Some(p) && p.0@ == k@),
            !has_left(old(self)@, k@) && has_right(old(self)@, v@) ==> (evicted matches Some(p)
                && p.1@ == v@),
    {
        let ghost orig = self.pairs@;
        let ghost pred = |p: (K, V)| p.0@ != k@ && p.1@ != v@;
        let mut kept: Vec<(K, V)> = Vec::new();
        let mut evicted_left: Option<(K, V)> = None;
        let mut evicted_right: Option<(K, V)> = None;
        let n = self.pairs.len();
        let mut i: usize = 0;
        while i < n
            invariant
                n == self.pairs.len(),
                orig == self.pairs@,
                distinct_sides(orig),
                i <= n,
                kept@ == orig.subrange(0, i as int).filter(pred),
                pred == (|p: (K, V)| p.0@ != k@ && p.1@ != v@),
                match evicted_left {
                    Some(p) => p.0@ == k@ && exists|j: int|
                        0 <= j < i && #[trigger] orig[j] == p,
                    None => forall|j: int| 0 <= j < i ==> (#[trigger] orig[j]).0@ != k@,
                },
                match evicted_right {
                    Some(p) => p.1@ == v@ && p.0@ != k@ && exists|j: int|
                        0 <= j < i && #[trigger] orig[j] == p,
                    None => forall|j: int|
                        0 <= j < i ==> ((#[trigger] orig[j]).1@ != v@ || orig[j].0@ == k@),
                },
            decreases n - i,
        {
            let p = &self.pairs[i];
            if p.0.exact_eq(&k) {
                evicted_left = Some((p.0.dup(), p.1.dup()));
            } else if p.1.exact_eq(&v) {
                evicted_right = Some((p.0.dup(), p.1.dup()));
            } else {
                kept.push((p.0.dup(), p.1.dup()));
            }
            proof {
                reveal(Seq::filter);
                let sub = orig.subrange(0, i as int);
                let sub1 = orig.subrange(0, i + 1 as int);
                assert(sub1.drop_last() =~= sub);
                assert(sub1.last() == orig[i as int]);
                if pred(orig[i as int]) {
                    assert(sub1.filter(pred) == sub.filter(pred).push(orig[i as int]));
                } else {
                    assert(sub1.filter(pred) == sub.filter(pred));
                }
            }
            i = i + 1;
        }
        proof {
            assert(orig.subrange(0, n as int) =~= orig);
            lemma_insert_wf(orig, k, v);
        }
        kept.push((k, v));
        self.pairs = kept;
        match evicted_left {
            Some(p) => Some(p),
            None => match evicted_right {
                Some(p) => Some(p),
                None => None,
            },
        }
    }
}

/// Filtering a one-to-one sequence of pairs keeps it one-to-one.
pub proof fn lemma_filter_distinct<K: View, V: View>(s: Seq<(K, V)>, pred: spec_fn((K, V)) -> bool)
    requires
        distinct_sides(s),
    ensures
        distinct_sides(s.filter(pred)),
    decreases s.len(),
{
    reveal(Seq::filter);
    if s.len() > 0 {
        let rest = s.drop_last();
        assert(distinct_sides(rest)) by {
            assert(forall|i: int| 0 <= i < rest.len() ==> rest[i] == s[i]);
        }
        lemma_filter_distinct(rest, pred);
        if pred(s.last()) {
            let f = rest.filter(pred);
            assert forall|a: int| 0 <= a < f.len() implies (#[trigger] f[a]).0@ != s.last().0@
                && f[a].1@ != s.last().1@ by {
                assert(f.contains(f[a]));
                rest.lemma_filter_contains_rev(pred, f[a]);
                let j = choose|j: int| 0 <= j < rest.len() && rest[j] == f[a];
                assert(s[j] == f[a]);
                assert(s[j].0@ != s[s.len() - 1].0@ && s[j].1@ != s[s.len() - 1].1@);
            }
            assert(s.filter(pred) == f.push(s.last()));
        }
    }
}

/// Inserting into a one-to-one sequence of pairs keeps it one-to-one.
pub proof fn lemma_insert_wf<K: View, V: View>(s: Seq<(K, V)>, k: K, v: V)
    requires
        distinct_sides(s),
    ensures
        distinct_sides(spec_insert(s, k, v)),
{
    let pred = |p: (K, V)| p.0@ != k@ && p.1@ != v@;
    lemma_filter_distinct(s, pred);
    broadcast use vstd::seq_lib::group_filter_ensures;
    let f = s.filter(pred);
    assert forall|a: int| 0 <= a < f.len() implies (#[trigger] f[a]).0@ != k@ && f[a].1@
        != v@ by {
        assert(pred(f[a]));
    }
}

/// Under the one-to-one invariant, a right value determines its left value.
pub proof fn lemma_right_unique<K: View, V: View>(s: Seq<(K, V)>, v: V::V, k1: K::V, k2: K::V)
    requires
        distinct_sides(s),
        maps_left(s, k1, v),
        maps_left(s, k2, v),
    ensures
        k1 == k2,
{
    let i = choose|i: int| 0 <= i < s.len() && (#[trigger] s[i]).0@ == k1 && s[i].1@ == v;
    let j = choose|j: int| 0 <= j < s.len() && (#[trigger] s[j]).0@ == k2 && s[j].1@ == v;
    assert(i == j);
}

/// Under the one-to-one invariant, a left value determines its right value.
pub proof fn lemma_left_unique<K: View, V: View>(s: Seq<(K, V)>, k: K::V, v1: V::V, v2: V::V)
    requires
        distinct_sides(s),
        maps_left(s, k, v1),
        maps_left(s, k, v2),
    ensures
        v1 == v2,
{
    let i = choose|i: int| 0 <= i < s.len() && (#[trigger] s[i]).0@ == k && s[i].1@ == v1;
    let j = choose|j: int| 0 <= j < s.len() && (#[trigger] s[j]).0@ == k && s[j].1@ == v2;
    assert(i == j);
}

/// What the pairs of `spec_insert(s, k, v)` are: the new pair, and every
/// old pair that shares neither side with it.
pub proof fn lemma_insert_membership<K: View, V: View>(s: Seq<(K, V)>, k: K, v: V, a: K::V, b: V::V)
    ensures
        maps_left(spec_insert(s, k, v), a, b) <==> ((a == k@ && b == v@) || (maps_left(s, a, b)
            && a != k@ && b != v@)),
{
    let pred = |p: (K, V)| p.0@ != k@ && p.1@ != v@;
    let f = s.filter(pred);
    let ins = spec_insert(s, k, v);
    broadcast use vstd::seq_lib::group_filter_ensures;
    if maps_left(ins, a, b) {
        let i = choose|i: int| 0 <= i < ins.len() && (#[trigger] ins[i]).0@ == a && ins[i].1@ == b;
        if i < f.len() {
            assert(pred(f[i]));
            assert(f.contains(f[i]));
            s.lemma_filter_contains_rev(pred, f[i]);
            let j = choose|j: int| 0 <= j < s.len() && s[j] == f[i];
            assert(maps_left(s, a, b));
        } else {
            assert(ins[i] == (k, v));
        }
    }
    if a == k@ && b == v@ {
        assert(ins[ins.len() - 1] == (k, v));
        assert(maps_left(ins, a, b));
    }
    if maps_left(s, a, b) && a != k@ && b != v@ {
        let i = choose|i: int| 0 <= i < s.len() && (#[trigger] s[i]).0@ == a && s[i].1@ == b;
        assert(pred(s[i]));
        assert(f.contains(s[i]));
        let j = choose|j: int| 0 <= j < f.len() && f[j] == s[i];
        assert(ins[j] == s[i]);
        assert(maps_left(ins, a, b));
    }
}

} // verus!
