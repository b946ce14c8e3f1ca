use vstd::prelude::*;
use crate::handles::{StrongHandle, WeakHandle};
use crate::runtime::ActorRuntime;
use crate::snapshot::PersistentActor;

verus! {

/// The reference persistent actor: a counter whose whole state is one
/// number.  Its snapshot is the construction-argument shape, as is the
/// default for persistent actors.
pub struct Counter {
    pub x: u64,
}

/// Construction arguments of a [`Counter`].
#[derive(Clone, Copy, Debug, PartialEq, Eq, Structural)]
pub struct CounterArgs {
    pub x: u64,
}

/// The serializable projection of a [`Counter`]'s state.
#[derive(Clone, Copy, Debug, PartialEq, Eq, Structural)]
pub struct CounterSnapshot {
    pub x: u64,
}

/// The byte string that the wire format assigns to an integer.
pub uninterp spec fn encoded_u64(x: u64) -> Seq<u8>;

/// What the wire format decodes a byte string to, if anything.
pub uninterp spec fn decoded_u64(b: Seq<u8>) -> Option<u64>;

/// Relies on postcard::to_stdvec: the encoding of an integer is a
/// function of its value alone, and the allocating flavor never reports
/// an error for an integer.
#[verifier::external_body]
fn postcard_encode_u64(x: u64) -> (r: Vec<u8>)
    ensures
        r@ == encoded_u64(x),
{
    postcard::to_stdvec(&x).unwrap_or_default()
}

/// Relies on postcard::from_bytes: decoding is a function of the bytes
/// alone, and decoding an encoding yields the encoded value back.
#[verifier::external_body]
fn postcard_decode_u64(b: &[u8]) -> (r: Option<u64>)
    ensures
        r == decoded_u64(b@),
        forall|x: u64| b@ == encoded_u64(x) ==> r == Some(x),
{
    postcard::from_bytes(b).ok()
}

impl PersistentActor for Counter {
    type Args = CounterArgs;

    type Snapshot = CounterSnapshot;

    open spec fn to_snapshot(&self) -> CounterSnapshot {
        CounterSnapshot { x: self.x }
    }

    open spec fn encoded(s: CounterSnapshot) -> Seq<u8> {
        encoded_u64(s.x)
    }

    open spec fn decoded(b: Seq<u8>) -> Option<CounterSnapshot> {
        match decoded_u64(b) {
            Some(x) => Some(CounterSnapshot { x }),
            None => None,
        }
    }

    open spec fn args_of(s: CounterSnapshot) -> CounterArgs {
        CounterArgs { x: s.x }
    }

    fn snapshot(&self) -> (s: CounterSnapshot) {
        CounterSnapshot { x: self.x }
    }

    fn encode_snapshot(s: &CounterSnapshot) -> (b: Vec<u8>) {
        postcard_encode_u64(s.x)
    }

    fn decode_snapshot(b: &[u8]) -> (r: Option<CounterSnapshot>) {
        match postcard_decode_u64(b) {
            Some(x) => Some(CounterSnapshot { x }),
            None => None,
        }
    }

    fn into_args(s: CounterSnapshot) -> (a: CounterArgs) {
        CounterArgs { x: s.x }
    }
}

/// The most recent construction arguments recorded for `id`, if any.
pub open spec fn latest_args(log: Seq<(u64, CounterArgs)>, id: u64) -> Option<CounterArgs>
    decreases log.len(),
{
    if log.len() == 0 {
        None
    } else if log.last().0 == id {
        Some(log.last().1)
    } else {
        latest_args(log.drop_last(), id)
    }
}

/// The in-process reference runtime for [`Counter`] actors.  It assigns
/// ids from a counter and remembers which actors are alive and the
/// arguments each was spawned from.
pub struct LocalRuntime {
    next_id: u64,
    spawned: Vec<(u64, CounterArgs)>,
    alive: Vec<u64>,
}

impl LocalRuntime {
    /// A runtime with no actors.
    pub fn new() -> (r: Self)
        ensures
            r.live() == Set::<u64>::empty(),
            r.log() == Seq::<(u64, CounterArgs)>::empty(),
    {
        let r = LocalRuntime { next_id: 0, spawned: Vec::new(), alive: Vec::new() };
        proof {
            assert(r.alive@.to_set() =~= Set::<u64>::empty());
        }
        r
    }

    /// Stop the actor `id`: its weak handles no longer upgrade.  The
    /// spawn history is kept.
    pub fn terminate(&mut self, id: u64)
        ensures
            final(self).live() == old(self).live().remove(id),
            final(self).log() == old(self).log(),
    {
        let ghost s0 = self.alive@;
        let ghost pred = |x: u64| x != id;
        let mut kept: Vec<u64> = Vec::new();
        let n = self.alive.len();
        let mut i: usize = 0;
        while i < n
            invariant
                n == self.alive.len(),
                s0 == self.alive@,
                i <= n,
                pred == (|x: u64| x != id),
                kept@ == s0.subrange(0, i as int).filter(pred),
            decreases n - i,
        {
            let x = self.alive[i];
            if x != id {
                kept.push(x);
            }
            proof {
                reveal(Seq::filter);
                let sub = s0.subrange(0, i as int);
                let sub1 = s0.subrange(0, i + 1 as int);
                assert(sub1.drop_last() =~= sub);
                assert(sub1.last() == s0[i as int]);
            }
            i = i + 1;
        }
        self.alive = kept;
        proof {
            assert(s0.subrange(0, n as int) =~= s0);
            broadcast use vstd::seq_lib::group_filter_ensures;
            let f = s0.filter(pred);
            assert forall|x: u64| f.contains(x) implies (s0.contains(x) && x != id) by {
                s0.lemma_filter_contains_rev(pred, x);
                let j = choose|j: int| 0 <= j < f.len() && f[j] == x;
                assert(pred(f[j]));
            }
            assert(f.to_set() =~= s0.to_set().remove(id));
        }
    }

    /// The latest construction arguments the runtime recorded for the
    /// actor `id`, if it ever spawned one.
    pub fn last_args_of(&self, id: u64) -> (r: Option<CounterArgs>)
        ensures
            r == latest_args(self.log(), id),
    {
        let ghost s0 = self.spawned@;
        let mut i: usize = self.spawned.len();
        proof {
            assert(s0.subrange(0, i as int) =~= s0);
        }
        while i > 0
            invariant
                i <= self.spawned.len(),
                s0 == self.spawned@,
                latest_args(s0, id) == latest_args(s0.subrange(0, i as int), id),
            decreases i,
        {
            i = i - 1;
            let p = self.spawned[i];
            proof {
                let sub1 = s0.subrange(0, i + 1 as int);
                assert(sub1.drop_last() =~= s0.subrange(0, i as int));
                assert(sub1.last() == s0[i as int]);
            }
            if p.0 == id {
                return Some(p.1);
            }
        }
        proof {
            assert(s0.subrange(0, 0) =~= Seq::<(u64, CounterArgs)>::empty());
        }
        None
    }
}

impl ActorRuntime<Counter> for LocalRuntime {
    closed spec fn live(&self) -> Set<u64> {
        self.alive@.to_set()
    }

    closed spec fn log(&self) -> Seq<(u64, CounterArgs)> {
        self.spawned@
    }

    fn spawn(&mut self, args: CounterArgs) -> (h: StrongHandle)
        ensures
            final(self).live() == old(self).live().insert(h.id),
            final(self).log() == old(self).log().push((h.id, args)),
    {
        let id = self.next_id;
        if self.next_id < u64::MAX {
            self.next_id = self.next_id + 1;
        }
        self.alive.push(id);
        self.spawned.push((id, args));
        proof {
            let ghost s0 = old(self).alive@;
            assert forall|x: u64| self.alive@.contains(x) implies (s0.contains(x) || x == id) by {
                let j = choose|j: int| 0 <= j < self.alive@.len() && self.alive@[j] == x;
                if j < s0.len() {
                    assert(s0[j] == x);
                }
            }
            assert forall|x: u64| s0.contains(x) implies self.alive@.contains(x) by {
                let j = choose|j: int| 0 <= j < s0.len() && s0[j] == x;
                assert(self.alive@[j] == x);
            }
            assert(self.alive@.contains(id)) by {
                assert(self.alive@[s0.len() as int] == id);
            }
            assert(self.alive@.to_set() =~= s0.to_set().insert(id));
        }
        StrongHandle { id }
    }

    fn upgrade(&self, w: &WeakHandle) -> (r: Option<StrongHandle>) {
        let n = self.alive.len();
        let mut i: usize = 0;
        while i < n
            invariant
                n == self.alive.len(),
                i <= n,
                forall|j: int| 0 <= j < i ==> self.alive@[j] != w.id,
            decreases n - i,
        {
            if self.alive[i] == w.id {
                proof {
                    assert(self.alive@.contains(w.id));
                }
                return Some(StrongHandle { id: w.id });
            }
            i = i + 1;
        }
        proof {
            assert(!self.alive@.contains(w.id));
        }
        None
    }
}

} // verus!
