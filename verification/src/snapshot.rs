use vstd::prelude::*;

verus! {

/// A persistent actor type: its state can be projected to a serializable
/// snapshot, a snapshot can be encoded to bytes and back, and a snapshot
/// converts into the actor's construction arguments.
///
/// Decoding an encoding must yield the encoded snapshot back: every
/// implementation owes that round trip as part of `decode_snapshot`.
pub trait PersistentActor: Sized {
    /// The actor's construction arguments.
    type Args;

    /// The serializable projection of the actor's state.
    type Snapshot;

    /// The snapshot that `snapshot` projects from this state.
    spec fn to_snapshot(&self) -> Self::Snapshot;

    /// The byte encoding of a snapshot.
    spec fn encoded(s: Self::Snapshot) -> Seq<u8>;

    /// What a byte string decodes to, if anything.
    spec fn decoded(b: Seq<u8>) -> Option<Self::Snapshot>;

    /// The construction arguments a snapshot converts into.
    spec fn args_of(s: Self::Snapshot) -> Self::Args;

    /// Project the current state to a snapshot.
    fn snapshot(&self) -> (s: Self::Snapshot)
        ensures
            s == self.to_snapshot(),
    ;

    /// Encode a snapshot to bytes.
    fn encode_snapshot(s: &Self::Snapshot) -> (b: Vec<u8>)
        ensures
            b@ == Self::encoded(*s),
    ;

    /// Decode bytes to a snapshot.  An encoding always decodes back to
    /// the snapshot it encodes.
    fn decode_snapshot(b: &[u8]) -> (r: Option<Self::Snapshot>)
        ensures
            r == Self::decoded(b@),
            forall|s: Self::Snapshot| b@ == Self::encoded(s) ==> r == Some(s),
    ;

    /// Convert a snapshot into construction arguments.
    fn into_args(s: Self::Snapshot) -> (a: Self::Args)
        ensures
            a == Self::args_of(s),
    ;
}

/// Decoding the encoding of any snapshot yields that snapshot back,
/// structurally equal.
pub fn snapshot_round_trip<A: PersistentActor>(s: &A::Snapshot) -> (r: Option<A::Snapshot>)
    ensures
        r == Some(*s),
        A::decoded(A::encoded(*s)) == Some(*s),
{
    let b = A::encode_snapshot(s);
    A::decode_snapshot(b.as_slice())
}

} // verus!
