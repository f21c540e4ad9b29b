//! Accounting for a logged stream: a tee that mirrors every byte passing
//! through the stream to a write-sink.
//!
//! The owner of the stream records each transferred slice as it happens and
//! periodically takes the pending bytes to write them to the sink. The
//! contracts here state log fidelity: the concatenation of everything
//! handed to the sink equals, in order, the concatenation of everything
//! recorded.

use vstd::prelude::*;

verus! {

/// The bytes that passed through a logged stream: those already handed to
/// the sink (tracked in ghost state) and those still pending.
pub struct LogBuffer {
    pending: Vec<u8>,
    flushed: Ghost<Seq<u8>>,
}

impl LogBuffer {
    /// The recorded bytes not yet handed to the sink.
    pub closed spec fn pending_view(self) -> Seq<u8> {
        self.pending@
    }

    /// The bytes already handed to the sink, in order.
    pub closed spec fn flushed_view(self) -> Seq<u8> {
        self.flushed@
    }

    /// Every byte ever recorded, in order: first what went to the sink,
    /// then what is still pending.
    pub open spec fn seen(self) -> Seq<u8> {
        self.flushed_view() + self.pending_view()
    }

    /// An empty log.
    pub fn new() -> (r: LogBuffer)
        ensures
            r.seen() == Seq::<u8>::empty(),
            r.pending_view() == Seq::<u8>::empty(),
            r.flushed_view() == Seq::<u8>::empty(),
    {
        let r = LogBuffer { pending: Vec::new(), flushed: Ghost(Seq::empty()) };
        proof {
            assert(r.seen() =~= Seq::<u8>::empty());
        }
        r
    }

    /// Records a slice that passed through the stream. The log sees exactly
    /// the recorded bytes, in order.
    #[verifier::loop_isolation(false)]
    pub fn record(&mut self, bytes: &[u8])
        ensures
            final(self).seen() == old(self).seen() + bytes@,
            final(self).pending_view() == old(self).pending_view() + bytes@,
            final(self).flushed_view() == old(self).flushed_view(),
    {
        let mut i: usize = 0;
        while i < bytes.len()
            invariant
                0 <= i <= bytes@.len(),
                self.pending@ == old(self).pending@ + bytes@.take(i as int),
                self.flushed == old(self).flushed,
            decreases bytes@.len() - i,
        {
            self.pending.push(bytes[i]);
            proof {
                assert(old(self).pending@ + bytes@.take(i + 1) =~= (old(self).pending@
                    + bytes@.take(i as int)).push(bytes@[i as int]));
            }
            i = i + 1;
        }
        proof {
            assert(bytes@.take(bytes@.len() as int) =~= bytes@);
        }
    }

    /// Hands out the pending bytes for the sink, exactly once and in order:
    /// what is returned moves from pending to handed-over, and the total of
    /// recorded bytes is unchanged.
    pub fn take_pending(&mut self) -> (r: Vec<u8>)
        ensures
            r@ == old(self).pending_view(),
            final(self).pending_view() == Seq::<u8>::empty(),
            final(self).flushed_view() == old(self).flushed_view() + r@,
            final(self).seen() == old(self).seen(),
    {
        let out = vstd::slice::slice_to_vec(self.pending.as_slice());
        self.pending = Vec::new();
        proof {
            self.flushed@ = self.flushed@ + out@;
            assert(self.seen() =~= old(self).seen());
            assert(self.pending_view() =~= Seq::<u8>::empty());
        }
        out
    }
}

} // verus!
