//! The per-subscription send cursor: streams the local authority's own
//! blocks to one subscribed peer, in strictly increasing round order,
//! starting from the subscribed round, never sending a block twice and
//! never skipping one.
//!
//! The task that owns a cursor repeatedly fetches a bounded batch, sends
//! each block over the transport, and records each successful send by
//! advancing the cursor just past the sent round. A cancelled and restarted
//! stream therefore resumes from the last acknowledged round.

use vstd::prelude::*;

use crate::consensus::{
    admit_seq, first_at_or_after, lemma_admit_seq_contains, lemma_first_at_or_after,
    ConsensusState,
};
use crate::types::{Block, RoundNumber};

verus! {

/// Default bound on how many blocks one fetch returns; a tunable, not a rule.
pub const DEFAULT_BATCH_SIZE: usize = 10;

/// The slice of the own-block sequence that a fetch at cursor `r` with
/// batch bound `k` returns: the first at most `k` blocks of round at least
/// `r`.
pub open spec fn stream_batch(own: Seq<Block>, r: RoundNumber, k: int) -> Seq<Block> {
    own.subrange(
        first_at_or_after(own, r),
        first_at_or_after(own, r) + vstd::math::min(k, own.len() - first_at_or_after(own, r)),
    )
}

/// The state of one send task: the next round to fetch from, and the batch
/// bound it fetches with.
#[derive(Clone, Copy)]
pub struct SendTask {
    cursor: RoundNumber,
    batch_size: usize,
}

impl SendTask {
    /// The next round the stream will fetch from: every block below it has
    /// already been sent (or was below the subscribed round).
    pub closed spec fn cursor(self) -> RoundNumber {
        self.cursor
    }

    pub closed spec fn batch_size(self) -> usize {
        self.batch_size
    }

    /// The current cursor, for the owning task's bookkeeping.
    pub fn cursor_round(&self) -> (r: RoundNumber)
        ensures
            r == self.cursor(),
    {
        self.cursor
    }

    /// Begin a subscription streaming own blocks from `round`.
    pub fn new(round: RoundNumber, batch_size: usize) -> (r: Self)
        ensures
            r.cursor() == round,
            r.batch_size() == batch_size,
    {
        SendTask { cursor: round, batch_size }
    }

    /// The batch to stream next: up to `batch_size` own blocks of `state`
    /// with round at least the cursor, in ascending round order. An empty
    /// result means the stream has caught up and the task should wait for a
    /// change notification before fetching again.
    pub fn fetch_batch(&self, state: &ConsensusState) -> (r: Vec<Block>)
        requires
            state.wf(),
        ensures
            r@ == stream_batch(state.own(), self.cursor(), self.batch_size() as int),
            forall|i: int|
                0 <= i < r@.len() ==> (#[trigger] r@[i]).round >= self.cursor() && r@[i].authority
                    == state.authority(),
            forall|i: int, j: int| 0 <= i < j < r@.len() ==> r@[i].round < r@[j].round,
    {
        state.own_blocks_from(self.cursor, self.batch_size)
    }

    /// Record that the block of round `round` was sent successfully: the
    /// cursor moves just past it. The cursor is advanced only after a
    /// successful send, so cancellation never leaves it inconsistent.
    pub fn advance(&mut self, round: RoundNumber)
        requires
            round < u64::MAX,
        ensures
            final(self).cursor() == round + 1,
            final(self).batch_size() == old(self).batch_size(),
    {
        self.cursor = round + 1;
    }
}

/// Round-order streaming: when a fetched batch ends at some round and the
/// cursor moves just past it, the next fetch begins at exactly the next own
/// block. Two consecutive batches therefore form one contiguous slice of
/// the own-block sequence: rounds are strictly increasing across them, no
/// own block at or above the start round is skipped, and none is sent
/// twice.
pub proof fn lemma_stream_round_order(
    own: Seq<Block>,
    start: RoundNumber,
    k1: int,
    k2: int,
    c1: RoundNumber,
)
    requires
        forall|i: int, j: int| 0 <= i < j < own.len() ==> own[i].round < own[j].round,
        0 <= k1,
        0 <= k2,
        stream_batch(own, start, k1).len() > 0,
        c1 == stream_batch(own, start, k1).last().round + 1,
    ensures
        stream_batch(own, start, k1) + stream_batch(own, c1, k2) == own.subrange(
            first_at_or_after(own, start),
            first_at_or_after(own, start) + stream_batch(own, start, k1).len() + stream_batch(
                own,
                c1,
                k2,
            ).len(),
        ),
        first_at_or_after(own, c1) == first_at_or_after(own, start) + stream_batch(
            own,
            start,
            k1,
        ).len(),
{
    lemma_first_at_or_after(own, start);
    lemma_first_at_or_after(own, c1);
    let f = first_at_or_after(own, start);
    let b1 = stream_batch(own, start, k1);
    let m1 = b1.len() as int;
    assert(b1.last() == own[f + m1 - 1]);
    let f2 = first_at_or_after(own, c1);
    if f2 < f + m1 {
        assert(own[f2].round >= c1);
        if f2 < f + m1 - 1 {
            assert(own[f2].round < own[f + m1 - 1].round);
        }
        assert(false);
    }
    if f2 > f + m1 {
        assert(own[f + m1].round < c1);
        assert(own[f + m1 - 1].round < own[f + m1].round);
        assert(false);
    }
    let b2 = stream_batch(own, c1, k2);
    let m2 = b2.len() as int;
    assert(b1 + b2 =~= own.subrange(f, f + m1 + m2));
}

/// No lost blocks across one stream-and-admit exchange: after the
/// receiver admits a fetched batch, every one of the sender's own blocks
/// whose round lies between the start of the stream and the last streamed
/// round is known to the receiver — it was either already produced there
/// or now stands admitted.
pub proof fn lemma_no_lost_blocks(
    sender_own: Seq<Block>,
    start: RoundNumber,
    k: int,
    recv_own: Seq<Block>,
    recv_remote: Seq<Block>,
)
    requires
        forall|i: int, j: int|
            0 <= i < j < sender_own.len() ==> sender_own[i].round < sender_own[j].round,
        0 <= k,
        stream_batch(sender_own, start, k).len() > 0,
    ensures
        forall|b: Block|
            #[trigger] sender_own.contains(b) && start <= b.round <= stream_batch(
                sender_own,
                start,
                k,
            ).last().round ==> recv_own.contains(b) || admit_seq(
                recv_own,
                recv_remote,
                stream_batch(sender_own, start, k),
            ).contains(b),
{
    lemma_first_at_or_after(sender_own, start);
    let f = first_at_or_after(sender_own, start);
    let batch = stream_batch(sender_own, start, k);
    let m = batch.len() as int;
    assert(batch.last() == sender_own[f + m - 1]);
    assert forall|b: Block|
        #[trigger] sender_own.contains(b) && start <= b.round <= batch.last().round implies recv_own.contains(
        b,
    ) || admit_seq(recv_own, recv_remote, batch).contains(b) by {
        let idx = choose|idx: int| 0 <= idx < sender_own.len() && sender_own[idx] == b;
        if idx < f {
            assert(sender_own[idx].round < start);
        }
        if idx > f + m - 1 {
            assert(sender_own[f + m - 1].round < sender_own[idx].round);
        }
        assert(batch[idx - f] == b);
        assert(batch.contains(b));
        lemma_admit_seq_contains(recv_own, recv_remote, batch, b);
    }
}

} // verus!
