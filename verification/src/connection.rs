//! The per-connection protocol state machine: a connection either awaits a
//! subscription or streams blocks through exactly one send task.
//!
//! A subscription message replaces the active send task — the previous one
//! is handed back to the caller to be cancelled and awaited before the new
//! stream is considered installed. A block message admits the block into
//! the consensus state, idempotently. Connection teardown hands back
//! whatever stream was active, for the same cancel-and-await treatment.
//! Peer disconnects are expected and never an error.

use vstd::prelude::*;

use crate::consensus::{admit_seq, ConsensusState};
use crate::send_task::SendTask;
use crate::types::{AuthorityIndex, Block, NetworkMessage};

verus! {

/// The state of one connection task.
pub struct ConnectionState {
    active: Option<SendTask>,
    batch_size: usize,
}

impl ConnectionState {
    /// The currently installed send task, if the connection is streaming.
    pub closed spec fn active(self) -> Option<SendTask> {
        self.active
    }

    /// Batch bound handed to every send task this connection starts.
    pub closed spec fn batch_size(self) -> usize {
        self.batch_size
    }

    /// How many send tasks this connection runs: never more than one, by
    /// construction of the state machine.
    pub open spec fn active_streams(self) -> nat {
        if self.active() is Some {
            1
        } else {
            0
        }
    }

    /// A connection starts without a stream, awaiting a subscription.
    pub fn new(batch_size: usize) -> (r: Self)
        ensures
            r.active() is None,
            r.batch_size() == batch_size,
    {
        ConnectionState { active: None, batch_size }
    }

    /// Whether the connection currently streams through a send task.
    pub fn is_streaming(&self) -> (r: bool)
        ensures
            r == (self.active() is Some),
    {
        self.active.is_some()
    }

    /// The first message sent on a fresh connection: subscribe to the
    /// peer's own blocks starting at the highest round of theirs we have
    /// seen, so the peer resumes from authoritative state, not from
    /// task-local memory.
    pub fn initial_subscription(state: &ConsensusState, peer: AuthorityIndex) -> (m:
        NetworkMessage)
        ensures
            m matches NetworkMessage::SubscribeOwnFrom(r) && (forall|b: Block|
                #[trigger] state.contains(b) && b.authority == peer ==> b.round <= r) && (r != 0
                ==> exists|b: Block|
                #[trigger] state.contains(b) && b.authority == peer && b.round == r),
    {
        NetworkMessage::SubscribeOwnFrom(state.last_seen_round(peer))
    }

    /// Process one inbound message. A subscription installs a fresh send
    /// task at the requested round and hands the previous task (if any)
    /// back for cancel-and-await; a block is admitted into the consensus
    /// state, idempotently, leaving the stream untouched.
    pub fn on_message(&mut self, msg: NetworkMessage, state: &mut ConsensusState) -> (cancelled:
        Option<SendTask>)
        requires
            old(state).wf(),
        ensures
            final(state).wf(),
            final(state).authority() == old(state).authority(),
            final(self).batch_size() == old(self).batch_size(),
            match msg {
                NetworkMessage::SubscribeOwnFrom(round) => {
                    &&& cancelled == old(self).active()
                    &&& final(self).active() matches Some(t) && t.cursor() == round
                        && t.batch_size() == old(self).batch_size()
                    &&& *final(state) == *old(state)
                },
                NetworkMessage::Block(b) => {
                    &&& cancelled is None
                    &&& final(self).active() == old(self).active()
                    &&& final(state).own() == old(state).own()
                    &&& final(state).remote() == admit_seq(
                        old(state).own(),
                        old(state).remote(),
                        seq![b],
                    )
                    &&& forall|x: Block|
                        final(state).contains(x) <==> old(state).contains(x) || x == b
                },
            },
    {
        match msg {
            NetworkMessage::SubscribeOwnFrom(round) => {
                let prev = self.active;
                self.active = Some(SendTask::new(round, self.batch_size));
                prev
            },
            NetworkMessage::Block(b) => {
                let blocks = vec![b];
                assert(blocks@ =~= seq![b]);
                state.admit_blocks(blocks);
                proof {
                    assert(seq![b][0] == b);
                    assert forall|x: Block| seq![b].contains(x) implies x == b by {
                        let i = choose|i: int| 0 <= i < seq![b].len() && seq![b][i] == x;
                    }
                }
                None
            },
        }
    }

    /// Terminal transition: the connection closed or the stop signal
    /// resolved. Whatever stream was active is handed back for
    /// cancel-and-await; the connection ends without a stream.
    pub fn on_closed(&mut self) -> (cancelled: Option<SendTask>)
        ensures
            final(self).active() is None,
            final(self).batch_size() == old(self).batch_size(),
            cancelled == old(self).active(),
    {
        let prev = self.active;
        self.active = None;
        prev
    }
}

/// A connection never runs two send tasks at once: in every reachable
/// state the number of active streams is at most one, and `on_message`
/// hands the superseded task back before the new one counts as installed.
pub proof fn lemma_single_stream(c: ConnectionState)
    ensures
        c.active_streams() <= 1,
{
}

} // verus!
