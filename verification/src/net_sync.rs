//! The synchronizer instance: owns the consensus state, the stop signal,
//! the dispatch table and the leader timeout task's liveness, and ties
//! their lifecycles together.
//!
//! `start` creates the instance and immediately forces block production at
//! round 0. Shutdown is deterministic by construction: the stop signal is
//! raised, every task is joined and releases its slot, and only then does
//! `shutdown` consume the instance and hand back the consensus state by
//! value — exclusive ownership, with no task still alive. The runtime that
//! spawns and joins the actual tasks lives outside the library; it reports
//! connection arrivals, timer expirations and task exits through the
//! methods below.

use vstd::prelude::*;

use crate::consensus::ConsensusState;
use crate::dispatch::Dispatcher;
use crate::stop::StopSignal;
use crate::types::{AuthorityIndex, Block, RoundNumber};

verus! {

pub struct NetworkSyncer {
    state: ConsensusState,
    stop: StopSignal,
    dispatcher: Dispatcher,
    timeout_task_live: bool,
}

/// The instance is well-formed exactly when its parts are.
proof fn lemma_parts_wf(s: NetworkSyncer)
    ensures
        s.wf() <==> (s.state().wf() && s.dispatcher.wf()),
{
    if s.wf() {
        assert forall|i: int, j: int|
            0 <= i < j < s.dispatcher.table().len() implies s.dispatcher.table()[i]
            != s.dispatcher.table()[j] by {
            assert(s.peers()[i] != s.peers()[j]);
        }
    }
    if s.state().wf() && s.dispatcher.wf() {
        assert forall|i: int, j: int| 0 <= i < j < s.peers().len() implies s.peers()[i]
            != s.peers()[j] by {
            assert(s.dispatcher.table()[i] != s.dispatcher.table()[j]);
        }
    }
}

impl NetworkSyncer {
    /// The consensus state the instance owns.
    pub closed spec fn state(self) -> ConsensusState {
        self.state
    }

    /// Whether shutdown has been requested.
    pub closed spec fn stop_requested(self) -> bool {
        self.stop.stopped()
    }

    /// The peers with a live connection task.
    pub closed spec fn peers(self) -> Seq<AuthorityIndex> {
        self.dispatcher.table()
    }

    /// Whether the leader timeout task is still running.
    pub closed spec fn timeout_task_live(self) -> bool {
        self.timeout_task_live
    }

    pub open spec fn wf(self) -> bool {
        &&& self.state().wf()
        &&& forall|i: int, j: int|
            0 <= i < j < self.peers().len() ==> self.peers()[i] != self.peers()[j]
    }

    /// Start the synchronizer for `authority`: fresh consensus state with
    /// block production forced at round 0, the stop signal unsignalled, no
    /// connection task yet, and the timeout task running.
    pub fn start(authority: AuthorityIndex) -> (r: Self)
        ensures
            r.wf(),
            r.state().authority() == authority,
            r.state().own() == Seq::<Block>::empty().push(
                Block { authority, round: 1u64, hash: 1u64 },
            ),
            r.state().remote() == Seq::<Block>::empty(),
            !r.stop_requested(),
            r.peers() == Seq::<AuthorityIndex>::empty(),
            r.timeout_task_live(),
    {
        let mut state = ConsensusState::new(authority);
        state.force_new_block(0);
        let r = NetworkSyncer {
            state,
            stop: StopSignal::new(),
            dispatcher: Dispatcher::new(),
            timeout_task_live: true,
        };
        proof {
            lemma_parts_wf(r);
        }
        r
    }

    /// Mutable access to the consensus state, for the connection tasks'
    /// message handling; everything else about the instance is untouched.
    pub fn consensus_mut(&mut self) -> (r: &mut ConsensusState)
        ensures
            *r == old(self).state(),
            final(self).state() == *final(r),
            final(self).stop_requested() == old(self).stop_requested(),
            final(self).peers() == old(self).peers(),
            final(self).timeout_task_live() == old(self).timeout_task_live(),
    {
        &mut self.state
    }

    /// Read-only access to the consensus state.
    pub fn consensus(&self) -> (r: &ConsensusState)
        ensures
            *r == self.state(),
    {
        &self.state
    }

    /// Request shutdown; every waiting task observes the same stop event.
    pub fn signal_stop(&mut self)
        ensures
            final(self).stop_requested(),
            final(self).state() == old(self).state(),
            final(self).peers() == old(self).peers(),
            final(self).timeout_task_live() == old(self).timeout_task_live(),
    {
        self.stop.signal_stop();
    }

    /// Observe the stop signal.
    pub fn is_stopped(&self) -> (r: bool)
        ensures
            r == self.stop_requested(),
    {
        self.stop.is_stopped()
    }

    /// The dispatch loop accepted a connection from `peer`. The returned
    /// flag says whether an older task for that peer had to be joined
    /// first; afterwards the peer has exactly one live connection task.
    pub fn on_peer_connection(&mut self, peer: AuthorityIndex) -> (had_old: bool)
        requires
            old(self).wf(),
            !old(self).stop_requested(),
        ensures
            final(self).wf(),
            had_old == old(self).peers().contains(peer),
            final(self).peers().contains(peer),
            had_old ==> final(self).peers() == old(self).peers(),
            !had_old ==> final(self).peers() == old(self).peers().push(peer),
            final(self).state() == old(self).state(),
            final(self).stop_requested() == old(self).stop_requested(),
            final(self).timeout_task_live() == old(self).timeout_task_live(),
    {
        proof {
            lemma_parts_wf(*self);
        }
        let had_old = self.dispatcher.on_connection(peer);
        proof {
            lemma_parts_wf(*self);
        }
        had_old
    }

    /// A connection task finished and was joined: its slot is released.
    pub fn on_connection_task_joined(&mut self, peer: AuthorityIndex)
        requires
            old(self).wf(),
        ensures
            final(self).wf(),
            !final(self).peers().contains(peer),
            forall|q: AuthorityIndex|
                q != peer ==> (#[trigger] final(self).peers().contains(q) <==> old(
                    self,
                ).peers().contains(q)),
            final(self).state() == old(self).state(),
            final(self).stop_requested() == old(self).stop_requested(),
            final(self).timeout_task_live() == old(self).timeout_task_live(),
    {
        proof {
            lemma_parts_wf(*self);
        }
        self.dispatcher.on_task_joined(peer);
        proof {
            lemma_parts_wf(*self);
            assert forall|q: AuthorityIndex|
                q != peer implies (self.peers().contains(q) <==> old(self).peers().contains(
                    q,
                )) by {
                assert(self.dispatcher.has_peer(q) <==> old(self).dispatcher.has_peer(q));
            }
        }
    }

    /// The leader timeout fired: no new local block appeared within the
    /// timeout interval after the current local round began, so production
    /// is forced at that round. A new local block one round further always
    /// results — consensus progress is never hostage to silent peers.
    pub fn on_leader_timeout(&mut self)
        requires
            old(self).wf(),
            old(self).state().last_own_round() < u64::MAX,
        ensures
            final(self).wf(),
            final(self).state().own() == old(self).state().own().push(
                Block {
                    authority: old(self).state().authority(),
                    round: (old(self).state().last_own_round() + 1) as RoundNumber,
                    hash: (old(self).state().last_own_round() + 1) as u64,
                },
            ),
            final(self).state().last_own_round() == old(self).state().last_own_round() + 1,
            final(self).state().remote() == old(self).state().remote(),
            final(self).state().authority() == old(self).state().authority(),
            final(self).stop_requested() == old(self).stop_requested(),
            final(self).peers() == old(self).peers(),
            final(self).timeout_task_live() == old(self).timeout_task_live(),
    {
        let round = match self.state.last_own_block() {
            Some(b) => b.round,
            None => 0,
        };
        proof {
            lemma_parts_wf(*old(self));
        }
        self.state.force_new_block(round);
        proof {
            lemma_parts_wf(*self);
        }
    }

    /// The leader timeout task observed the stop signal and exited.
    pub fn on_timeout_task_exited(&mut self)
        requires
            old(self).stop_requested(),
        ensures
            !final(self).timeout_task_live(),
            final(self).state() == old(self).state(),
            final(self).stop_requested() == old(self).stop_requested(),
            final(self).peers() == old(self).peers(),
    {
        self.timeout_task_live = false;
    }

    /// Reclaim exclusive ownership of the consensus state. Permitted only
    /// once shutdown was requested and every spawned task — each
    /// connection task and the timeout task — has terminated and released
    /// its slot; the instance is consumed, so nothing can share the state
    /// afterwards.
    pub fn shutdown(self) -> (r: ConsensusState)
        requires
            self.stop_requested(),
            self.peers().len() == 0,
            !self.timeout_task_live(),
        ensures
            r == self.state(),
    {
        let NetworkSyncer { state, stop: _, dispatcher: _, timeout_task_live: _ } = self;
        state
    }

    /// Number of live connection tasks, for the supervisor's final join.
    pub fn live_connections(&self) -> (r: usize)
        ensures
            r == self.peers().len(),
    {
        self.dispatcher.live_connections()
    }
}

} // verus!
