//! The dispatch table: which peers currently have a live connection task.
//!
//! The dispatch loop accepts inbound connections and keeps the invariant
//! that each peer id has at most one live connection task at any instant:
//! a connection from a peer that already has one means the old task must
//! be joined — it is expected to have exited already, since the new
//! connection implies the old one closed — before the new task takes its
//! slot.

use vstd::prelude::*;

use crate::types::AuthorityIndex;

verus! {

/// The supervisor's table of live connection tasks, one entry per peer.
pub struct Dispatcher {
    connections: Vec<AuthorityIndex>,
}

impl Dispatcher {
    /// The peers with a live connection task, in the order their tasks
    /// were installed.
    pub closed spec fn table(self) -> Seq<AuthorityIndex> {
        self.connections@
    }

    /// At most one live connection task per peer id.
    pub open spec fn wf(self) -> bool {
        forall|i: int, j: int| 0 <= i < j < self.table().len() ==> self.table()[i] != self.table()[j]
    }

    /// Whether `peer` currently has a live connection task.
    pub open spec fn has_peer(self, peer: AuthorityIndex) -> bool {
        self.table().contains(peer)
    }

    /// The position of `peer`'s entry.
    pub open spec fn peer_index(self, peer: AuthorityIndex) -> int {
        choose|i: int| 0 <= i < self.table().len() && self.table()[i] == peer
    }

    /// An empty table: no peer connected yet.
    pub fn new() -> (r: Self)
        ensures
            r.wf(),
            r.table() == Seq::<AuthorityIndex>::empty(),
    {
        Dispatcher { connections: Vec::new() }
    }

    /// Number of live connection tasks.
    pub fn live_connections(&self) -> (r: usize)
        ensures
            r == self.table().len(),
    {
        self.connections.len()
    }

    /// A new connection from `peer` arrived. When the peer already has a
    /// live task the caller must join it first — the returned flag says
    /// so — and the new task then takes the old slot; otherwise the peer
    /// is added. Either way exactly one task per peer remains.
    pub fn on_connection(&mut self, peer: AuthorityIndex) -> (had_old: bool)
        requires
            old(self).wf(),
        ensures
            final(self).wf(),
            had_old == old(self).has_peer(peer),
            final(self).has_peer(peer),
            had_old ==> final(self).table() == old(self).table(),
            !had_old ==> final(self).table() == old(self).table().push(peer),
            forall|q: AuthorityIndex|
                #[trigger] final(self).has_peer(q) <==> old(self).has_peer(q) || q == peer,
    {
        let n = self.connections.len();
        let mut i: usize = 0;
        while i < n
            invariant
                0 <= i <= n,
                n == self.table().len(),
                self == old(self),
                old(self).wf(),
                forall|j: int| 0 <= j < i ==> self.table()[j] != peer,
            decreases n - i,
        {
            if self.connections[i] == peer {
                proof {
                    assert(self.table()[i as int] == peer);
                    assert(self.table().contains(peer));
                    assert forall|k: int, l: int| 0 <= k < l < self.table().len() implies self.table()[
                        k] != self.table()[l] by {
                        assert(old(self).table()[k] != old(self).table()[l]);
                    }
                }
                return true;
            }
            i += 1;
        }
        assert(!self.table().contains(peer));
        self.connections.push(peer);
        proof {
            let t0 = old(self).table();
            assert(self.table() == t0.push(peer));
            assert(self.table()[t0.len() as int] == peer);
            assert forall|k: int, l: int| 0 <= k < l < self.table().len() implies self.table()[k]
                != self.table()[l] by {
                if l < t0.len() {
                } else {
                    assert(self.table()[l] == peer);
                    assert(self.table()[k] == t0[k]);
                }
            }
            assert forall|q: AuthorityIndex|
                self.has_peer(q) <==> old(self).has_peer(q) || q == peer by {
                if self.has_peer(q) {
                    let k = choose|k: int| 0 <= k < self.table().len() && self.table()[k] == q;
                    if k < t0.len() {
                        assert(t0[k] == q);
                    }
                }
                if old(self).has_peer(q) {
                    let k = choose|k: int| 0 <= k < t0.len() && t0[k] == q;
                    assert(self.table()[k] == q);
                }
            }
        }
        false
    }

    /// A connection task finished and was joined: its slot is released.
    /// Every other peer's task is untouched.
    pub fn on_task_joined(&mut self, peer: AuthorityIndex)
        requires
            old(self).wf(),
        ensures
            final(self).wf(),
            !final(self).has_peer(peer),
            old(self).has_peer(peer) ==> final(self).table() == old(self).table().remove(
                old(self).peer_index(peer),
            ),
            !old(self).has_peer(peer) ==> final(self).table() == old(self).table(),
            forall|q: AuthorityIndex|
                q != peer ==> (#[trigger] final(self).has_peer(q) <==> old(self).has_peer(q)),
    {
        let n = self.connections.len();
        let mut i: usize = 0;
        while i < n
            invariant
                0 <= i <= n,
                n == self.table().len(),
                self == old(self),
                old(self).wf(),
                forall|j: int| 0 <= j < i ==> self.table()[j] != peer,
            decreases n - i,
        {
            if self.connections[i] == peer {
                proof {
                    assert(old(self).table()[i as int] == peer);
                    assert(exists|k: int|
                        0 <= k < old(self).table().len() && old(self).table()[k] == peer);
                    if old(self).peer_index(peer) < i as int {
                        assert(old(self).table()[old(self).peer_index(peer)] != old(self).table()[
                            i as int]);
                    }
                    if old(self).peer_index(peer) > i as int {
                        assert(old(self).table()[i as int] != old(self).table()[old(
                            self,
                        ).peer_index(peer)]);
                    }
                    assert(old(self).peer_index(peer) == i as int);
                }
                self.connections.remove(i);
                proof {
                    old(self).table().remove_ensures(i as int);
                    assert(self.table() == old(self).table().remove(i as int));
                    assert forall|k: int, l: int| 0 <= k < l < self.table().len() implies self.table()[
                        k] != self.table()[l] by {
                        if k < i as int {
                            assert(self.table()[k] == old(self).table()[k]);
                        } else {
                            assert(self.table()[k] == old(self).table()[k + 1]);
                        }
                        if l < i as int {
                            assert(self.table()[l] == old(self).table()[l]);
                        } else {
                            assert(self.table()[l] == old(self).table()[l + 1]);
                        }
                    }
                    assert forall|q: AuthorityIndex| q != peer implies (self.table().contains(q)
                        <==> old(self).table().contains(q)) by {
                        if self.table().contains(q) {
                            let k = choose|k: int|
                                0 <= k < self.table().len() && self.table()[k] == q;
                            if k < i as int {
                                assert(old(self).table()[k] == q);
                            } else {
                                assert(old(self).table()[k + 1] == q);
                            }
                        }
                        if old(self).table().contains(q) {
                            let k = choose|k: int|
                                0 <= k < old(self).table().len() && old(self).table()[k] == q;
                            if k < i as int {
                                assert(self.table()[k] == q);
                            } else {
                                assert(self.table()[k - 1] == q);
                            }
                        }
                    }
                    assert forall|k: int| 0 <= k < self.table().len() implies self.table()[k]
                        != peer by {
                        if k < i as int {
                            assert(self.table()[k] == old(self).table()[k]);
                        } else {
                            assert(self.table()[k] == old(self).table()[k + 1]);
                        }
                    }
                    assert(!self.table().contains(peer));
                }
                return ;
            }
            i += 1;
        }
        assert(!self.table().contains(peer));
    }
}

} // verus!
