//! Core data model: authorities, rounds, blocks, and the two protocol
//! messages a peer connection carries.

use vstd::prelude::*;

verus! {

/// Stable small integer identifying a committee member.
pub type AuthorityIndex = u64;

/// Per-authority monotonically increasing sequence number of a block.
pub type RoundNumber = u64;

/// An immutable unit of the consensus DAG, identified by
/// (authority, round, content hash). The sync layer never reads block
/// contents; the hash stands for the content identity.
#[derive(Clone, Copy, PartialEq, Eq, Structural, Hash, Debug)]
pub struct Block {
    pub authority: AuthorityIndex,
    pub round: RoundNumber,
    pub hash: u64,
}

/// The two message kinds a peer connection carries: a subscription to our
/// own blocks starting at a round, and a block payload.
#[derive(Clone, Copy, PartialEq, Eq, Structural, Debug)]
pub enum NetworkMessage {
    SubscribeOwnFrom(RoundNumber),
    Block(Block),
}

/// The fixed committee: how many authorities there are and how many make a
/// quorum. Read-only after genesis.
#[derive(Clone, Copy, PartialEq, Eq, Structural, Debug)]
pub struct Committee {
    size: u64,
    quorum: u64,
}

impl Committee {
    /// A committee is valid when a quorum is attainable and any two quorums
    /// intersect in more than a third of the committee.
    pub open spec fn valid(self) -> bool {
        &&& 1 <= self.quorum() <= self.size()
        &&& 3 * self.quorum() > 2 * self.size()
    }

    /// Build the committee for `size` authorities with the usual
    /// two-thirds-plus-one quorum threshold.
    pub fn new(size: u64) -> (r: Self)
        requires
            1 <= size <= 0x7fff_ffff_ffff_ffff,
        ensures
            r.valid(),
            r.size() == size,
            r.quorum() == 2 * size / 3 + 1,
    {
        let quorum: u64 = 2 * size / 3 + 1;
        proof {
            assert(1 <= quorum <= size && 3 * quorum > 2 * size) by (nonlinear_arith)
                requires
                    1 <= size,
                    quorum == 2 * size / 3 + 1,
            ;
        }
        Committee { size, quorum }
    }

    pub closed spec fn size(self) -> u64 {
        self.size
    }

    pub closed spec fn quorum(self) -> u64 {
        self.quorum
    }

    /// Number of committee members.
    pub fn len(&self) -> (r: u64)
        ensures
            r == self.size(),
    {
        self.size
    }

    /// The quorum threshold.
    pub fn quorum_threshold(&self) -> (r: u64)
        ensures
            r == self.quorum(),
    {
        self.quorum
    }
}

} // verus!
