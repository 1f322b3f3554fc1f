//! The consensus state store seen through the four operations the sync layer
//! depends on: querying the highest seen round per authority, streaming own
//! blocks from a round, idempotent admission of remote blocks, and forced
//! production of a new local block.
//!
//! Own blocks (produced locally) are kept apart from admitted remote blocks:
//! own blocks form a strictly round-increasing sequence of this authority's
//! blocks, and admitted blocks are kept free of duplicates. Blocks are
//! append-only: no operation ever removes one.

use vstd::prelude::*;

use crate::types::{AuthorityIndex, Block, RoundNumber};

verus! {

/// Admit one block into the admitted sequence: a no-op when the block is
/// already known (either produced locally or admitted before).
pub open spec fn admit_one(own: Seq<Block>, remote: Seq<Block>, b: Block) -> Seq<Block> {
    if own.contains(b) || remote.contains(b) {
        remote
    } else {
        remote.push(b)
    }
}

/// Admit a sequence of blocks, in order, each at most once.
pub open spec fn admit_seq(own: Seq<Block>, remote: Seq<Block>, bs: Seq<Block>) -> Seq<Block>
    decreases bs.len(),
{
    if bs.len() == 0 {
        remote
    } else {
        admit_seq(own, admit_one(own, remote, bs[0]), bs.subrange(1, bs.len() as int))
    }
}

/// Admission reaches exactly the union of what was known and what was
/// handed in: a block is known after admission if and only if it was known
/// before or stood in the admitted batch. In particular no block is ever
/// lost by admission.
pub proof fn lemma_admit_seq_contains(own: Seq<Block>, remote: Seq<Block>, bs: Seq<Block>, b: Block)
    ensures
        admit_seq(own, remote, bs).contains(b) <==> remote.contains(b) || (bs.contains(b)
            && !own.contains(b)),
    decreases bs.len(),
{
    if bs.len() == 0 {
        assert(!bs.contains(b));
    } else {
        let rest = bs.subrange(1, bs.len() as int);
        let r1 = admit_one(own, remote, bs[0]);
        lemma_admit_seq_contains(own, r1, rest, b);
        assert(bs.contains(b) <==> b == bs[0] || rest.contains(b)) by {
            if bs.contains(b) {
                let i = choose|i: int| 0 <= i < bs.len() && bs[i] == b;
                if i > 0 {
                    assert(rest[i - 1] == b);
                }
            }
            if rest.contains(b) {
                let i = choose|i: int| 0 <= i < rest.len() && rest[i] == b;
                assert(bs[i + 1] == b);
            }
        }
        if !(own.contains(bs[0]) || remote.contains(bs[0])) {
            assert(r1 == remote.push(bs[0]));
            assert(r1.contains(b) <==> remote.contains(b) || b == bs[0]) by {
                assert(r1[remote.len() as int] == bs[0]);
                if r1.contains(b) {
                    let i = choose|i: int| 0 <= i < r1.len() && r1[i] == b;
                    if i < remote.len() {
                        assert(remote[i] == b);
                    }
                }
                if remote.contains(b) {
                    let i = choose|i: int| 0 <= i < remote.len() && remote[i] == b;
                    assert(r1[i] == b);
                }
            }
        }
    }
}

/// Admitting blocks that are all already known changes nothing.
pub proof fn lemma_admit_seq_noop(own: Seq<Block>, remote: Seq<Block>, bs: Seq<Block>)
    requires
        forall|b: Block| bs.contains(b) ==> own.contains(b) || remote.contains(b),
    ensures
        admit_seq(own, remote, bs) == remote,
    decreases bs.len(),
{
    if bs.len() != 0 {
        assert(bs.contains(bs[0]));
        let rest = bs.subrange(1, bs.len() as int);
        assert forall|b: Block| rest.contains(b) implies own.contains(b) || remote.contains(b) by {
            let i = choose|i: int| 0 <= i < rest.len() && rest[i] == b;
            assert(bs[i + 1] == b);
        }
        lemma_admit_seq_noop(own, remote, rest);
    }
}

/// Admitting the same batch a second time leaves the admitted sequence
/// exactly as one admission left it: admission is idempotent.
pub proof fn lemma_admit_idempotent(own: Seq<Block>, remote: Seq<Block>, bs: Seq<Block>)
    ensures
        admit_seq(own, admit_seq(own, remote, bs), bs) == admit_seq(own, remote, bs),
{
    let once = admit_seq(own, remote, bs);
    assert forall|b: Block| bs.contains(b) implies own.contains(b) || once.contains(b) by {
        lemma_admit_seq_contains(own, remote, bs, b);
    }
    lemma_admit_seq_noop(own, once, bs);
}

/// Index of the first block of `own` whose round is at least `r`
/// (`own.len()` when there is none). On a round-sorted sequence this is
/// where a stream starting at round `r` begins.
pub open spec fn first_at_or_after(own: Seq<Block>, r: RoundNumber) -> int
    decreases own.len(),
{
    if own.len() == 0 {
        0
    } else if own[0].round >= r {
        0
    } else {
        1 + first_at_or_after(own.subrange(1, own.len() as int), r)
    }
}

/// `first_at_or_after` lands exactly at the boundary: everything before it
/// has a smaller round, and it points at a block of round at least `r`
/// unless no such block exists.
pub proof fn lemma_first_at_or_after(own: Seq<Block>, r: RoundNumber)
    ensures
        0 <= first_at_or_after(own, r) <= own.len(),
        forall|j: int| 0 <= j < first_at_or_after(own, r) ==> (#[trigger] own[j]).round < r,
        first_at_or_after(own, r) < own.len() ==> own[first_at_or_after(own, r)].round >= r,
    decreases own.len(),
{
    if own.len() != 0 && own[0].round < r {
        let rest = own.subrange(1, own.len() as int);
        lemma_first_at_or_after(rest, r);
        assert forall|j: int| 0 <= j < first_at_or_after(own, r) implies (#[trigger] own[j]).round
            < r by {
            if j > 0 {
                assert(rest[j - 1] == own[j]);
            }
        }
        if first_at_or_after(own, r) < own.len() {
            assert(own[first_at_or_after(own, r)] == rest[first_at_or_after(rest, r)]);
        }
    }
}

/// The consensus state: the opaque DAG store, seen by the sync layer only
/// through the operations below.
pub struct ConsensusState {
    authority: AuthorityIndex,
    own_blocks: Vec<Block>,
    remote_blocks: Vec<Block>,
}

impl ConsensusState {
    /// Index of the authority this state belongs to.
    pub closed spec fn authority(self) -> AuthorityIndex {
        self.authority
    }

    /// The blocks produced locally, in the order they were produced.
    pub closed spec fn own(self) -> Seq<Block> {
        self.own_blocks@
    }

    /// The blocks admitted from peers, in the order they were first admitted.
    pub closed spec fn remote(self) -> Seq<Block> {
        self.remote_blocks@
    }

    /// Well-formedness: own blocks belong to this authority and carry
    /// strictly increasing rounds; admitted blocks hold no duplicate.
    pub open spec fn wf(self) -> bool {
        &&& forall|i: int|
            0 <= i < self.own().len() ==> (#[trigger] self.own()[i]).authority == self.authority()
        &&& forall|i: int, j: int|
            0 <= i < j < self.own().len() ==> self.own()[i].round < self.own()[j].round
        &&& forall|i: int, j: int|
            0 <= i < j < self.remote().len() ==> self.remote()[i] != self.remote()[j]
    }

    /// A block is known when it was produced locally or admitted.
    pub open spec fn contains(self, b: Block) -> bool {
        self.own().contains(b) || self.remote().contains(b)
    }

    /// Fresh state for one authority, holding no block yet.
    pub fn new(authority: AuthorityIndex) -> (r: Self)
        ensures
            r.wf(),
            r.authority() == authority,
            r.own() == Seq::<Block>::empty(),
            r.remote() == Seq::<Block>::empty(),
    {
        ConsensusState { authority, own_blocks: Vec::new(), remote_blocks: Vec::new() }
    }

    /// Whether `b` is already known to this state.
    pub fn contains_block(&self, b: &Block) -> (r: bool)
        ensures
            r == self.contains(*b),
    {
        let in_own = vec_contains_block(&self.own_blocks, b);
        let in_remote = vec_contains_block(&self.remote_blocks, b);
        in_own || in_remote
    }

    /// Admit remote blocks, in order, each at most once per
    /// (authority, round, hash): a block already known is skipped silently.
    pub fn admit_blocks(&mut self, blocks: Vec<Block>)
        requires
            old(self).wf(),
        ensures
            final(self).wf(),
            final(self).authority() == old(self).authority(),
            final(self).own() == old(self).own(),
            final(self).remote() == admit_seq(old(self).own(), old(self).remote(), blocks@),
            forall|b: Block|
                final(self).contains(b) <==> old(self).contains(b) || blocks@.contains(b),
    {
        let ghost own0 = self.own();
        let ghost remote0 = self.remote();
        let n = blocks.len();
        assert(blocks@.subrange(0, n as int) =~= blocks@);
        let mut i: usize = 0;
        while i < n
            invariant
                0 <= i <= n,
                n == blocks@.len(),
                self.wf(),
                self.authority() == old(self).authority(),
                self.own() == own0,
                own0 == old(self).own(),
                remote0 == old(self).remote(),
                admit_seq(own0, self.remote(), blocks@.subrange(i as int, n as int)) == admit_seq(
                    own0,
                    remote0,
                    blocks@,
                ),
            decreases n - i,
        {
            let b = blocks[i];
            let ghost rest = blocks@.subrange(i as int, n as int);
            assert(rest[0] == b);
            assert(rest.subrange(1, rest.len() as int) == blocks@.subrange(i + 1, n as int));
            if !self.contains_block(&b) {
                let ghost pre = self.remote();
                self.remote_blocks.push(b);
                assert(self.remote() == pre.push(b));
                assert forall|k: int, l: int| 0 <= k < l < self.remote().len() implies self.remote()[k]
                    != self.remote()[l] by {
                    if l < pre.len() {
                    } else {
                        assert(self.remote()[l] == b);
                        assert(!pre.contains(b));
                        assert(self.remote()[k] == pre[k]);
                    }
                }
            }
            i += 1;
        }
        assert(blocks@.subrange(n as int, n as int) == Seq::<Block>::empty());
        assert(final(self).remote() == admit_seq(own0, remote0, blocks@));
        assert forall|b: Block|
            final(self).contains(b) <==> old(self).contains(b) || blocks@.contains(b) by {
            lemma_admit_seq_contains(own0, remote0, blocks@, b);
        }
    }

    /// Round of the most recent locally produced block, 0 when none exists.
    pub open spec fn last_own_round(self) -> RoundNumber {
        if self.own().len() == 0 {
            0
        } else {
            self.own().last().round
        }
    }

    /// The most recent locally produced block.
    pub fn last_own_block(&self) -> (r: Option<Block>)
        ensures
            r == if self.own().len() == 0 {
                None::<Block>
            } else {
                Some(self.own().last())
            },
    {
        let n = self.own_blocks.len();
        if n == 0 {
            None
        } else {
            Some(self.own_blocks[n - 1])
        }
    }

    /// Highest round among the known blocks of `authority`, 0 when none is
    /// known.
    pub fn last_seen_round(&self, authority: AuthorityIndex) -> (r: RoundNumber)
        ensures
            forall|b: Block|
                #[trigger] self.contains(b) && b.authority == authority ==> b.round <= r,
            r != 0 ==> exists|b: Block|
                #[trigger] self.contains(b) && b.authority == authority && b.round == r,
    {
        let mut r: u64 = 0;
        let n = self.own_blocks.len();
        let mut i: usize = 0;
        while i < n
            invariant
                0 <= i <= n,
                n == self.own().len(),
                forall|j: int|
                    0 <= j < i ==> ((#[trigger] self.own()[j]).authority == authority
                        ==> self.own()[j].round <= r),
                r != 0 ==> exists|j: int|
                    0 <= j < i && (#[trigger] self.own()[j]).authority == authority
                        && self.own()[j].round == r,
            decreases n - i,
        {
            let b = self.own_blocks[i];
            if b.authority == authority && b.round > r {
                r = b.round;
                assert(self.own()[i as int].round == r);
            }
            i += 1;
        }
        let m = self.remote_blocks.len();
        let mut k: usize = 0;
        while k < m
            invariant
                0 <= k <= m,
                m == self.remote().len(),
                forall|j: int|
                    0 <= j < self.own().len() ==> ((#[trigger] self.own()[j]).authority
                        == authority ==> self.own()[j].round <= r),
                forall|j: int|
                    0 <= j < k ==> ((#[trigger] self.remote()[j]).authority == authority
                        ==> self.remote()[j].round <= r),
                r != 0 ==> (exists|j: int|
                    0 <= j < self.own().len() && (#[trigger] self.own()[j]).authority == authority
                        && self.own()[j].round == r) || (exists|j: int|
                    0 <= j < k && (#[trigger] self.remote()[j]).authority == authority
                        && self.remote()[j].round == r),
            decreases m - k,
        {
            let b = self.remote_blocks[k];
            if b.authority == authority && b.round > r {
                r = b.round;
                assert(self.remote()[k as int].round == r);
            }
            k += 1;
        }
        proof {
            assert forall|b: Block| self.contains(b) && b.authority == authority implies b.round
                <= r by {
                if self.own().contains(b) {
                    let j = choose|j: int| 0 <= j < self.own().len() && self.own()[j] == b;
                    assert(self.own()[j].authority == authority);
                } else {
                    let j = choose|j: int| 0 <= j < self.remote().len() && self.remote()[j] == b;
                    assert(self.remote()[j].authority == authority);
                }
            }
            if r != 0 {
                if exists|j: int|
                    0 <= j < self.own().len() && (#[trigger] self.own()[j]).authority == authority
                        && self.own()[j].round == r {
                    let j = choose|j: int|
                        0 <= j < self.own().len() && (#[trigger] self.own()[j]).authority
                            == authority && self.own()[j].round == r;
                    assert(self.own().contains(self.own()[j]));
                    assert(self.contains(self.own()[j]));
                } else {
                    let j = choose|j: int|
                        0 <= j < self.remote().len() && (#[trigger] self.remote()[j]).authority
                            == authority && self.remote()[j].round == r;
                    assert(self.remote().contains(self.remote()[j]));
                    assert(self.contains(self.remote()[j]));
                }
            }
        }
        r
    }

    /// Up to `limit` locally produced blocks with round at least `round`, in
    /// ascending round order: exactly the contiguous slice of the own-block
    /// sequence that starts at the first such block. Nothing in the covered
    /// round range is skipped.
    pub fn own_blocks_from(&self, round: RoundNumber, limit: usize) -> (r: Vec<Block>)
        requires
            self.wf(),
        ensures
            r@ == self.own().subrange(
                first_at_or_after(self.own(), round),
                first_at_or_after(self.own(), round) + vstd::math::min(
                    limit as int,
                    self.own().len() - first_at_or_after(self.own(), round),
                ),
            ),
            forall|i: int|
                0 <= i < r@.len() ==> (#[trigger] r@[i]).round >= round && r@[i].authority
                    == self.authority(),
            forall|i: int, j: int| 0 <= i < j < r@.len() ==> r@[i].round < r@[j].round,
            r@.len() > 0 ==> forall|b: Block|
                #[trigger] self.own().contains(b) && round <= b.round <= r@.last().round
                    ==> r@.contains(b),
    {
        proof {
            lemma_first_at_or_after(self.own(), round);
        }
        let n = self.own_blocks.len();
        let mut s: usize = 0;
        while s < n && self.own_blocks[s].round < round
            invariant
                0 <= s <= n,
                n == self.own().len(),
                forall|j: int| 0 <= j < s ==> (#[trigger] self.own()[j]).round < round,
            decreases n - s,
        {
            s += 1;
        }
        proof {
            let f = first_at_or_after(self.own(), round);
            if (s as int) < f {
                assert(self.own()[s as int].round < round);
            }
            if f < s as int {
                assert(self.own()[f].round < round);
            }
            assert(s as int == f);
        }
        let mut out: Vec<Block> = Vec::new();
        let mut j: usize = s;
        while j < n && out.len() < limit
            invariant
                s <= j <= n,
                n == self.own().len(),
                out@ =~= self.own().subrange(s as int, j as int),
                out@.len() == j - s,
                out@.len() <= limit,
            decreases n - j,
        {
            out.push(self.own_blocks[j]);
            assert(out@ =~= self.own().subrange(s as int, j + 1));
            j += 1;
        }
        proof {
            assert(j - s == vstd::math::min(limit as int, n - s as int));
            let ghost outv = out@;
            assert forall|i: int|
                0 <= i < outv.len() implies (#[trigger] outv[i]).round >= round && outv[i].authority
                == self.authority() by {
                assert(outv[i] == self.own()[s as int + i]);
                assert(self.own()[s as int].round >= round);
                if i > 0 {
                    assert(self.own()[s as int].round < self.own()[s as int + i].round);
                }
            }
            assert forall|i: int, k: int| 0 <= i < k < outv.len() implies outv[i].round
                < outv[k].round by {
                assert(outv[i] == self.own()[s as int + i]);
                assert(outv[k] == self.own()[s as int + k]);
            }
            if outv.len() > 0 {
                assert forall|b: Block|
                    self.own().contains(b) && round <= b.round
                        <= outv.last().round implies outv.contains(b) by {
                    let k = choose|k: int| 0 <= k < self.own().len() && self.own()[k] == b;
                    assert(outv.last() == self.own()[s as int + outv.len() - 1]);
                    if k < s as int {
                        assert(self.own()[k].round < round);
                    }
                    if k > s as int + outv.len() - 1 {
                        assert(self.own()[s as int + outv.len() - 1].round < self.own()[k].round);
                    }
                    assert(outv[k - s as int] == b);
                }
            }
        }
        out
    }

    /// Force production of a new local block one round above `round`: a
    /// no-op when a newer local block already exists. The forced block's
    /// content hash is modelled as derived from its round.
    pub fn force_new_block(&mut self, round: RoundNumber)
        requires
            old(self).wf(),
            round < u64::MAX,
        ensures
            final(self).wf(),
            final(self).authority() == old(self).authority(),
            final(self).remote() == old(self).remote(),
            old(self).last_own_round() > round ==> final(self).own() == old(self).own(),
            old(self).last_own_round() <= round ==> final(self).own() == old(self).own().push(
                Block {
                    authority: old(self).authority(),
                    round: (round + 1) as RoundNumber,
                    hash: (round + 1) as u64,
                },
            ),
    {
        let n = self.own_blocks.len();
        let produce = if n == 0 {
            true
        } else {
            self.own_blocks[n - 1].round <= round
        };
        if produce {
            let b = Block { authority: self.authority, round: round + 1, hash: round + 1 };
            proof {
                assert forall|i: int| 0 <= i < self.own().len() implies (#[trigger] self.own()[
                    i]).round <= self.last_own_round() by {
                    if i < self.own().len() - 1 {
                        assert(self.own()[i].round < self.own()[self.own().len() - 1].round);
                    }
                }
            }
            self.own_blocks.push(b);
            proof {
                assert(self.own() == old(self).own().push(b));
                assert forall|i: int, j: int| 0 <= i < j < self.own().len() implies self.own()[
                    i].round < self.own()[j].round by {
                    assert(self.own()[i] == old(self).own()[i]);
                    if j < self.own().len() - 1 {
                        assert(old(self).own()[i].round < old(self).own()[j].round);
                    } else {
                        assert(self.own()[j] == b);
                        assert(old(self).own()[i].round <= old(self).last_own_round());
                    }
                }
                assert forall|i: int| 0 <= i < self.own().len() implies (#[trigger] self.own()[
                    i]).authority == self.authority() by {
                    if i < self.own().len() - 1 {
                        assert(self.own()[i] == old(self).own()[i]);
                    }
                }
            }
        }
        proof {
            assert(self.remote() == old(self).remote());
            assert forall|i: int, j: int| 0 <= i < j < self.remote().len() implies self.remote()[i]
                != self.remote()[j] by {
                assert(self.remote()[i] == old(self).remote()[i]);
                assert(self.remote()[j] == old(self).remote()[j]);
            }
        }
    }
}

/// Linear membership scan.
fn vec_contains_block(v: &Vec<Block>, b: &Block) -> (r: bool)
    ensures
        r == v@.contains(*b),
{
    let n = v.len();
    let mut i: usize = 0;
    while i < n
        invariant
            0 <= i <= n,
            n == v@.len(),
            forall|j: int| 0 <= j < i ==> v@[j] != *b,
        decreases n - i,
    {
        if v[i] == *b {
            assert(v@[i as int] == *b);
            return true;
        }
        i += 1;
    }
    false
}

} // verus!
