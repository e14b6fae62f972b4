//! The chain: a genesis block followed by blocks mined at the chain's difficulty.

use vstd::prelude::*;
use crate::block::{Block, BlockView, block_hash, is_genesis, meets_target, with_nonce};

verus! {

/// Difficulty every chain mines at: leading `'0'` characters of a block hash.
pub const CHAIN_DIFFICULTY: u8 = 3;

/// A chain of blocks.
#[derive(Debug)]
pub struct Blockchain {
    difficaulty: u8,
    blocks: Vec<Block>,
}

/// What holds of the blocks of every chain: there is at least one, the first is
/// a genesis block, and each later block carries its own hash, which starts with
/// `difficulty` zeros.
pub open spec fn valid_chain(blocks: Seq<BlockView>, difficulty: u8) -> bool {
    &&& blocks.len() >= 1
    &&& is_genesis(blocks[0])
    &&& forall|i: int|
        1 <= i < blocks.len() ==> {
            &&& (#[trigger] blocks[i]).hash == block_hash(blocks[i])
            &&& meets_target(blocks[i].hash, difficulty as nat)
        }
}

impl View for Blockchain {
    type V = Seq<BlockView>;

    closed spec fn view(&self) -> Seq<BlockView> {
        self.blocks@.map_values(|b: Block| b@)
    }
}

impl Blockchain {
    /// The chain mines at the chain difficulty and its blocks form a valid chain.
    pub closed spec fn wf(self) -> bool {
        &&& self.difficaulty == CHAIN_DIFFICULTY
        &&& valid_chain(self@, self.difficaulty)
    }

    /// A well-formed chain is valid at the chain difficulty.
    pub proof fn lemma_wf_valid(c: Blockchain)
        requires
            c.wf(),
        ensures
            valid_chain(c@, CHAIN_DIFFICULTY),
            c.wf(),
    {
    }

    /// A chain holding just a fresh genesis block.
    pub fn new() -> (c: Self)
        ensures
            c@.len() == 1,
            is_genesis(c@[0]),
            valid_chain(c@, CHAIN_DIFFICULTY),
            c.wf(),
    {
        let mut blocks: Vec<Block> = Vec::new();
        blocks.push(Block::genesis());
        let c = Blockchain { difficaulty: CHAIN_DIFFICULTY, blocks };
        assert(c@.len() == 1);
        c
    }

    /// Mines a copy of `block` at the chain's difficulty and appends it. Returns
    /// whether a nonce was found; when none was the chain is left unchanged.
    pub fn mine_and_add_block(&mut self, block: &Block) -> (added: bool)
        requires
            old(self).wf(),
        ensures
            added ==> {
                &&& final(self)@.len() == old(self)@.len() + 1
                &&& final(self)@.subrange(0, old(self)@.len() as int) == old(self)@
                &&& final(self)@.last() == (BlockView {
                    nonce: final(self)@.last().nonce,
                    hash: final(self)@.last().hash,
                    ..block@
                })
                &&& block@.nonce < final(self)@.last().nonce
                &&& final(self)@.last().hash == block_hash(final(self)@.last())
                &&& meets_target(final(self)@.last().hash, CHAIN_DIFFICULTY as nat)
                &&& forall|m: u64|
                    block@.nonce < m < final(self)@.last().nonce ==> !meets_target(
                        #[trigger] block_hash(with_nonce(block@, m)),
                        CHAIN_DIFFICULTY as nat,
                    )
            },
            !added ==> final(self)@ == old(self)@,
            !added ==> forall|m: u64|
                block@.nonce < m ==> !meets_target(
                    #[trigger] block_hash(with_nonce(block@, m)),
                    CHAIN_DIFFICULTY as nat,
                ),
            valid_chain(final(self)@, CHAIN_DIFFICULTY),
            final(self).wf(),
    {
        let mut blk = block.clone();
        let mined = blk.mine_block(self.difficaulty);
        if !mined {
            return false;
        }
        let ghost old_view = self@;
        let ghost b = blk@;
        self.blocks.push(blk);
        assert(self@ =~= old_view.push(b));
        assert(self@.subrange(0, old_view.len() as int) =~= old_view);
        true
    }

    /// The hash of the last block.
    pub fn last_hash(&self) -> (h: String)
        requires
            self.wf(),
        ensures
            h@ == self@.last().hash,
    {
        let n = self.blocks.len();
        self.blocks[n - 1].hash.clone()
    }

    /// A copy of the last block; a chain is never empty, so there always is one.
    pub fn last_block(&self) -> (b: Option<Block>)
        requires
            self.wf(),
        ensures
            b matches Some(blk) && blk@ == self@.last(),
    {
        let n = self.blocks.len();
        Some(self.blocks[n - 1].clone())
    }
}

} // verus!
