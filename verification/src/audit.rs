//! The audit of the chain and the retargeting of its difficulty.

use crate::block::{block_hash, committed, merkle_root, sealed, Block, BlockView};
use crate::blockchain::{block_ok, block_views, chain_ok, Blockchain};
use vstd::prelude::*;

verus! {

/// The time that a block is meant to take.
pub const TARGET_BLOCK_TIME: i64 = 60;

/// The number of blocks after which the difficulty is looked at again.
pub const RETARGET_INTERVAL: usize = 10;

/// Whether block `i` is the first block of the chain that fails the audit.
pub open spec fn first_fault(chain: Seq<BlockView>, i: int) -> bool {
    &&& 1 <= i < chain.len()
    &&& !block_ok(chain, i)
    &&& forall|j: int| 1 <= j < i ==> block_ok(chain, j)
}

/// The check that a block fails in the audit.
#[derive(Debug, Clone, Copy, PartialEq, Eq, Structural)]
pub enum ChainFault {
    /// The stored hash is not the hash of the block's fields.
    WrongHash,
    /// The stored previous hash is not the hash of the block before.
    WrongPreviousHash,
    /// The stored root is not the root of the block's entries.
    WrongMerkleRoot,
}

/// The first check that block `i` fails, of a block that fails one: its own
/// hash, then the link to the block before, then the root.
pub open spec fn fault_of(chain: Seq<BlockView>, i: int) -> ChainFault {
    if !sealed(chain[i]) {
        ChainFault::WrongHash
    } else if chain[i].previous_hash != chain[i - 1].hash {
        ChainFault::WrongPreviousHash
    } else {
        ChainFault::WrongMerkleRoot
    }
}

/// Whether `b` is `a` with one field changed in a way that the audit can
/// see: another hash, another previous hash, another root, other entries
/// with another root, or another index, time, nonce or difficulty with
/// another digest.
pub open spec fn tampered_block(a: BlockView, b: BlockView) -> bool {
    ||| b == (BlockView { hash: b.hash, ..a }) && b.hash != a.hash
    ||| b == (BlockView { previous_hash: b.previous_hash, ..a }) && b.previous_hash
        != a.previous_hash
    ||| b == (BlockView { merkle_root: b.merkle_root, ..a }) && b.merkle_root != a.merkle_root
    ||| b == (BlockView { transactions: b.transactions, ..a }) && merkle_root(b.transactions)
        != merkle_root(a.transactions)
    ||| b == (BlockView {
        index: b.index,
        timestamp: b.timestamp,
        nonce: b.nonce,
        difficulty: b.difficulty,
        ..a
    }) && block_hash(b) != block_hash(a)
}

/// The difficulty after a retarget. Nothing changes unless the chain's
/// length is a multiple of ten. Then the time from the tenth-last block to
/// the last, divided by ten, is held against the target: below nine tenths
/// of it the difficulty rises by one; above eleven tenths it falls by one,
/// but not below one.
pub open spec fn retargeted(chain: Seq<BlockView>, difficulty: usize) -> int {
    if chain.len() % (RETARGET_INTERVAL as nat) == 0 && chain.len() > 1 {
        let span = chain.last().timestamp - chain[chain.len() - RETARGET_INTERVAL].timestamp;
        if span < 9 * TARGET_BLOCK_TIME {
            difficulty + 1
        } else if span > 11 * TARGET_BLOCK_TIME && difficulty > 1 {
            difficulty - 1
        } else {
            difficulty as int
        }
    } else {
        difficulty as int
    }
}

/// A chain that passes the audit, with one block after the first changed in
/// one of the ways that `tampered_block` lists, fails the audit at that block
/// and at none before it.
pub proof fn lemma_tampering_is_found(chain: Seq<BlockView>, tampered: Seq<BlockView>, i: int)
    requires
        chain_ok(chain),
        1 <= i < chain.len(),
        tampered.len() == chain.len(),
        forall|j: int| 0 <= j < chain.len() && j != i ==> tampered[j] == chain[j],
        tampered_block(chain[i], tampered[i]),
    ensures
        first_fault(tampered, i),
        !chain_ok(tampered),
{
    assert(block_ok(chain, i));
    assert forall|j: int| 1 <= j < i implies block_ok(tampered, j) by {
        assert(block_ok(chain, j));
    }
    assert(!block_ok(tampered, i));
}

impl Blockchain {
    /// The first block that fails the audit, if one does, with the first
    /// check that it fails. Each block after the first must carry the hash
    /// of its own fields, the hash of the block before it, and the root of
    /// its own entries.
    pub fn find_fault(&self) -> (fault: Option<(usize, ChainFault)>)
        ensures
            match fault {
                Some(found) => first_fault(block_views(self.chain@), found.0 as int) && found.1
                    == fault_of(block_views(self.chain@), found.0 as int),
                None => chain_ok(block_views(self.chain@)),
            },
    {
        let mut i: usize = 1;
        while i < self.chain.len()
            invariant
                1 <= i,
                forall|j: int|
                    1 <= j < i && j < self.chain@.len() ==> block_ok(block_views(self.chain@), j),
            decreases self.chain@.len() - i,
        {
            let current_block = &self.chain[i];
            let previous_block = &self.chain[i - 1];
            if current_block.hash != current_block.calculate_hash() {
                return Some((i, ChainFault::WrongHash));
            }
            if current_block.previous_hash != previous_block.hash {
                return Some((i, ChainFault::WrongPreviousHash));
            }
            let root = Block::calculate_merkle_root(current_block.transactions.as_slice());
            if current_block.merkle_root != root {
                return Some((i, ChainFault::WrongMerkleRoot));
            }
            i = i + 1;
        }
        None
    }

    /// The index of the first block that fails the audit, if one does.
    pub fn first_invalid_block(&self) -> (fault: Option<usize>)
        ensures
            match fault {
                Some(i) => first_fault(block_views(self.chain@), i as int),
                None => chain_ok(block_views(self.chain@)),
            },
    {
        match self.find_fault() {
            Some(found) => Some(found.0),
            None => None,
        }
    }

    /// Whether every block after the first passes the audit.
    pub fn is_chain_valid(&self) -> (valid: bool)
        ensures
            valid == chain_ok(block_views(self.chain@)),
    {
        self.first_invalid_block().is_none()
    }

    /// Looks at the difficulty again: see `retargeted`.
    pub fn adjust_difficulty(&mut self)
        requires
            old(self).difficulty < usize::MAX,
        ensures
            final(self).difficulty == retargeted(block_views(old(self).chain@), old(self).difficulty),
            final(self).chain == old(self).chain,
            final(self).pending_transactions == old(self).pending_transactions,
            final(self).mining_reward == old(self).mining_reward,
            final(self).wallets == old(self).wallets,
            final(self).consensus_algorithm == old(self).consensus_algorithm,
            final(self).transaction_fees == old(self).transaction_fees,
            final(self).validators == old(self).validators,
    {
        let length = self.chain.len();
        if length % RETARGET_INTERVAL == 0 && length > 1 {
            let latest: i128 = self.chain[length - 1].timestamp as i128;
            let first_of_last_ten: i128 = self.chain[length - RETARGET_INTERVAL].timestamp as i128;
            let time_diff: i128 = latest - first_of_last_ten;
            if time_diff < 9 * (TARGET_BLOCK_TIME as i128) {
                self.difficulty = self.difficulty + 1;
            } else if time_diff > 11 * (TARGET_BLOCK_TIME as i128) && self.difficulty > 1 {
                self.difficulty = self.difficulty - 1;
            }
        }
    }
}

} // verus!
