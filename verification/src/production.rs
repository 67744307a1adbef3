//! Block production: the reward entry, the candidate block, its finalization
//! under the chain's consensus rule, and the settlement of its entries.

use crate::address_map::AddressMap;
use crate::block::{
    assembled, block_hash, committed, exhausted, first_proof, hash_preimage,
    lemma_with_nonce_sealed, sealed, Block, BlockView,
};
use crate::blockchain::{
    balance_in, block_ok, block_views, chain_ok, reward_address, Blockchain,
    ConsensusAlgorithm,
};
use crate::errors::{BlockchainError, ErrorView};
use crate::sources::{coin_flip, current_timestamp, random_below, DRAW_RANGE};
use crate::text::{lemma_texts_push, push_text};
use crate::transaction::{
    clone_transactions, created, tx_views, KindView, Transaction, TransactionType,
    TransactionView,
};
use crate::wallet::{add_capped, capped_sum, keyed_by_address, Wallet, WalletView};
use vstd::prelude::*;
use vstd::string::StringExecFns;

verus! {

/// The fees of a list of entries, summed up and held at the largest amount.
pub open spec fn fee_total(txs: Seq<TransactionView>) -> u64
    decreases txs.len(),
{
    if txs.len() == 0 {
        0
    } else {
        capped_sum(fee_total(txs.drop_last()), txs.last().fee)
    }
}

/// The entry that pays the producer of a block: the reward and the fees of
/// the pool, from the reward address.
pub open spec fn reward_entry(
    reward: u64,
    pool: Seq<TransactionView>,
    producer: Seq<char>,
    now: i64,
) -> TransactionView {
    created(
        reward_address(),
        producer,
        capped_sum(reward, fee_total(pool)),
        KindView::Transfer,
        now,
    )
}

/// The pool as a block takes it: the pending entries and then the reward.
pub open spec fn pool_with_reward(pre: Blockchain, producer: Seq<char>, now: i64) -> Seq<
    TransactionView,
> {
    let pool = tx_views(pre.pending_transactions@);
    pool.push(reward_entry(pre.mining_reward, pool, producer, now))
}

/// The block that is put to the consensus rule: the whole pool, linked to
/// the last block of the chain.
pub open spec fn candidate(pre: Blockchain, producer: Seq<char>, now: i64) -> BlockView {
    assembled(
        pre.chain@.len() as u64,
        now,
        pool_with_reward(pre, producer, now),
        pre.chain@.last().hash@,
        pre.difficulty,
    )
}

/// Why the consensus rule does not finalize a candidate, if it does not. A
/// search for a proof of work fails where no nonce is left to try; a
/// validator must be registered and its draw at most its stake; a delegate
/// must have been selected.
pub open spec fn consensus_error(
    algorithm: ConsensusAlgorithm,
    block: BlockView,
    validators: Map<Seq<char>, u64>,
    producer: Seq<char>,
    draw: u64,
    delegate: bool,
) -> Option<ErrorView> {
    match algorithm {
        ConsensusAlgorithm::ProofOfWork => if exhausted(block) {
            Some(ErrorView::ConsensusError("No nonce meets the difficulty"@))
        } else {
            None
        },
        ConsensusAlgorithm::ProofOfStake => if !validators.contains_key(producer) {
            Some(
                ErrorView::ConsensusError("This address "@ + producer + " is not a validator"@),
            )
        } else if draw > validators[producer] {
            Some(ErrorView::ConsensusError("Cannot validate block with PoS"@))
        } else {
            None
        },
        ConsensusAlgorithm::DelegatedProofOfStake => if !delegate {
            Some(ErrorView::ConsensusError("This address is not a delegate of this block"@))
        } else {
            None
        },
    }
}

/// Whether `block` is what the consensus rule makes of a candidate that it
/// finalizes: the first proof of work; the candidate with the producer as
/// its validator, sealed anew; or the candidate with the producer as its
/// validator and the hash it had.
pub open spec fn finalized(
    algorithm: ConsensusAlgorithm,
    start: BlockView,
    producer: Seq<char>,
    block: BlockView,
) -> bool {
    match algorithm {
        ConsensusAlgorithm::ProofOfWork => first_proof(start, block),
        ConsensusAlgorithm::ProofOfStake => block == (BlockView {
            validator: Some(producer),
            hash: block_hash(start),
            ..start
        }),
        ConsensusAlgorithm::DelegatedProofOfStake => block == (BlockView {
            validator: Some(producer),
            ..start
        }),
    }
}

/// The wallets after one entry of a finalized block has been settled: the
/// receiver's balance grows by the amount, held at the largest amount, and
/// the entry is noted in its history; a receiver without a wallet gets one.
/// Only an entry from the reward address to itself credits nobody.
pub open spec fn credited(
    wallets: Map<Seq<char>, WalletView>,
    t: TransactionView,
) -> Map<Seq<char>, WalletView> {
    if t.sender == reward_address() && t.receiver == reward_address() {
        wallets
    } else if wallets.contains_key(t.receiver) {
        let w = wallets[t.receiver];
        wallets.insert(
            t.receiver,
            WalletView {
                balance: capped_sum(w.balance, t.amount),
                history: w.history.push(t.id),
                ..w
            },
        )
    } else {
        wallets.insert(
            t.receiver,
            WalletView {
                address: t.receiver,
                balance: t.amount,
                staking_balance: 0,
                history: seq![t.id],
            },
        )
    }
}

/// The wallets after the entries of a block have been settled in order.
pub open spec fn settled(
    wallets: Map<Seq<char>, WalletView>,
    txs: Seq<TransactionView>,
) -> Map<Seq<char>, WalletView>
    decreases txs.len(),
{
    if txs.len() == 0 {
        wallets
    } else {
        credited(settled(wallets, txs.drop_last()), txs.last())
    }
}

/// Whether `post` and `result` are what one round of block production makes
/// of `pre`, for a producer, a time, a stake draw and a delegate selection.
///
/// A producer without a wallet is refused and nothing changes. Otherwise the
/// reward entry joins the pool and the pool's fees are noted. Where the
/// consensus rule fails, that is all: chain and wallets stay, and the pool
/// keeps every entry, the reward among them. Where it succeeds, the
/// finalized block is appended, its entries are settled, and pool and fees
/// are cleared.
pub open spec fn produced(
    pre: Blockchain,
    producer: Seq<char>,
    now: i64,
    draw: u64,
    delegate: bool,
    post: Blockchain,
    result: Result<(), BlockchainError>,
) -> bool {
    let start = candidate(pre, producer, now);
    let failure = consensus_error(
        pre.consensus_algorithm,
        start,
        pre.validators@,
        producer,
        draw,
        delegate,
    );
    &&& post.difficulty == pre.difficulty
    &&& post.mining_reward == pre.mining_reward
    &&& post.consensus_algorithm == pre.consensus_algorithm
    &&& post.validators == pre.validators
    &&& if !pre.wallets@.contains_key(producer) {
        &&& result is Err
        &&& result->Err_0@ == ErrorView::InvalidTransaction(
            "Miner wallet "@ + producer + " not found"@,
        )
        &&& post == pre
    } else if failure is Some {
        &&& result is Err
        &&& result->Err_0@ == failure->Some_0
        &&& post.chain == pre.chain
        &&& post.wallets == pre.wallets
        &&& tx_views(post.pending_transactions@) == pool_with_reward(pre, producer, now)
        &&& post.transaction_fees == fee_total(tx_views(pre.pending_transactions@))
    } else {
        &&& result is Ok
        &&& post.chain@.len() == pre.chain@.len() + 1
        &&& post.chain@.drop_last() == pre.chain@
        &&& finalized(pre.consensus_algorithm, start, producer, post.chain@.last()@)
        &&& post.wallets@ == settled(pre.wallets@, pool_with_reward(pre, producer, now))
        &&& post.pending_transactions@.len() == 0
        &&& post.transaction_fees == 0
    }
}

/// Settlement takes nothing from anybody: no wallet is lost, and no balance
/// is lower afterwards.
pub proof fn lemma_settlement_never_debits(
    wallets: Map<Seq<char>, WalletView>,
    txs: Seq<TransactionView>,
    a: Seq<char>,
)
    ensures
        wallets.contains_key(a) ==> settled(wallets, txs).contains_key(a),
        balance_in(settled(wallets, txs), a) >= balance_in(wallets, a),
    decreases txs.len(),
{
    if txs.len() > 0 {
        lemma_settlement_never_debits(wallets, txs.drop_last(), a);
    }
}

/// Settlement touches receivers only: an address that no entry pays has the
/// wallet it had, or none as before.
pub proof fn lemma_settlement_credits_receivers_only(
    wallets: Map<Seq<char>, WalletView>,
    txs: Seq<TransactionView>,
    a: Seq<char>,
)
    requires
        forall|i: int| 0 <= i < txs.len() ==> txs[i].receiver != a,
    ensures
        settled(wallets, txs).contains_key(a) == wallets.contains_key(a),
        wallets.contains_key(a) ==> settled(wallets, txs)[a] == wallets[a],
    decreases txs.len(),
{
    if txs.len() > 0 {
        lemma_settlement_credits_receivers_only(wallets, txs.drop_last(), a);
    }
}

/// A finalized block carries the hash of its own fields and the root of its
/// own entries, whatever the consensus rule.
pub proof fn lemma_finalized_is_sealed(
    algorithm: ConsensusAlgorithm,
    start: BlockView,
    producer: Seq<char>,
    block: BlockView,
)
    requires
        sealed(start),
        committed(start),
        finalized(algorithm, start, producer, block),
    ensures
        sealed(block),
        committed(block),
        block.previous_hash == start.previous_hash,
{
    if algorithm == ConsensusAlgorithm::ProofOfWork {
        lemma_with_nonce_sealed(start, block.nonce);
    } else {
        assert(hash_preimage(block) == hash_preimage(start));
    }
}

/// A round of block production that fails at the consensus rule keeps the
/// pool for the next attempt: every pending entry in its place and the
/// reward entry after them. Chain and wallets are as before.
pub proof fn lemma_failed_round_keeps_pool(
    pre: Blockchain,
    producer: Seq<char>,
    now: i64,
    draw: u64,
    delegate: bool,
    post: Blockchain,
    result: Result<(), BlockchainError>,
)
    requires
        produced(pre, producer, now, draw, delegate, post, result),
        pre.wallets@.contains_key(producer),
        result is Err,
    ensures
        result->Err_0@ is ConsensusError,
        tx_views(post.pending_transactions@).len() == pre.pending_transactions@.len() + 1,
        tx_views(post.pending_transactions@).drop_last() == tx_views(pre.pending_transactions@),
        tx_views(post.pending_transactions@).last() == reward_entry(
            pre.mining_reward,
            tx_views(pre.pending_transactions@),
            producer,
            now,
        ),
        post.chain == pre.chain,
        post.wallets == pre.wallets,
{
    let pool = tx_views(pre.pending_transactions@);
    assert(pool_with_reward(pre, producer, now).drop_last() =~= pool);
}

/// A round of block production leaves a chain that passes the audit as one
/// that passes it: an appended block carries its own hash, the hash of the
/// block before it, and the root of its entries.
pub proof fn lemma_round_keeps_chain_ok(
    pre: Blockchain,
    producer: Seq<char>,
    now: i64,
    draw: u64,
    delegate: bool,
    post: Blockchain,
    result: Result<(), BlockchainError>,
)
    requires
        pre.chain@.len() >= 1,
        produced(pre, producer, now, draw, delegate, post, result),
        chain_ok(block_views(pre.chain@)),
    ensures
        chain_ok(block_views(post.chain@)),
        result is Ok ==> sealed(post.chain@.last()@) && committed(post.chain@.last()@),
{
    if result is Ok {
        let start = candidate(pre, producer, now);
        let before = block_views(pre.chain@);
        let after = block_views(post.chain@);
        lemma_finalized_is_sealed(pre.consensus_algorithm, start, producer, post.chain@.last()@);
        assert(after.drop_last() =~= before);
        assert forall|i: int| 1 <= i < after.len() implies block_ok(after, i) by {
            if i < before.len() {
                assert(block_ok(before, i));
                assert(after[i] == before[i]);
                assert(after[i - 1] == before[i - 1]);
            } else {
                assert(after[i - 1] == before[before.len() - 1]);
            }
        }
    }
}

/// The fees of a list of entries, summed up and held at the largest amount.
pub fn sum_fees(transactions: &Vec<Transaction>) -> (total: u64)
    ensures
        total == fee_total(tx_views(transactions@)),
{
    let mut total: u64 = 0;
    let mut i: usize = 0;
    while i < transactions.len()
        invariant
            i <= transactions.len(),
            total == fee_total(tx_views(transactions@).take(i as int)),
        decreases transactions.len() - i,
    {
        proof {
            let next = tx_views(transactions@).take(i + 1);
            assert(next.drop_last() =~= tx_views(transactions@).take(i as int));
        }
        total = add_capped(total, transactions[i].fee);
        i = i + 1;
    }
    assert(tx_views(transactions@).take(i as int) =~= tx_views(transactions@));
    total
}

/// Puts a candidate block to the consensus rule. Under proof of work the
/// nonce is searched; under proof of stake the producer must be a registered
/// validator and the draw at most its stake; under delegated proof of stake
/// the producer must have been selected. A block that is not finalized is of
/// no further use.
pub fn finalize_block(
    algorithm: ConsensusAlgorithm,
    block: &mut Block,
    validators: &AddressMap<u64>,
    producer: &String,
    draw: u64,
    delegate: bool,
) -> (result: Result<(), BlockchainError>)
    requires
        validators.wf(),
    ensures
        match result {
            Ok(_) => consensus_error(
                algorithm,
                old(block)@,
                validators@,
                producer@,
                draw,
                delegate,
            ) is None && finalized(algorithm, old(block)@, producer@, final(block)@),
            Err(e) => consensus_error(
                algorithm,
                old(block)@,
                validators@,
                producer@,
                draw,
                delegate,
            ) == Some(e@),
        },
{
    match algorithm {
        ConsensusAlgorithm::ProofOfWork => {
            if !block.mine_block() {
                return Err(
                    BlockchainError::ConsensusError("No nonce meets the difficulty".to_owned()),
                );
            }
        },
        ConsensusAlgorithm::ProofOfStake => {
            match validators.get(producer) {
                Some(stake) => {
                    if !block.validate_with_draw(producer.clone(), *stake, draw) {
                        return Err(
                            BlockchainError::ConsensusError(
                                "Cannot validate block with PoS".to_owned(),
                            ),
                        );
                    }
                },
                None => {
                    let mut reason = "This address ".to_owned();
                    push_text(&mut reason, producer);
                    reason.append(" is not a validator");
                    return Err(BlockchainError::ConsensusError(reason));
                },
            }
        },
        ConsensusAlgorithm::DelegatedProofOfStake => {
            if !delegate {
                return Err(
                    BlockchainError::ConsensusError(
                        "This address is not a delegate of this block".to_owned(),
                    ),
                );
            }
            block.validator = Some(producer.clone());
        },
    }
    Ok(())
}

/// Settles one entry of a finalized block.
pub fn credit_receiver(wallets: &mut AddressMap<Wallet>, tx: &Transaction)
    requires
        old(wallets).wf(),
    ensures
        final(wallets).wf(),
        final(wallets)@ == credited(old(wallets)@, tx@),
        keyed_by_address(old(wallets)@) ==> keyed_by_address(final(wallets)@),
{
    let reward = "BLOCKCHAIN_REWARD".to_owned();
    if tx.sender == reward && tx.receiver == reward {
        return ;
    }
    match wallets.get(&tx.receiver) {
        Some(wallet) => {
            let mut updated = wallet.clone();
            updated.balance = add_capped(updated.balance, tx.amount);
            proof {
                lemma_texts_push(updated.transaction_history@, tx.id);
            }
            updated.transaction_history.push(tx.id.clone());
            wallets.insert(tx.receiver.clone(), updated);
        },
        None => {
            let mut new_wallet = Wallet::new(tx.receiver.clone());
            new_wallet.balance = tx.amount;
            proof {
                lemma_texts_push(new_wallet.transaction_history@, tx.id);
            }
            new_wallet.transaction_history.push(tx.id.clone());
            assert(new_wallet@.history =~= seq![tx.id@]);
            wallets.insert(tx.receiver.clone(), new_wallet);
        },
    }
}

/// Settles the entries of a finalized block, in order.
pub fn credit_receivers(wallets: &mut AddressMap<Wallet>, transactions: &Vec<Transaction>)
    requires
        old(wallets).wf(),
    ensures
        final(wallets).wf(),
        final(wallets)@ == settled(old(wallets)@, tx_views(transactions@)),
        keyed_by_address(old(wallets)@) ==> keyed_by_address(final(wallets)@),
{
    let mut i: usize = 0;
    while i < transactions.len()
        invariant
            i <= transactions.len(),
            wallets.wf(),
            wallets@ == settled(old(wallets)@, tx_views(transactions@).take(i as int)),
            keyed_by_address(old(wallets)@) ==> keyed_by_address(wallets@),
        decreases transactions.len() - i,
    {
        proof {
            let next = tx_views(transactions@).take(i + 1);
            assert(next.drop_last() =~= tx_views(transactions@).take(i as int));
        }
        credit_receiver(wallets, &transactions[i]);
        i = i + 1;
    }
    assert(tx_views(transactions@).take(i as int) =~= tx_views(transactions@));
}

impl Blockchain {
    /// One round of block production, stamped with the current time, with a
    /// fresh stake draw under proof of stake and a fresh selection under
    /// delegated proof of stake. What the round does for each time, draw and
    /// selection is stated by `produced`.
    pub fn mine_pending_transactions(&mut self, miner_address: String) -> (result: Result<
        (),
        BlockchainError,
    >)
        requires
            old(self).wf(),
        ensures
            final(self).wf(),
            exists|now: i64, draw: u64, delegate: bool|
                draw < DRAW_RANGE && #[trigger] produced(
                    *old(self),
                    miner_address@,
                    now,
                    draw,
                    delegate,
                    *final(self),
                    result,
                ),
    {
        let now = current_timestamp();
        let draw = match self.consensus_algorithm {
            ConsensusAlgorithm::ProofOfStake => random_below(DRAW_RANGE),
            _ => 0,
        };
        let delegate = match self.consensus_algorithm {
            ConsensusAlgorithm::DelegatedProofOfStake => coin_flip(),
            _ => false,
        };
        self.produce_block(miner_address, now, draw, delegate)
    }

    /// One round of block production for a given time, stake draw and
    /// delegate selection.
    pub fn produce_block(&mut self, miner_address: String, now: i64, draw: u64, delegate: bool) -> (result:
        Result<(), BlockchainError>)
        requires
            old(self).wf(),
        ensures
            final(self).wf(),
            produced(*old(self), miner_address@, now, draw, delegate, *final(self), result),
    {
        if !self.wallets.contains_key(&miner_address) {
            let mut reason = "Miner wallet ".to_owned();
            push_text(&mut reason, &miner_address);
            reason.append(" not found");
            return Err(BlockchainError::InvalidTransaction(reason));
        }
        let total_fees = sum_fees(&self.pending_transactions);
        self.transaction_fees = total_fees;

        let reward_tx = Transaction::at(
            "BLOCKCHAIN_REWARD".to_owned(),
            miner_address.clone(),
            add_capped(self.mining_reward, total_fees),
            TransactionType::Transfer,
            now,
        );
        assert(tx_views(self.pending_transactions@.push(reward_tx)) =~= pool_with_reward(
            *old(self),
            miner_address@,
            now,
        ));
        self.pending_transactions.push(reward_tx);

        let entries = clone_transactions(&self.pending_transactions);
        let previous_hash = self.get_latest_block().hash.clone();
        let mut new_block = Block::at(
            self.chain.len() as u64,
            now,
            entries,
            previous_hash,
            self.difficulty,
        );
        assert(new_block@ == candidate(*old(self), miner_address@, now));

        match finalize_block(
            self.consensus_algorithm,
            &mut new_block,
            &self.validators,
            &miner_address,
            draw,
            delegate,
        ) {
            Ok(_) => {},
            Err(e) => {
                return Err(e);
            },
        }

        credit_receivers(&mut self.wallets, &new_block.transactions);
        self.chain.push(new_block);
        self.pending_transactions = Vec::new();
        self.transaction_fees = 0;
        assert(self.chain@.drop_last() =~= old(self).chain@);
        Ok(())
    }
}

} // verus!
