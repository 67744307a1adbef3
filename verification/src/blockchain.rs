//! The chain: blocks in order, the pool of pending entries, the wallets, and
//! the rule by which blocks are finalized.

use crate::address_map::AddressMap;
use crate::block::{assembled, committed, sealed, Block, BlockView};
use crate::errors::{BlockchainError, ErrorView};
use crate::text::{lemma_texts_push, push_text};
use crate::transaction::{tx_views, valid_entry, Transaction, TransactionView};
use crate::wallet::{
    add_capped, capped_sum, fresh_wallet, keyed_by_address, Wallet, WalletView,
};
use vstd::prelude::*;
use vstd::string::StringExecFns;

verus! {

/// The rule by which a candidate block is finalized.
#[derive(Debug, Clone, Copy, PartialEq, Eq, Structural)]
pub enum ConsensusAlgorithm {
    ProofOfWork,
    ProofOfStake,
    DelegatedProofOfStake,
}

/// A chain with its pool, its wallets and its validators.
pub struct Blockchain {
    pub chain: Vec<Block>,
    pub difficulty: usize,
    pub pending_transactions: Vec<Transaction>,
    pub mining_reward: u64,
    pub wallets: AddressMap<Wallet>,
    pub consensus_algorithm: ConsensusAlgorithm,
    pub transaction_fees: u64,
    pub validators: AddressMap<u64>,
}

/// The address that rewards are issued from. It needs no wallet.
pub open spec fn reward_address() -> Seq<char> {
    "BLOCKCHAIN_REWARD"@
}

/// The views of a list of blocks, in order.
pub open spec fn block_views(blocks: Seq<Block>) -> Seq<BlockView> {
    blocks.map_values(|b: Block| b@)
}

/// What an entry takes from its sender: the amount and the fee.
pub open spec fn total_cost(t: TransactionView) -> int {
    t.amount + t.fee
}

/// Why an entry is refused admission, if it is.
pub open spec fn admission_error(
    wallets: Map<Seq<char>, WalletView>,
    t: TransactionView,
) -> Option<ErrorView> {
    if !valid_entry(t) {
        Some(ErrorView::InvalidTransaction("Транзакция невалидна"@))
    } else if t.sender == reward_address() {
        None
    } else if !wallets.contains_key(t.sender) {
        Some(ErrorView::InvalidTransaction("Wallet recipient "@ + t.sender + " not found"@))
    } else if wallets[t.sender].balance < total_cost(t) {
        Some(
            ErrorView::InsufficientBalance {
                required: capped_sum(t.amount, t.fee),
                available: wallets[t.sender].balance,
            },
        )
    } else {
        None
    }
}

/// The wallets after an admitted entry has been charged to its sender:
/// amount and fee leave the balance, and the entry is noted in the sender's
/// history. An entry from the reward address charges nobody.
pub open spec fn debited(
    wallets: Map<Seq<char>, WalletView>,
    t: TransactionView,
) -> Map<Seq<char>, WalletView> {
    if t.sender == reward_address() {
        wallets
    } else {
        let w = wallets[t.sender];
        wallets.insert(
            t.sender,
            WalletView {
                balance: (w.balance - total_cost(t)) as u64,
                history: w.history.push(t.id),
                ..w
            },
        )
    }
}

/// The balance of an address: that of its wallet, or nothing without one.
pub open spec fn balance_in(wallets: Map<Seq<char>, WalletView>, address: Seq<char>) -> u64 {
    if wallets.contains_key(address) {
        wallets[address].balance
    } else {
        0
    }
}

/// The wallets with one for `address`: as they are where it has a wallet,
/// and with a wallet without funds or history for it where it has none.
pub open spec fn with_wallet(
    wallets: Map<Seq<char>, WalletView>,
    address: Seq<char>,
) -> Map<Seq<char>, WalletView> {
    if wallets.contains_key(address) {
        wallets
    } else {
        wallets.insert(address, fresh_wallet(address))
    }
}

/// The wallets after `amount` has been added to the balance of `address`.
pub open spec fn funded(
    wallets: Map<Seq<char>, WalletView>,
    address: Seq<char>,
    amount: u64,
) -> Map<Seq<char>, WalletView> {
    let w = wallets[address];
    wallets.insert(address, WalletView { balance: capped_sum(w.balance, amount), ..w })
}

/// The wallets after `address` has staked `amount` of its balance.
pub open spec fn staked(
    wallets: Map<Seq<char>, WalletView>,
    address: Seq<char>,
    amount: u64,
) -> Map<Seq<char>, WalletView> {
    let w = wallets[address];
    wallets.insert(
        address,
        WalletView {
            balance: (w.balance - amount) as u64,
            staking_balance: capped_sum(w.staking_balance, amount),
            ..w
        },
    )
}

/// Whether block `i` of a chain passes the audit: its hash is that of its
/// fields, it links to the hash of the block before it, and its root commits
/// to its entries.
pub open spec fn block_ok(chain: Seq<BlockView>, i: int) -> bool {
    sealed(chain[i]) && chain[i].previous_hash == chain[i - 1].hash && committed(chain[i])
}

/// Whether every block after the first passes the audit.
pub open spec fn chain_ok(chain: Seq<BlockView>) -> bool {
    forall|i: int| 1 <= i < chain.len() ==> block_ok(chain, i)
}

impl Blockchain {
    /// Whether the chain is well formed: it has a first block, both tables
    /// hold each address once, and each wallet stands under its own address.
    pub open spec fn wf(&self) -> bool {
        &&& self.chain@.len() >= 1
        &&& self.wallets.wf()
        &&& self.validators.wf()
        &&& keyed_by_address(self.wallets@)
    }

    /// Whether two chains agree in everything but their wallets and pool.
    pub open spec fn same_frame(&self, other: &Blockchain) -> bool {
        self.chain == other.chain && self.difficulty == other.difficulty && self.mining_reward
            == other.mining_reward && self.consensus_algorithm == other.consensus_algorithm
            && self.transaction_fees == other.transaction_fees && self.validators
            == other.validators
    }

    /// A chain with the given settings and a first block stamped with the
    /// current time. Its pool and tables are empty, and it passes the audit.
    pub fn new(difficulty: usize, mining_reward: u64, consensus_algorithm: ConsensusAlgorithm) -> (
        created: Self
    )
        ensures
            created.wf(),
            created.chain@.len() == 1,
            created.chain@[0]@ == assembled(
                0,
                created.chain@[0].timestamp,
                Seq::empty(),
                "0"@,
                difficulty,
            ),
            created.difficulty == difficulty,
            created.mining_reward == mining_reward,
            created.consensus_algorithm == consensus_algorithm,
            created.transaction_fees == 0,
            created.pending_transactions@.len() == 0,
            created.wallets@ == Map::<Seq<char>, WalletView>::empty(),
            created.validators@ == Map::<Seq<char>, u64>::empty(),
            chain_ok(block_views(created.chain@)),
    {
        let mut blockchain = Blockchain {
            chain: Vec::new(),
            difficulty,
            pending_transactions: Vec::new(),
            mining_reward,
            wallets: AddressMap::new(),
            consensus_algorithm,
            transaction_fees: 0,
            validators: AddressMap::new(),
        };
        blockchain.create_genesis_block();
        blockchain
    }

    /// Appends a first block: index zero, no entries, the previous hash `0`,
    /// the chain's difficulty, stamped with the current time.
    pub fn create_genesis_block(&mut self)
        ensures
            final(self).chain@.len() == old(self).chain@.len() + 1,
            final(self).chain@.drop_last() == old(self).chain@,
            final(self).chain@.last()@ == assembled(
                0,
                final(self).chain@.last().timestamp,
                Seq::empty(),
                "0"@,
                old(self).difficulty,
            ),
            final(self).difficulty == old(self).difficulty,
            final(self).mining_reward == old(self).mining_reward,
            final(self).consensus_algorithm == old(self).consensus_algorithm,
            final(self).transaction_fees == old(self).transaction_fees,
            final(self).pending_transactions == old(self).pending_transactions,
            final(self).wallets == old(self).wallets,
            final(self).validators == old(self).validators,
    {
        let genesis_block = Block::new(0, Vec::new(), "0".to_owned(), self.difficulty);
        assert(tx_views(Seq::<Transaction>::empty()) =~= Seq::empty());
        self.chain.push(genesis_block);
        assert(self.chain@.drop_last() =~= old(self).chain@);
    }

    /// The last block of the chain.
    pub fn get_latest_block(&self) -> (block: &Block)
        requires
            self.chain@.len() >= 1,
        ensures
            *block == self.chain@.last(),
    {
        &self.chain[self.chain.len() - 1]
    }

    /// Makes sure that the address has a wallet, and returns it. An address
    /// without one gets a wallet without funds or history. A wallet that is
    /// there stays as it is: its funds and its history are kept.
    pub fn create_wallet(&mut self, address: String) -> (wallet: &Wallet)
        requires
            old(self).wf(),
        ensures
            final(self).wf(),
            final(self).wallets@ == with_wallet(old(self).wallets@, address@),
            old(self).wallets@.contains_key(address@) ==> final(self).wallets == old(self).wallets,
            final(self).wallets@.contains_key(address@),
            wallet@ == final(self).wallets@[address@],
            final(self).same_frame(old(self)),
            final(self).pending_transactions == old(self).pending_transactions,
    {
        if !self.wallets.contains_key(&address) {
            self.wallets.insert(address.clone(), Wallet::new(address.clone()));
        }
        self.wallets.get(&address).unwrap()
    }

    /// Adds `amount` to the balance of the address, or reports that it has
    /// no wallet.
    pub fn add_funds_to_wallet(&mut self, address: &str, amount: u64) -> (result: Result<
        (),
        BlockchainError,
    >)
        requires
            old(self).wf(),
        ensures
            final(self).wf(),
            final(self).same_frame(old(self)),
            final(self).pending_transactions == old(self).pending_transactions,
            match result {
                Ok(_) => old(self).wallets@.contains_key(address@) && final(self).wallets@
                    == funded(old(self).wallets@, address@, amount),
                Err(e) => !old(self).wallets@.contains_key(address@) && final(self).wallets
                    == old(self).wallets && e@ == ErrorView::InvalidTransaction(
                    "Кошелек "@ + address@ + " не найден"@,
                ),
            },
    {
        let key = address.to_owned();
        match self.wallets.get(&key) {
            Some(wallet) => {
                let mut updated = wallet.clone();
                updated.balance = add_capped(updated.balance, amount);
                self.wallets.insert(key, updated);
                Ok(())
            },
            None => {
                let mut reason = "Кошелек ".to_owned();
                push_text(&mut reason, &key);
                reason.append(" не найден");
                Err(BlockchainError::InvalidTransaction(reason))
            },
        }
    }

    /// Admits an entry to the pool. The entry must be valid; unless it comes
    /// from the reward address, its sender must have a wallet that holds the
    /// amount and the fee, which leave the balance at once. A refused entry
    /// changes nothing. No balance grows by an admission.
    pub fn add_transaction(&mut self, transaction: Transaction) -> (result: Result<
        (),
        BlockchainError,
    >)
        requires
            old(self).wf(),
        ensures
            final(self).wf(),
            final(self).same_frame(old(self)),
            match result {
                Ok(_) => admission_error(old(self).wallets@, transaction@) is None
                    && final(self).wallets@ == debited(old(self).wallets@, transaction@)
                    && tx_views(final(self).pending_transactions@) == tx_views(
                    old(self).pending_transactions@,
                ).push(transaction@),
                Err(e) => admission_error(old(self).wallets@, transaction@) == Some(e@)
                    && final(self).wallets == old(self).wallets
                    && final(self).pending_transactions == old(self).pending_transactions,
            },
            result is Ok && transaction@.sender != reward_address() ==> balance_in(
                final(self).wallets@,
                transaction@.sender,
            ) == balance_in(old(self).wallets@, transaction@.sender) - total_cost(transaction@),
            forall|a: Seq<char>|
                balance_in(final(self).wallets@, a) <= balance_in(old(self).wallets@, a),
    {
        if !transaction.is_valid() {
            return Err(BlockchainError::InvalidTransaction("Транзакция невалидна".to_owned()));
        }
        let reward = "BLOCKCHAIN_REWARD".to_owned();
        if transaction.sender != reward {
            match self.wallets.get(&transaction.sender) {
                Some(wallet) => {
                    let available = wallet.balance;
                    if transaction.fee > u64::MAX - transaction.amount || available
                        < transaction.amount + transaction.fee {
                        return Err(
                            BlockchainError::InsufficientBalance {
                                required: add_capped(transaction.amount, transaction.fee),
                                available,
                            },
                        );
                    }
                    let mut updated = wallet.clone();
                    updated.balance = available - (transaction.amount + transaction.fee);
                    proof {
                        lemma_texts_push(updated.transaction_history@, transaction.id);
                    }
                    updated.transaction_history.push(transaction.id.clone());
                    self.wallets.insert(transaction.sender.clone(), updated);
                },
                None => {
                    let mut reason = "Wallet recipient ".to_owned();
                    push_text(&mut reason, &transaction.sender);
                    reason.append(" not found");
                    return Err(BlockchainError::InvalidTransaction(reason));
                },
            }
        }
        assert(tx_views(self.pending_transactions@.push(transaction)) =~= tx_views(
            self.pending_transactions@,
        ).push(transaction@));
        self.pending_transactions.push(transaction);
        Ok(())
    }

    /// Registers the address as a validator with the given stake, which moves
    /// from its balance to its staked balance. Reports a missing wallet or a
    /// balance below the stake, and then changes nothing.
    pub fn add_validator(&mut self, address: String, stake_amount: u64) -> (result: Result<
        (),
        BlockchainError,
    >)
        requires
            old(self).wf(),
        ensures
            final(self).wf(),
            final(self).chain == old(self).chain,
            final(self).difficulty == old(self).difficulty,
            final(self).mining_reward == old(self).mining_reward,
            final(self).consensus_algorithm == old(self).consensus_algorithm,
            final(self).transaction_fees == old(self).transaction_fees,
            final(self).pending_transactions == old(self).pending_transactions,
            match result {
                Ok(_) => old(self).wallets@.contains_key(address@) && old(self).wallets@[address@].balance
                    >= stake_amount && final(self).wallets@ == staked(
                    old(self).wallets@,
                    address@,
                    stake_amount,
                ) && final(self).validators@ == old(self).validators@.insert(
                    address@,
                    stake_amount,
                ),
                Err(e) => final(self).wallets == old(self).wallets && final(self).validators
                    == old(self).validators && if old(self).wallets@.contains_key(address@) {
                    old(self).wallets@[address@].balance < stake_amount && e@
                        == (ErrorView::InsufficientBalance {
                        required: stake_amount,
                        available: old(self).wallets@[address@].balance,
                    })
                } else {
                    e@ == ErrorView::InvalidTransaction("Cannot find wallet "@ + address@)
                },
            },
    {
        match self.wallets.get(&address) {
            Some(wallet) => {
                if wallet.balance < stake_amount {
                    return Err(
                        BlockchainError::InsufficientBalance {
                            required: stake_amount,
                            available: wallet.balance,
                        },
                    );
                }
                let mut updated = wallet.clone();
                updated.balance = updated.balance - stake_amount;
                updated.staking_balance = add_capped(updated.staking_balance, stake_amount);
                self.wallets.insert(address.clone(), updated);
                self.validators.insert(address, stake_amount);
                Ok(())
            },
            None => {
                let mut reason = "Cannot find wallet ".to_owned();
                push_text(&mut reason, &address);
                Err(BlockchainError::InvalidTransaction(reason))
            },
        }
    }

    /// The balance of the address, or nothing if it has no wallet.
    pub fn get_balance(&self, address: &str) -> (balance: u64)
        requires
            self.wf(),
        ensures
            balance == balance_in(self.wallets@, address@),
    {
        let key = address.to_owned();
        match self.wallets.get(&key) {
            Some(wallet) => wallet.balance,
            None => 0,
        }
    }

    /// The wallet of the address, if it has one.
    pub fn get_wallet_info(&self, address: &str) -> (wallet: Option<&Wallet>)
        requires
            self.wf(),
        ensures
            match wallet {
                Some(w) => self.wallets@.contains_key(address@) && self.wallets@[address@] == w@,
                None => !self.wallets@.contains_key(address@),
            },
    {
        let key = address.to_owned();
        self.wallets.get(&key)
    }
}

} // verus!
