//! Contract deployments, stored payloads, and the simulated call of a
//! contract. All of them go through the admission of an ordinary entry.

use crate::block::BlockView;
use crate::blockchain::{admission_error, block_views, debited, with_wallet, Blockchain};
use crate::errors::{BlockchainError, ErrorView};
use crate::hashing::{calculate_hash, digest_of};
use crate::sources::current_timestamp;
use crate::text::{
    byte_list_text, debug_list, debug_list_text, push_text, signed_decimal, texts,
    write_byte_list, write_signed_decimal,
};
use crate::transaction::{
    created, tx_views, KindView, Transaction, TransactionType, TransactionView,
};
use vstd::prelude::*;
use vstd::string::StringExecFns;

verus! {

/// The amount that a stored payload moves: a tenth of a coin.
pub const DATA_AMOUNT: u64 = 1_000;

/// The address of a contract deployed by `creator` with `code` at time `now`.
pub open spec fn contract_address(creator: Seq<char>, code: Seq<char>, now: i64) -> Seq<char> {
    "contract_"@ + digest_of(creator + code + signed_decimal(now as int))
}

/// The entry that deploys a contract.
pub open spec fn deployment(
    creator: Seq<char>,
    code: Seq<char>,
    initial_value: u64,
    now: i64,
) -> TransactionView {
    created(
        creator,
        contract_address(creator, code, now),
        initial_value,
        KindView::SmartContract(code),
        now,
    )
}

/// The identifier of a payload stored by `sender`.
pub open spec fn data_id(sender: Seq<char>, data: Seq<u8>) -> Seq<char> {
    "data_"@ + digest_of(sender + byte_list_text(data))
}

/// The entry that stores a payload.
pub open spec fn storage(sender: Seq<char>, data: Seq<u8>, now: i64) -> TransactionView {
    created(sender, "BLOCKCHAIN_DATA"@, DATA_AMOUNT, KindView::Data(data), now)
}

/// Whether `post` and `result` are what the deployment of a contract at time
/// `now` makes of `pre`: the deployment entry is admitted and the contract's
/// address has a wallet, a new one without funds unless it had one already,
/// or the entry is refused with nothing changed.
pub open spec fn deployed(
    pre: Blockchain,
    creator: Seq<char>,
    code: Seq<char>,
    initial_value: u64,
    now: i64,
    post: Blockchain,
    result: Result<String, BlockchainError>,
) -> bool {
    let entry = deployment(creator, code, initial_value, now);
    let address = contract_address(creator, code, now);
    &&& post.same_frame(&pre)
    &&& match result {
        Ok(a) => {
            &&& a@ == address
            &&& admission_error(pre.wallets@, entry) is None
            &&& post.wallets@ == with_wallet(debited(pre.wallets@, entry), address)
            &&& tx_views(post.pending_transactions@) == tx_views(pre.pending_transactions@).push(
                entry,
            )
        },
        Err(e) => {
            &&& admission_error(pre.wallets@, entry) == Some(e@)
            &&& post.wallets == pre.wallets
            &&& post.pending_transactions == pre.pending_transactions
        },
    }
}

/// Whether `post` and `result` are what the storing of a payload at time
/// `now` makes of `pre`: the storage entry is admitted, or refused with
/// nothing changed.
pub open spec fn stored(
    pre: Blockchain,
    sender: Seq<char>,
    data: Seq<u8>,
    now: i64,
    post: Blockchain,
    result: Result<String, BlockchainError>,
) -> bool {
    let entry = storage(sender, data, now);
    &&& post.same_frame(&pre)
    &&& match result {
        Ok(id) => {
            &&& id@ == data_id(sender, data)
            &&& admission_error(pre.wallets@, entry) is None
            &&& post.wallets@ == debited(pre.wallets@, entry)
            &&& tx_views(post.pending_transactions@) == tx_views(pre.pending_transactions@).push(
                entry,
            )
        },
        Err(e) => {
            &&& admission_error(pre.wallets@, entry) == Some(e@)
            &&& post.wallets == pre.wallets
            &&& post.pending_transactions == pre.pending_transactions
        },
    }
}

/// Whether an entry deploys a contract at the address.
pub open spec fn deploys(t: TransactionView, address: Seq<char>) -> bool {
    t.kind is SmartContract && t.receiver == address
}

/// The code of the first deployment at the address among the entries, or
/// the empty text if there is none.
pub open spec fn code_in(txs: Seq<TransactionView>, address: Seq<char>) -> Seq<char>
    decreases txs.len(),
{
    if txs.len() == 0 {
        Seq::empty()
    } else if deploys(txs[0], address) {
        txs[0].kind->SmartContract_0
    } else {
        code_in(txs.skip(1), address)
    }
}

/// The code on the chain for the address: that of the first block whose
/// first deployment there has code, or the empty text.
pub open spec fn code_at(chain: Seq<BlockView>, address: Seq<char>) -> Seq<char>
    decreases chain.len(),
{
    if chain.len() == 0 {
        Seq::empty()
    } else if code_in(chain[0].transactions, address).len() > 0 {
        code_in(chain[0].transactions, address)
    } else {
        code_at(chain.skip(1), address)
    }
}

/// What the simulated call of a contract answers.
pub open spec fn call_response(
    function: Seq<char>,
    address: Seq<char>,
    args: Seq<Seq<char>>,
) -> Seq<char> {
    "Called function "@ + function + " in smart contract "@ + address + ": "@ + debug_list_text(
        args,
    )
}

impl Blockchain {
    /// Deploys a contract at the current time: see `create_smart_contract_at`.
    pub fn create_smart_contract(&mut self, creator: String, code: String, initial_value: u64) -> (result:
        Result<String, BlockchainError>)
        requires
            old(self).wf(),
        ensures
            final(self).wf(),
            exists|now: i64| #[trigger]
                deployed(*old(self), creator@, code@, initial_value, now, *final(self), result),
    {
        let now = current_timestamp();
        self.create_smart_contract_at(creator, code, initial_value, now)
    }

    /// Deploys a contract at a given time. The deployment entry, from the
    /// creator to the contract's address, is put to admission. If it is
    /// admitted, the address is given a wallet unless it has one, and is
    /// returned.
    pub fn create_smart_contract_at(
        &mut self,
        creator: String,
        code: String,
        initial_value: u64,
        now: i64,
    ) -> (result: Result<String, BlockchainError>)
        requires
            old(self).wf(),
        ensures
            final(self).wf(),
            deployed(*old(self), creator@, code@, initial_value, now, *final(self), result),
    {
        let mut seed = creator.clone();
        push_text(&mut seed, &code);
        write_signed_decimal(&mut seed, now);
        let digest = calculate_hash(seed.as_str());
        let mut contract_address = "contract_".to_owned();
        push_text(&mut contract_address, &digest);

        let tx = Transaction::at(
            creator,
            contract_address.clone(),
            initial_value,
            TransactionType::SmartContract(code),
            now,
        );
        match self.add_transaction(tx) {
            Ok(_) => {
                self.create_wallet(contract_address.clone());
                Ok(contract_address)
            },
            Err(e) => Err(e),
        }
    }

    /// Stores a payload at the current time: see `store_data_at`.
    pub fn store_data(&mut self, sender: String, data: Vec<u8>) -> (result: Result<
        String,
        BlockchainError,
    >)
        requires
            old(self).wf(),
        ensures
            final(self).wf(),
            exists|now: i64| #[trigger] stored(*old(self), sender@, data@, now, *final(self), result),
    {
        let now = current_timestamp();
        self.store_data_at(sender, data, now)
    }

    /// Stores a payload at a given time. The storage entry, of a tenth of a
    /// coin from the sender to the storage address, is put to admission. If
    /// it is admitted, the payload's identifier is returned.
    pub fn store_data_at(&mut self, sender: String, data: Vec<u8>, now: i64) -> (result: Result<
        String,
        BlockchainError,
    >)
        requires
            old(self).wf(),
        ensures
            final(self).wf(),
            stored(*old(self), sender@, data@, now, *final(self), result),
    {
        let mut seed = sender.clone();
        write_byte_list(&mut seed, &data);
        let digest = calculate_hash(seed.as_str());
        let mut data_id = "data_".to_owned();
        push_text(&mut data_id, &digest);

        let tx = Transaction::at(
            sender,
            "BLOCKCHAIN_DATA".to_owned(),
            DATA_AMOUNT,
            TransactionType::Data(data),
            now,
        );
        match self.add_transaction(tx) {
            Ok(_) => Ok(data_id),
            Err(e) => Err(e),
        }
    }

    /// Simulates the call of a contract. The contract must have code on the
    /// chain; the answer names the function, the contract and the arguments.
    /// The chain stays as it is.
    pub fn execute_smart_contract(
        &mut self,
        contract_address: &str,
        function: &str,
        args: Vec<String>,
    ) -> (result: Result<String, BlockchainError>)
        ensures
            *final(self) == *old(self),
            match result {
                Ok(text) => code_at(block_views(old(self).chain@), contract_address@).len() > 0
                    && text@ == call_response(function@, contract_address@, texts(args@)),
                Err(e) => code_at(block_views(old(self).chain@), contract_address@).len() == 0
                    && e@ == ErrorView::InvalidTransaction(
                    "Smart contract "@ + contract_address@ + " not found"@,
                ),
            },
    {
        let key = contract_address.to_owned();
        let ghost chain = block_views(self.chain@);
        let mut contract_code = String::new();
        let mut b: usize = 0;
        assert(chain.skip(0) =~= chain);
        while b < self.chain.len() && contract_code.as_str().is_empty()
            invariant
                b <= self.chain.len(),
                key@ == contract_address@,
                chain == block_views(self.chain@),
                contract_code@.len() == 0 ==> code_at(chain, contract_address@) == code_at(
                    chain.skip(b as int),
                    contract_address@,
                ),
                contract_code@.len() > 0 ==> code_at(chain, contract_address@) == contract_code@,
            decreases self.chain.len() - b,
        {
            let block = &self.chain[b];
            let ghost txs = tx_views(block.transactions@);
            let mut t: usize = 0;
            let mut seen = false;
            assert(txs.skip(0) =~= txs);
            while t < block.transactions.len() && !seen
                invariant
                    t <= block.transactions.len(),
                    key@ == contract_address@,
                    txs == tx_views(block.transactions@),
                    !seen ==> contract_code@.len() == 0 && code_in(txs, contract_address@)
                        == code_in(txs.skip(t as int), contract_address@),
                    seen ==> code_in(txs, contract_address@) == contract_code@,
                decreases block.transactions.len() - t,
            {
                let tx = &block.transactions[t];
                assert(txs.skip(t as int)[0] == tx@);
                assert(txs.skip(t as int).skip(1) =~= txs.skip(t + 1));
                match &tx.transaction_type {
                    TransactionType::SmartContract(code) => {
                        if tx.receiver == key {
                            contract_code = code.clone();
                            seen = true;
                        }
                    },
                    _ => {},
                }
                t = t + 1;
            }
            proof {
                assert(chain.skip(b as int)[0].transactions == txs);
                assert(chain.skip(b as int).skip(1) =~= chain.skip(b + 1));
                if !seen {
                    assert(txs.skip(t as int).len() == 0);
                }
            }
            b = b + 1;
        }
        if contract_code.as_str().is_empty() {
            let mut reason = "Smart contract ".to_owned();
            push_text(&mut reason, &key);
            reason.append(" not found");
            return Err(BlockchainError::InvalidTransaction(reason));
        }
        let mut text = "Called function ".to_owned();
        text.append(function);
        text.append(" in smart contract ");
        push_text(&mut text, &key);
        text.append(": ");
        let shown = debug_list(&args);
        push_text(&mut text, &shown);
        Ok(text)
    }
}

} // verus!
