//! Ledger entries: what they carry, what they cost, and when they are valid.

pub use crate::hashing::calculate_hash;
use crate::hashing::digest_of;
use crate::sources::current_timestamp;
use crate::text::{amount_text, push_text, signed_decimal, write_amount, write_signed_decimal};
use vstd::prelude::*;

verus! {

/// The kinds of entry the ledger accepts.
#[derive(Debug)]
pub enum TransactionType {
    /// A plain movement of funds.
    Transfer,
    /// The deployment of a contract, with its code.
    SmartContract(String),
    /// A payload stored on the chain.
    Data(Vec<u8>),
}

/// A kind of entry, with its code or payload as a sequence.
pub enum KindView {
    Transfer,
    SmartContract(Seq<char>),
    Data(Seq<u8>),
}

impl View for TransactionType {
    type V = KindView;

    open spec fn view(&self) -> KindView {
        match self {
            TransactionType::Transfer => KindView::Transfer,
            TransactionType::SmartContract(code) => KindView::SmartContract(code@),
            TransactionType::Data(payload) => KindView::Data(payload@),
        }
    }
}

impl Clone for TransactionType {
    fn clone(&self) -> (copy: Self)
        ensures
            copy@ == self@,
    {
        match self {
            TransactionType::Transfer => TransactionType::Transfer,
            TransactionType::SmartContract(code) => TransactionType::SmartContract(code.clone()),
            TransactionType::Data(payload) => {
                let mut bytes: Vec<u8> = Vec::new();
                let mut i: usize = 0;
                while i < payload.len()
                    invariant
                        i <= payload.len(),
                        bytes@ == payload@.take(i as int),
                    decreases payload.len() - i,
                {
                    bytes.push(payload[i]);
                    assert(payload@.take(i + 1) =~= payload@.take(i as int).push(payload@[i as int]));
                    i = i + 1;
                }
                assert(payload@.take(i as int) =~= payload@);
                TransactionType::Data(bytes)
            },
        }
    }
}

/// One entry of the ledger.
#[derive(Debug)]
pub struct Transaction {
    pub id: String,
    pub transaction_type: TransactionType,
    pub sender: String,
    pub receiver: String,
    pub amount: u64,
    pub fee: u64,
    pub timestamp: i64,
    pub signature: String,
}

/// An entry with its texts as sequences of characters.
pub struct TransactionView {
    pub id: Seq<char>,
    pub kind: KindView,
    pub sender: Seq<char>,
    pub receiver: Seq<char>,
    pub amount: u64,
    pub fee: u64,
    pub timestamp: i64,
    pub signature: Seq<char>,
}

impl View for Transaction {
    type V = TransactionView;

    open spec fn view(&self) -> TransactionView {
        TransactionView {
            id: self.id@,
            kind: self.transaction_type@,
            sender: self.sender@,
            receiver: self.receiver@,
            amount: self.amount,
            fee: self.fee,
            timestamp: self.timestamp,
            signature: self.signature@,
        }
    }
}

/// The views of a list of entries, in order.
pub open spec fn tx_views(txs: Seq<Transaction>) -> Seq<TransactionView> {
    txs.map_values(|t: Transaction| t@)
}

/// The fee of an entry, before it is held to what a `u64` can carry: a
/// thousandth of a transfer; a hundredth of a deployment and half a coin; a
/// two-hundredth of a stored payload's amount and one unit for each byte.
pub open spec fn fee_due(kind: KindView, amount: u64) -> int {
    match kind {
        KindView::Transfer => amount as int / 1000,
        KindView::SmartContract(_) => amount as int / 100 + 5000,
        KindView::Data(payload) => amount as int / 200 + payload.len(),
    }
}

/// The fee of an entry as stored: `fee_due`, or the largest `u64` below it.
pub open spec fn fee_for(kind: KindView, amount: u64) -> u64 {
    if fee_due(kind, amount) > u64::MAX {
        u64::MAX
    } else {
        fee_due(kind, amount) as u64
    }
}

/// The text whose digest identifies an entry.
pub open spec fn id_preimage(
    sender: Seq<char>,
    receiver: Seq<char>,
    amount: u64,
    timestamp: i64,
) -> Seq<char> {
    sender + receiver + amount_text(amount as nat) + signed_decimal(timestamp as int)
}

/// The placeholder signature of an entry with the given identifier.
pub open spec fn signature_text(id: Seq<char>, timestamp: i64) -> Seq<char> {
    "sig_"@ + digest_of(id + signed_decimal(timestamp as int))
}

/// The entry that is created from the given parts at the given time.
pub open spec fn created(
    sender: Seq<char>,
    receiver: Seq<char>,
    amount: u64,
    kind: KindView,
    timestamp: i64,
) -> TransactionView {
    let id = digest_of(id_preimage(sender, receiver, amount, timestamp));
    TransactionView {
        id,
        kind,
        sender,
        receiver,
        amount,
        fee: fee_for(kind, amount),
        timestamp,
        signature: signature_text(id, timestamp),
    }
}

/// Whether an entry names a sender and a receiver and moves a positive amount.
pub open spec fn valid_entry(t: TransactionView) -> bool {
    t.sender.len() > 0 && t.receiver.len() > 0 && t.amount > 0
}

impl Clone for Transaction {
    fn clone(&self) -> (copy: Self)
        ensures
            copy@ == self@,
    {
        Transaction {
            id: self.id.clone(),
            transaction_type: self.transaction_type.clone(),
            sender: self.sender.clone(),
            receiver: self.receiver.clone(),
            amount: self.amount,
            fee: self.fee,
            timestamp: self.timestamp,
            signature: self.signature.clone(),
        }
    }
}

/// Copies a list of entries.
pub fn clone_transactions(transactions: &Vec<Transaction>) -> (copy: Vec<Transaction>)
    ensures
        tx_views(copy@) == tx_views(transactions@),
{
    let mut copy: Vec<Transaction> = Vec::new();
    let mut i: usize = 0;
    while i < transactions.len()
        invariant
            i <= transactions.len(),
            tx_views(copy@) == tx_views(transactions@).take(i as int),
        decreases transactions.len() - i,
    {
        let ghost before = copy@;
        let entry = transactions[i].clone();
        copy.push(entry);
        assert(tx_views(copy@) =~= tx_views(before).push(entry@));
        assert(tx_views(copy@) =~= tx_views(transactions@).take(i + 1));
        i = i + 1;
    }
    assert(tx_views(transactions@).take(i as int) =~= tx_views(transactions@));
    copy
}

impl Transaction {
    /// Creates an entry stamped with the current time.
    pub fn new(sender: String, receiver: String, amount: u64, transaction_type: TransactionType) -> (tx:
        Self)
        ensures
            tx@ == created(sender@, receiver@, amount, transaction_type@, tx.timestamp),
    {
        let now = current_timestamp();
        Transaction::at(sender, receiver, amount, transaction_type, now)
    }

    /// Creates the entry that the given parts make at the given time.
    pub fn at(
        sender: String,
        receiver: String,
        amount: u64,
        transaction_type: TransactionType,
        timestamp: i64,
    ) -> (tx: Self)
        ensures
            tx@ == created(sender@, receiver@, amount, transaction_type@, timestamp),
    {
        let mut tx_data = sender.clone();
        push_text(&mut tx_data, &receiver);
        write_amount(&mut tx_data, amount);
        write_signed_decimal(&mut tx_data, timestamp);
        let id = calculate_hash(tx_data.as_str());

        let mut signed = id.clone();
        write_signed_decimal(&mut signed, timestamp);
        let mut signature = "sig_".to_owned();
        let digest = calculate_hash(signed.as_str());
        push_text(&mut signature, &digest);

        let due: u128 = match &transaction_type {
            TransactionType::Transfer => (amount / 1000) as u128,
            TransactionType::SmartContract(_) => (amount / 100) as u128 + 5000,
            TransactionType::Data(payload) => (amount / 200) as u128 + payload.len() as u128,
        };
        let fee: u64 = if due > u64::MAX as u128 {
            u64::MAX
        } else {
            due as u64
        };
        Transaction { id, transaction_type, sender, receiver, amount, fee, timestamp, signature }
    }

    /// Whether the entry names a sender and a receiver and moves a positive
    /// amount.
    pub fn is_valid(&self) -> (ok: bool)
        ensures
            ok == valid_entry(self@),
    {
        !self.sender.as_str().is_empty() && !self.receiver.as_str().is_empty() && self.amount > 0
    }
}

} // verus!
