//! Read-only projections of the chain: the entries of an address, and the
//! entry with a given identifier.

use crate::block::BlockView;
use crate::blockchain::{block_views, Blockchain};
use crate::transaction::{tx_views, Transaction, TransactionView};
use vstd::prelude::*;

verus! {

/// Whether an address is the sender or the receiver of an entry.
pub open spec fn involves(t: TransactionView, address: Seq<char>) -> bool {
    t.sender == address || t.receiver == address
}

/// The entries of a list that involve an address, in order.
pub open spec fn entries_of(txs: Seq<TransactionView>, address: Seq<char>) -> Seq<
    TransactionView,
>
    decreases txs.len(),
{
    if txs.len() == 0 {
        Seq::empty()
    } else if involves(txs.last(), address) {
        entries_of(txs.drop_last(), address).push(txs.last())
    } else {
        entries_of(txs.drop_last(), address)
    }
}

/// The entries of a chain that involve an address, block by block.
pub open spec fn history_of(chain: Seq<BlockView>, address: Seq<char>) -> Seq<TransactionView>
    decreases chain.len(),
{
    if chain.len() == 0 {
        Seq::empty()
    } else {
        history_of(chain.drop_last(), address) + entries_of(chain.last().transactions, address)
    }
}

/// The first entry of a list with the given identifier, if there is one.
pub open spec fn first_with_id(txs: Seq<TransactionView>, id: Seq<char>) -> Option<
    TransactionView,
>
    decreases txs.len(),
{
    if txs.len() == 0 {
        None
    } else if txs[0].id == id {
        Some(txs[0])
    } else {
        first_with_id(txs.skip(1), id)
    }
}

/// The first entry of a chain with the given identifier, if there is one.
pub open spec fn entry_with_id(chain: Seq<BlockView>, id: Seq<char>) -> Option<TransactionView>
    decreases chain.len(),
{
    if chain.len() == 0 {
        None
    } else if first_with_id(chain[0].transactions, id) is Some {
        first_with_id(chain[0].transactions, id)
    } else {
        entry_with_id(chain.skip(1), id)
    }
}

impl Blockchain {
    /// The entries of the chain that the address sent or received, in the
    /// order of the chain.
    pub fn get_transaction_history(&self, address: &str) -> (history: Vec<Transaction>)
        ensures
            tx_views(history@) == history_of(block_views(self.chain@), address@),
    {
        let key = address.to_owned();
        let ghost chain = block_views(self.chain@);
        let mut history: Vec<Transaction> = Vec::new();
        let mut b: usize = 0;
        assert(tx_views(history@) =~= history_of(chain.take(0), address@));
        while b < self.chain.len()
            invariant
                b <= self.chain.len(),
                key@ == address@,
                chain == block_views(self.chain@),
                tx_views(history@) == history_of(chain.take(b as int), address@),
            decreases self.chain.len() - b,
        {
            let block = &self.chain[b];
            let ghost before = tx_views(history@);
            let ghost txs = tx_views(block.transactions@);
            let mut t: usize = 0;
            assert(tx_views(history@) =~= before + entries_of(txs.take(0), address@));
            while t < block.transactions.len()
                invariant
                    t <= block.transactions.len(),
                    key@ == address@,
                    txs == tx_views(block.transactions@),
                    tx_views(history@) == before + entries_of(txs.take(t as int), address@),
                decreases block.transactions.len() - t,
            {
                let tx = &block.transactions[t];
                let ghost held = history@;
                proof {
                    assert(txs.take(t + 1).drop_last() =~= txs.take(t as int));
                    assert(txs.take(t + 1).last() == tx@);
                }
                if tx.sender == key || tx.receiver == key {
                    let entry = tx.clone();
                    history.push(entry);
                    assert(tx_views(history@) =~= tx_views(held).push(tx@));
                    assert(tx_views(history@) =~= before + entries_of(
                        txs.take(t + 1),
                        address@,
                    ));
                }
                t = t + 1;
            }
            proof {
                assert(txs.take(t as int) =~= txs);
                assert(chain.take(b + 1).drop_last() =~= chain.take(b as int));
                assert(chain.take(b + 1).last().transactions == txs);
            }
            b = b + 1;
        }
        assert(chain.take(b as int) =~= chain);
        history
    }

    /// The first entry of the chain with the given identifier, if there is
    /// one.
    pub fn find_transaction(&self, tx_id: &str) -> (found: Option<Transaction>)
        ensures
            match found {
                Some(tx) => entry_with_id(block_views(self.chain@), tx_id@) == Some(tx@),
                None => entry_with_id(block_views(self.chain@), tx_id@) is None,
            },
    {
        let key = tx_id.to_owned();
        let ghost chain = block_views(self.chain@);
        let mut b: usize = 0;
        assert(chain.skip(0) =~= chain);
        while b < self.chain.len()
            invariant
                b <= self.chain.len(),
                key@ == tx_id@,
                chain == block_views(self.chain@),
                entry_with_id(chain, tx_id@) == entry_with_id(chain.skip(b as int), tx_id@),
            decreases self.chain.len() - b,
        {
            let block = &self.chain[b];
            let ghost txs = tx_views(block.transactions@);
            let mut t: usize = 0;
            assert(txs.skip(0) =~= txs);
            assert(chain.skip(b as int)[0].transactions == txs);
            while t < block.transactions.len()
                invariant
                    t <= block.transactions.len(),
                    key@ == tx_id@,
                    txs == tx_views(block.transactions@),
                    b < chain.len(),
                    chain == block_views(self.chain@),
                    chain.skip(b as int)[0].transactions == txs,
                    entry_with_id(chain, tx_id@) == entry_with_id(chain.skip(b as int), tx_id@),
                    first_with_id(txs, tx_id@) == first_with_id(txs.skip(t as int), tx_id@),
                decreases block.transactions.len() - t,
            {
                let tx = &block.transactions[t];
                assert(txs.skip(t as int)[0] == tx@);
                if tx.id == key {
                    return Some(tx.clone());
                }
                assert(txs.skip(t as int).skip(1) =~= txs.skip(t + 1));
                t = t + 1;
            }
            proof {
                assert(chain.skip(b as int)[0].transactions == txs);
                assert(chain.skip(b as int).skip(1) =~= chain.skip(b + 1));
            }
            b = b + 1;
        }
        None
    }
}

} // verus!
