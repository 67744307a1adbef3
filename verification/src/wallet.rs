//! Wallets: spendable funds, staked funds and a log of entries.

use crate::errors::{BlockchainError, ErrorView};
use crate::text::{clone_texts, texts};
use vstd::prelude::*;

verus! {

/// The funds and the history of one address.
#[derive(Debug)]
pub struct Wallet {
    pub address: String,
    pub balance: u64,
    pub staking_balance: u64,
    pub transaction_history: Vec<String>,
}

/// A wallet with its texts as sequences of characters.
pub struct WalletView {
    pub address: Seq<char>,
    pub balance: u64,
    pub staking_balance: u64,
    pub history: Seq<Seq<char>>,
}

impl View for Wallet {
    type V = WalletView;

    open spec fn view(&self) -> WalletView {
        WalletView {
            address: self.address@,
            balance: self.balance,
            staking_balance: self.staking_balance,
            history: texts(self.transaction_history@),
        }
    }
}

/// The wallet that an address starts with: no funds, no history.
pub open spec fn fresh_wallet(address: Seq<char>) -> WalletView {
    WalletView { address, balance: 0, staking_balance: 0, history: Seq::empty() }
}

/// Whether each wallet of a table stands under its own address.
pub open spec fn keyed_by_address(wallets: Map<Seq<char>, WalletView>) -> bool {
    forall|a: Seq<char>| wallets.contains_key(a) ==> (#[trigger] wallets[a]).address == a
}

/// The sum of two amounts, held at the largest amount a wallet can carry.
pub open spec fn capped_sum(a: u64, b: u64) -> u64 {
    if a + b > u64::MAX {
        u64::MAX
    } else {
        (a + b) as u64
    }
}

/// Adds two amounts; a sum beyond the largest amount stays at that amount.
pub fn add_capped(a: u64, b: u64) -> (sum: u64)
    ensures
        sum == capped_sum(a, b),
{
    if a > u64::MAX - b {
        u64::MAX
    } else {
        a + b
    }
}

impl Clone for Wallet {
    fn clone(&self) -> (copy: Self)
        ensures
            copy@ == self@,
    {
        Wallet {
            address: self.address.clone(),
            balance: self.balance,
            staking_balance: self.staking_balance,
            transaction_history: clone_texts(&self.transaction_history),
        }
    }
}

impl Wallet {
    /// A wallet for the address, with no funds and no history.
    pub fn new(address: String) -> (wallet: Self)
        ensures
            wallet@ == fresh_wallet(address@),
    {
        let wallet = Wallet {
            address,
            balance: 0,
            staking_balance: 0,
            transaction_history: Vec::new(),
        };
        assert(texts(wallet.transaction_history@) =~= Seq::empty());
        wallet
    }

    /// Moves `amount` from the spendable balance to the staked balance, or
    /// reports that the balance is too small and changes nothing.
    pub fn stake(&mut self, amount: u64) -> (result: Result<(), BlockchainError>)
        ensures
            match result {
                Ok(_) => amount <= old(self).balance && final(self)@ == (WalletView {
                    balance: (old(self).balance - amount) as u64,
                    staking_balance: capped_sum(old(self).staking_balance, amount),
                    ..old(self)@
                }),
                Err(e) => amount > old(self).balance && *final(self) == *old(self) && e@ == (
                ErrorView::InsufficientBalance { required: amount, available: old(self).balance }),
            },
    {
        if amount > self.balance {
            return Err(
                BlockchainError::InsufficientBalance { required: amount, available: self.balance },
            );
        }
        self.balance = self.balance - amount;
        self.staking_balance = add_capped(self.staking_balance, amount);
        Ok(())
    }

    /// Moves `amount` from the staked balance back to the spendable balance,
    /// or reports that the stake is too small and changes nothing.
    pub fn unstake(&mut self, amount: u64) -> (result: Result<(), BlockchainError>)
        ensures
            match result {
                Ok(_) => amount <= old(self).staking_balance && final(self)@ == (WalletView {
                    balance: capped_sum(old(self).balance, amount),
                    staking_balance: (old(self).staking_balance - amount) as u64,
                    ..old(self)@
                }),
                Err(e) => amount > old(self).staking_balance && *final(self) == *old(self) && e@
                    == (ErrorView::InsufficientBalance {
                    required: amount,
                    available: old(self).staking_balance,
                }),
            },
    {
        if amount > self.staking_balance {
            return Err(
                BlockchainError::InsufficientBalance {
                    required: amount,
                    available: self.staking_balance,
                },
            );
        }
        self.staking_balance = self.staking_balance - amount;
        self.balance = add_capped(self.balance, amount);
        Ok(())
    }
}

} // verus!
