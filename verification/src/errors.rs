//! The failures that ledger operations report.

use crate::text::{amount_text, push_text, write_amount};
use vstd::prelude::*;
use vstd::string::StringExecFns;

verus! {

/// Why an operation on the chain was refused.
#[derive(Debug)]
pub enum BlockchainError {
    /// The wallet holds less than the operation needs.
    InsufficientBalance { required: u64, available: u64 },
    /// The transaction, or a wallet it names, is not acceptable.
    InvalidTransaction(String),
    /// Kept for structural checks of blocks.
    InvalidBlock(String),
    /// The consensus rule did not finalize the block.
    ConsensusError(String),
}

/// A failure with its reason as a sequence of characters.
pub enum ErrorView {
    InsufficientBalance { required: u64, available: u64 },
    InvalidTransaction(Seq<char>),
    InvalidBlock(Seq<char>),
    ConsensusError(Seq<char>),
}

impl View for BlockchainError {
    type V = ErrorView;

    open spec fn view(&self) -> ErrorView {
        match self {
            BlockchainError::InsufficientBalance { required, available } => {
                ErrorView::InsufficientBalance { required: *required, available: *available }
            },
            BlockchainError::InvalidTransaction(reason) => ErrorView::InvalidTransaction(reason@),
            BlockchainError::InvalidBlock(reason) => ErrorView::InvalidBlock(reason@),
            BlockchainError::ConsensusError(reason) => ErrorView::ConsensusError(reason@),
        }
    }
}

/// The message a failure shows to a user.
pub open spec fn message_text(e: ErrorView) -> Seq<char> {
    match e {
        ErrorView::InsufficientBalance { required, available } => {
            "Insufficient funds: "@ + amount_text(required as nat) + " required, "@ + amount_text(
                available as nat,
            ) + " available"@
        },
        ErrorView::InvalidTransaction(reason) => "Invalid transaction: "@ + reason,
        ErrorView::InvalidBlock(reason) => "Invalid block: "@ + reason,
        ErrorView::ConsensusError(reason) => "Consensus error: "@ + reason,
    }
}

impl BlockchainError {
    /// The message of this failure.
    pub fn message(&self) -> (text: String)
        ensures
            text@ == message_text(self@),
    {
        match self {
            BlockchainError::InsufficientBalance { required, available } => {
                let mut out = "Insufficient funds: ".to_owned();
                write_amount(&mut out, *required);
                out.append(" required, ");
                write_amount(&mut out, *available);
                out.append(" available");
                out
            },
            BlockchainError::InvalidTransaction(reason) => {
                let mut out = "Invalid transaction: ".to_owned();
                push_text(&mut out, reason);
                out
            },
            BlockchainError::InvalidBlock(reason) => {
                let mut out = "Invalid block: ".to_owned();
                push_text(&mut out, reason);
                out
            },
            BlockchainError::ConsensusError(reason) => {
                let mut out = "Consensus error: ".to_owned();
                push_text(&mut out, reason);
                out
            },
        }
    }
}

} // verus!
