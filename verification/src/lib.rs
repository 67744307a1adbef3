//! A single-node ledger: transactions are admitted against wallet balances,
//! gathered into hash-linked blocks, and finalized under one of three
//! consensus rules.
//!
//! Amounts are whole numbers of the smallest unit, of which ten thousand make
//! one coin. Fees that are a share of an amount are rounded down to a whole
//! unit. A balance, a fee or a reward never exceeds `u64::MAX` units: a sum
//! that would is held there.
//!
//! The clock and the random draws are read at the edge of the library. Each
//! function that reads them has a twin that takes the time or the draw as
//! an argument and says exactly what it does with it.

pub mod text;
pub mod hashing;
pub mod sources;
pub mod errors;
pub mod transaction;
pub mod address_map;
pub mod wallet;
pub mod block;
pub mod blockchain;
pub mod production;
pub mod audit;
pub mod queries;
pub mod contracts;
