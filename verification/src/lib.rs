//! Trustless cross-chain swaps: a hash-time-locked escrow ledger, a Dutch
//! auction pricing engine and a solver settlement pipeline.

pub mod amount;
pub mod arith;
pub mod auction;
pub mod betting;
pub mod escrow;
pub mod hashlock;
pub mod htlc;
pub mod ids;
pub mod solver;
pub mod table;
