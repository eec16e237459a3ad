//! A staking-ledger engine: per-owner escrowed balances of fungible assets,
//! time-weighted reward accrual, lock-period withdrawal, and an admin-funded
//! treasury for reward payouts.
//!
//! The hosting execution environment (account storage, signature checking,
//! the clock, and the low-level movement of asset units between custody
//! accounts) is treated as an external collaborator: the engine receives the
//! current time and the caller's identity as plain values, and custody
//! balances live inside the engine state, guarded by derived capabilities.
//!
//! - [`state`] holds the records and their invariants;
//! - [`accrual`] is the reward-accrual arithmetic;
//! - [`engine`] holds the operations and their transition functions;
//! - [`laws`] proves the properties that span several operations;
//! - [`errors`] is the shared failure taxonomy.

pub mod accrual;
pub mod engine;
pub mod errors;
pub mod laws;
pub mod state;
