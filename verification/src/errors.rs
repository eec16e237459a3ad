//! The error taxonomy shared by every operation of the engine.
//!
//! Propagation is fail-fast: the first failing check aborts the operation
//! with no partial mutation, and the error is surfaced verbatim.

use vstd::prelude::*;

verus! {

/// Why an operation was refused. Every mutating operation either fully
/// completes or fails with one of these, leaving all state unchanged.
#[derive(Clone, Copy, Debug, PartialEq, Eq, Structural)]
pub enum CustomError {
    /// A zero amount was supplied where a positive amount is required.
    InvalidAmount,
    /// The caller's source balance does not cover the requested amount.
    InsufficientBalance,
    /// More was requested back than the account has staked.
    InsufficientStake,
    /// The caller is not the stored admin or owner, or a presented
    /// capability does not match the custody account's authority.
    Unauthorized,
    /// A checked addition or multiplication does not fit its type,
    /// or a bounded registry is full.
    Overflow,
    /// A checked subtraction would go below zero.
    Underflow,
    /// Time moved backward: `now` is before the record's last update.
    InvalidTimestamp,
    /// The lock period has not yet elapsed.
    StakeLocked,
    /// The asset is not in the pool's supported-asset registry.
    UnsupportedToken,
    /// The asset is already in the pool's supported-asset registry.
    TokenAlreadySupported,
}

impl CustomError {
    /// A short human-readable description of the error.
    pub fn describe(&self) -> (s: &'static str)
        ensures
            s@.len() > 0,
    {
        let s = match self {
            CustomError::InvalidAmount => "amount must be greater than 0",
            CustomError::InsufficientBalance => "insufficient balance",
            CustomError::InsufficientStake => "insufficient staked amount",
            CustomError::Unauthorized => "unauthorized access",
            CustomError::Overflow => "arithmetic overflow",
            CustomError::Underflow => "arithmetic underflow",
            CustomError::InvalidTimestamp => "invalid timestamp",
            CustomError::StakeLocked => "stake is locked",
            CustomError::UnsupportedToken => "token is not supported",
            CustomError::TokenAlreadySupported => "token already supported",
        };
        proof {
            reveal_strlit("amount must be greater than 0");
            reveal_strlit("insufficient balance");
            reveal_strlit("insufficient staked amount");
            reveal_strlit("unauthorized access");
            reveal_strlit("arithmetic overflow");
            reveal_strlit("arithmetic underflow");
            reveal_strlit("invalid timestamp");
            reveal_strlit("stake is locked");
            reveal_strlit("token is not supported");
            reveal_strlit("token already supported");
        }
        s
    }
}

} // verus!
