//! Tests of the reward-accrual engine: exact point values, floor
//! division, overflow handling, and the backward-time and idempotence
//! behaviour of `update_points`.

use staking_ledger::accrual::{calculate_points_earned, calculate_reward, update_points};
use staking_ledger::errors::CustomError;
use staking_ledger::state::UserStakeAccount;

fn account(staked: u64, points: u64, recent: i64) -> UserStakeAccount {
    UserStakeAccount {
        owner: 42,
        mint: 100,
        staked_amount: staked,
        claim_points: points,
        recent_update_time: recent,
        unlock_time: 0,
        bump: 1,
    }
}

#[test]
fn test_error_descriptions_nonempty() {
    let errors = [
        CustomError::InvalidAmount,
        CustomError::InsufficientBalance,
        CustomError::InsufficientStake,
        CustomError::Unauthorized,
        CustomError::Overflow,
        CustomError::Underflow,
        CustomError::InvalidTimestamp,
        CustomError::StakeLocked,
        CustomError::UnsupportedToken,
        CustomError::TokenAlreadySupported,
    ];
    for e in errors {
        assert!(!e.describe().is_empty());
    }
    assert_eq!(CustomError::StakeLocked.describe(), "stake is locked");
}

#[test]
fn test_points_one_unit_one_day() {
    // 1 unit at 1e9 scale held for exactly one day earns exactly
    // POINTS_PER_UNIT_PER_DAY micro-points.
    assert_eq!(calculate_points_earned(1_000_000_000, 86_400), Ok(1_000_000));
}

#[test]
fn test_points_half_day() {
    assert_eq!(calculate_points_earned(1_000_000_000, 43_200), Ok(500_000));
}

#[test]
fn test_points_zero_elapsed() {
    assert_eq!(calculate_points_earned(1_000_000_000, 0), Ok(0));
}

#[test]
fn test_points_floor_discards_fraction() {
    // One base unit for one second is far below one micro-point.
    assert_eq!(calculate_points_earned(1, 1), Ok(0));
}

#[test]
fn test_points_overflow() {
    assert_eq!(
        calculate_points_earned(u64::MAX, u64::MAX),
        Err(CustomError::Overflow)
    );
}

#[test]
fn test_reward_exact() {
    assert_eq!(calculate_reward(10, 5, 3), Ok(150));
}

#[test]
fn test_reward_zero_elapsed() {
    assert_eq!(calculate_reward(10, 0, 3), Ok(0));
}

#[test]
fn test_reward_overflow() {
    assert_eq!(calculate_reward(u64::MAX, 2, 1), Err(CustomError::Overflow));
}

#[test]
fn test_update_points_accrues() {
    let mut a = account(1_000_000_000, 7, 0);
    assert_eq!(update_points(&mut a, 86_400), Ok(()));
    assert_eq!(a.claim_points, 1_000_007);
    assert_eq!(a.recent_update_time, 86_400);
    assert_eq!(a.staked_amount, 1_000_000_000);
}

#[test]
fn test_update_points_backward_time_fails() {
    let mut a = account(1_000_000_000, 7, 1000);
    let before = a;
    assert_eq!(update_points(&mut a, 999), Err(CustomError::InvalidTimestamp));
    assert_eq!(a, before);
}

#[test]
fn test_update_points_idempotent() {
    let mut a = account(1_000_000_000, 0, 0);
    assert_eq!(update_points(&mut a, 86_400), Ok(()));
    let after_first = a;
    // Same timestamp again: elapsed is zero, so nothing accrues.
    assert_eq!(update_points(&mut a, 86_400), Ok(()));
    assert_eq!(a, after_first);
    assert_eq!(a.claim_points, 1_000_000);
}

#[test]
fn test_update_points_zero_stake_only_advances_clock() {
    let mut a = account(0, 5, 100);
    assert_eq!(update_points(&mut a, 2000), Ok(()));
    assert_eq!(a.claim_points, 5);
    assert_eq!(a.recent_update_time, 2000);
}

#[test]
fn test_update_points_points_overflow() {
    let mut a = account(1_000_000_000, u64::MAX, 0);
    let before = a;
    assert_eq!(update_points(&mut a, 86_400), Err(CustomError::Overflow));
    assert_eq!(a, before);
}
