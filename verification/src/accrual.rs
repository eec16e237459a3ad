//! The reward-accrual engine.
//!
//! Accrual is lazy: points are recomputed on demand at the start of every
//! mutating operation, never by a background process. All arithmetic is
//! checked, with 128-bit intermediates across the multiplications; integer
//! division discards the fractional remainder permanently (documented
//! precision loss, not an error).

use vstd::prelude::*;

use crate::errors::CustomError;
use crate::state::UserStakeAccount;

verus! {

/// Micro-points accrued by one whole asset unit over one day.
pub const POINTS_PER_UNIT_PER_DAY: u64 = 1_000_000;

/// Base units in one whole asset unit.
pub const ASSET_UNIT_SCALE: u64 = 1_000_000_000;

/// Seconds in one day.
pub const SECONDS_PER_DAY: u64 = 86_400;

/// What `calculate_points_earned` returns: the floor of
/// `staked_amount * elapsed * POINTS_PER_UNIT_PER_DAY / ASSET_UNIT_SCALE / SECONDS_PER_DAY`,
/// or `Overflow` when the product exceeds the 128-bit intermediate or the
/// quotient exceeds `u64::MAX`.
pub open spec fn points_calc(staked_amount: u64, elapsed: u64) -> Result<u64, CustomError> {
    let wide = staked_amount * elapsed * POINTS_PER_UNIT_PER_DAY;
    let quotient = wide / (ASSET_UNIT_SCALE as int) / (SECONDS_PER_DAY as int);
    if wide > u128::MAX {
        Err(CustomError::Overflow)
    } else if quotient > u64::MAX {
        Err(CustomError::Overflow)
    } else {
        Ok(quotient as u64)
    }
}

/// What `calculate_reward` returns: `staked_amount * elapsed * reward_rate`
/// (no micro-point scaling), or `Overflow` when that exceeds `u64::MAX`.
pub open spec fn reward_calc(staked_amount: u64, elapsed: u64, reward_rate: u64) -> Result<
    u64,
    CustomError,
> {
    let wide = staked_amount * elapsed * reward_rate;
    if wide > u64::MAX {
        Err(CustomError::Overflow)
    } else {
        Ok(wide as u64)
    }
}

/// What `update_points` does to a stake account: refuse backward time,
/// otherwise accrue `points_calc` into `claim_points` (when any time has
/// passed and anything is staked) and advance `recent_update_time` to `now`
/// unconditionally.
pub open spec fn update_points_outcome(a: UserStakeAccount, now: i64) -> Result<
    UserStakeAccount,
    CustomError,
> {
    if now < a.recent_update_time {
        Err(CustomError::InvalidTimestamp)
    } else {
        let elapsed = (now - a.recent_update_time) as u64;
        if elapsed > 0 && a.staked_amount > 0 {
            match points_calc(a.staked_amount, elapsed) {
                Ok(p) => if a.claim_points + p > u64::MAX {
                    Err(CustomError::Overflow)
                } else {
                    Ok(
                        UserStakeAccount {
                            claim_points: (a.claim_points + p) as u64,
                            recent_update_time: now,
                            ..a
                        },
                    )
                },
                Err(e) => Err(e),
            }
        } else {
            Ok(UserStakeAccount { recent_update_time: now, ..a })
        }
    }
}

/// Micro-points earned by `staked_amount` base units over `time_elapsed_seconds`.
///
/// The two multiplications are evaluated in 128 bits; the first cannot
/// overflow there, the second is checked. Both divisions are by nonzero
/// constants and floor the result.
pub fn calculate_points_earned(staked_amount: u64, time_elapsed_seconds: u64) -> (r: Result<
    u64,
    CustomError,
>)
    ensures
        r == points_calc(staked_amount, time_elapsed_seconds),
{
    assert(staked_amount * time_elapsed_seconds <= u128::MAX) by (nonlinear_arith);
    let base: u128 = (staked_amount as u128) * (time_elapsed_seconds as u128);
    let scaled = match base.checked_mul(POINTS_PER_UNIT_PER_DAY as u128) {
        Some(v) => v,
        None => {
            return Err(CustomError::Overflow);
        },
    };
    let quotient = scaled / (ASSET_UNIT_SCALE as u128) / (SECONDS_PER_DAY as u128);
    if quotient > u64::MAX as u128 {
        return Err(CustomError::Overflow);
    }
    Ok(quotient as u64)
}

/// Reward units owed for `staked_amount` units held over `time_elapsed`
/// at `reward_rate` reward units per staked unit per second.
pub fn calculate_reward(staked_amount: u64, time_elapsed: u64, reward_rate: u64) -> (r: Result<
    u64,
    CustomError,
>)
    ensures
        r == reward_calc(staked_amount, time_elapsed, reward_rate),
{
    assert(staked_amount * time_elapsed <= u128::MAX) by (nonlinear_arith);
    let base: u128 = (staked_amount as u128) * (time_elapsed as u128);
    let wide = match base.checked_mul(reward_rate as u128) {
        Some(v) => v,
        None => {
            return Err(CustomError::Overflow);
        },
    };
    if wide > u64::MAX as u128 {
        return Err(CustomError::Overflow);
    }
    Ok(wide as u64)
}

/// Lazily accrues reward points on `pda_account` up to `current_time`.
///
/// Fails with `InvalidTimestamp` when time moved backward and with
/// `Overflow` when the accrual arithmetic does not fit; on any failure the
/// account is left exactly as it was.
pub fn update_points(pda_account: &mut UserStakeAccount, current_time: i64) -> (r: Result<
    (),
    CustomError,
>)
    ensures
        match update_points_outcome(*old(pda_account), current_time) {
            Ok(a2) => r == Ok::<(), CustomError>(()) && *final(pda_account) == a2,
            Err(e) => r == Err::<(), CustomError>(e) && *final(pda_account) == *old(pda_account),
        },
        final(pda_account).recent_update_time >= old(pda_account).recent_update_time,
{
    let a = *pda_account;
    if current_time < a.recent_update_time {
        return Err(CustomError::InvalidTimestamp);
    }
    let elapsed_wide: i128 = (current_time as i128) - (a.recent_update_time as i128);
    assert(0 <= elapsed_wide <= u64::MAX);
    let elapsed: u64 = elapsed_wide as u64;
    if elapsed > 0 && a.staked_amount > 0 {
        let p = match calculate_points_earned(a.staked_amount, elapsed) {
            Ok(p) => p,
            Err(e) => {
                return Err(e);
            },
        };
        let new_points = match a.claim_points.checked_add(p) {
            Some(v) => v,
            None => {
                return Err(CustomError::Overflow);
            },
        };
        pda_account.claim_points = new_points;
    }
    pda_account.recent_update_time = current_time;
    Ok(())
}

/// Time never moves backward: whenever `now` is before the account's last
/// accrual, `update_points` fails with `InvalidTimestamp` (and, by the
/// function's contract, leaves the account untouched).
pub proof fn lemma_update_points_rejects_backward_time(a: UserStakeAccount, now: i64)
    requires
        now < a.recent_update_time,
    ensures
        update_points_outcome(a, now) == Err::<UserStakeAccount, CustomError>(
            CustomError::InvalidTimestamp,
        ),
{
}

/// Accrual is idempotent in its timestamp: once `update_points` has run at
/// `now`, running it again at the same `now` succeeds and changes nothing —
/// in particular `claim_points` stays as it is.
pub proof fn lemma_update_points_idempotent(a: UserStakeAccount, now: i64)
    requires
        update_points_outcome(a, now) is Ok,
    ensures
        update_points_outcome(update_points_outcome(a, now).unwrap(), now) == Ok::<
            UserStakeAccount,
            CustomError,
        >(update_points_outcome(a, now).unwrap()),
{
    let a2 = update_points_outcome(a, now).unwrap();
    assert(a2.recent_update_time == now);
}

} // verus!
