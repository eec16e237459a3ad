//! End-to-end tests of the staking engine: each operation's effect, each
//! error variant, the lock window boundary, conservation of stakes, and
//! the treasury lifecycle.

use staking_ledger::engine::StakingEngine;
use staking_ledger::errors::CustomError;
use staking_ledger::state::MAX_SUPPORTED_TOKENS;

const ADMIN: u64 = 7;
const OWNER: u64 = 42;
const STAKING_MINT: u64 = 100;
const REWARD_MINT: u64 = 200;
const REWARD_RATE: u64 = 2;
const LOCK_DURATION: i64 = 100;

fn fresh_engine() -> StakingEngine {
    StakingEngine::initialize_pool(
        ADMIN,
        STAKING_MINT,
        REWARD_MINT,
        REWARD_RATE,
        LOCK_DURATION,
        1,
        2,
        300,
        3,
    )
}

#[test]
fn test_initialize_pool_state() {
    let eng = fresh_engine();
    assert_eq!(eng.pool.admin, ADMIN);
    assert_eq!(eng.pool.staking_mint, STAKING_MINT);
    assert_eq!(eng.pool.reward_mint, REWARD_MINT);
    assert_eq!(eng.pool.reward_rate, REWARD_RATE);
    assert_eq!(eng.pool.lock_duration, LOCK_DURATION);
    assert_eq!(eng.pool.supported_tokens.len(), 1);
    assert_eq!(eng.pool.supported_tokens[0].mint, STAKING_MINT);
    assert_eq!(eng.pool.supported_tokens[0].total_staked, 0);
    assert_eq!(eng.vaults.len(), 1);
    assert_eq!(eng.vaults[0].balance, 0);
    assert_eq!(eng.treasury.balance, 0);
    assert_eq!(eng.accounts.len(), 0);
}

#[test]
fn test_init_handler_creates_account() {
    let mut eng = fresh_engine();
    let idx = eng.init_handler(OWNER, STAKING_MINT, 50, 4);
    assert_eq!(idx, 0);
    let a = eng.accounts[0];
    assert_eq!(a.owner, OWNER);
    assert_eq!(a.mint, STAKING_MINT);
    assert_eq!(a.staked_amount, 0);
    assert_eq!(a.claim_points, 0);
    assert_eq!(a.recent_update_time, 50);
}

#[test]
fn test_stake_moves_units_into_vault() {
    let mut eng = fresh_engine();
    let idx = eng.init_handler(OWNER, STAKING_MINT, 50, 4);
    let mut wallet: u64 = 500;
    assert_eq!(eng.stake(OWNER, idx, 200, 60, &mut wallet), Ok(()));
    assert_eq!(wallet, 300);
    assert_eq!(eng.accounts[0].staked_amount, 200);
    assert_eq!(eng.accounts[0].unlock_time, 60 + LOCK_DURATION);
    assert_eq!(eng.vaults[0].balance, 200);
    assert_eq!(eng.pool.supported_tokens[0].total_staked, 200);
}

#[test]
fn test_stake_second_time_keeps_unlock() {
    let mut eng = fresh_engine();
    let idx = eng.init_handler(OWNER, STAKING_MINT, 50, 4);
    let mut wallet: u64 = 500;
    assert_eq!(eng.stake(OWNER, idx, 200, 60, &mut wallet), Ok(()));
    assert_eq!(eng.stake(OWNER, idx, 100, 90, &mut wallet), Ok(()));
    // Only the first stake sets the unlock time.
    assert_eq!(eng.accounts[0].unlock_time, 60 + LOCK_DURATION);
    assert_eq!(eng.accounts[0].staked_amount, 300);
    assert_eq!(eng.vaults[0].balance, 300);
}

#[test]
fn test_stake_zero_amount() {
    let mut eng = fresh_engine();
    let idx = eng.init_handler(OWNER, STAKING_MINT, 50, 4);
    let mut wallet: u64 = 500;
    assert_eq!(
        eng.stake(OWNER, idx, 0, 60, &mut wallet),
        Err(CustomError::InvalidAmount)
    );
    assert_eq!(wallet, 500);
    assert_eq!(eng.vaults[0].balance, 0);
}

#[test]
fn test_stake_unauthorized() {
    let mut eng = fresh_engine();
    let idx = eng.init_handler(OWNER, STAKING_MINT, 50, 4);
    let mut wallet: u64 = 500;
    assert_eq!(
        eng.stake(OWNER + 1, idx, 200, 60, &mut wallet),
        Err(CustomError::Unauthorized)
    );
    assert_eq!(wallet, 500);
}

#[test]
fn test_stake_insufficient_balance() {
    let mut eng = fresh_engine();
    let idx = eng.init_handler(OWNER, STAKING_MINT, 50, 4);
    let mut wallet: u64 = 100;
    assert_eq!(
        eng.stake(OWNER, idx, 200, 60, &mut wallet),
        Err(CustomError::InsufficientBalance)
    );
    assert_eq!(wallet, 100);
    assert_eq!(eng.accounts[0].staked_amount, 0);
}

#[test]
fn test_stake_unsupported_token() {
    let mut eng = fresh_engine();
    let idx = eng.init_handler(OWNER, 999, 50, 4);
    let mut wallet: u64 = 500;
    assert_eq!(
        eng.stake(OWNER, idx, 200, 60, &mut wallet),
        Err(CustomError::UnsupportedToken)
    );
    assert_eq!(wallet, 500);
}

#[test]
fn test_stake_backward_time() {
    let mut eng = fresh_engine();
    let idx = eng.init_handler(OWNER, STAKING_MINT, 50, 4);
    let mut wallet: u64 = 500;
    assert_eq!(
        eng.stake(OWNER, idx, 200, 40, &mut wallet),
        Err(CustomError::InvalidTimestamp)
    );
    assert_eq!(wallet, 500);
}

#[test]
fn test_unstake_roundtrip_with_reward() {
    let mut eng = fresh_engine();
    let mut admin_wallet: u64 = 60_000;
    assert_eq!(eng.fund_treasury(ADMIN, 50_000, &mut admin_wallet), Ok(()));
    assert_eq!(admin_wallet, 10_000);
    assert_eq!(eng.treasury.balance, 50_000);

    let idx = eng.init_handler(OWNER, STAKING_MINT, 50, 4);
    let mut wallet: u64 = 500;
    let mut reward_wallet: u64 = 0;
    assert_eq!(eng.stake(OWNER, idx, 200, 60, &mut wallet), Ok(()));

    // Exactly at the unlock time the lock no longer refuses.
    let unlock = 60 + LOCK_DURATION;
    assert_eq!(
        eng.unstake(OWNER, idx, 200, unlock, &mut wallet, &mut reward_wallet),
        Ok(())
    );
    assert_eq!(wallet, 500);
    // reward = amount * elapsed * rate = 200 * 100 * 2
    assert_eq!(reward_wallet, 40_000);
    assert_eq!(eng.treasury.balance, 10_000);
    assert_eq!(eng.vaults[0].balance, 0);
    assert_eq!(eng.pool.supported_tokens[0].total_staked, 0);
    assert_eq!(eng.accounts[0].staked_amount, 0);
}

#[test]
fn test_unstake_insufficient_stake() {
    let mut eng = fresh_engine();
    let idx = eng.init_handler(OWNER, STAKING_MINT, 50, 4);
    let mut wallet: u64 = 500;
    let mut reward_wallet: u64 = 0;
    assert_eq!(eng.stake(OWNER, idx, 200, 60, &mut wallet), Ok(()));
    assert_eq!(
        eng.unstake(OWNER, idx, 201, 1000, &mut wallet, &mut reward_wallet),
        Err(CustomError::InsufficientStake)
    );
    // Nothing moved: stake, vault and treasury are as they were.
    assert_eq!(eng.accounts[0].staked_amount, 200);
    assert_eq!(eng.vaults[0].balance, 200);
    assert_eq!(eng.treasury.balance, 0);
    assert_eq!(wallet, 300);
    assert_eq!(reward_wallet, 0);
}

#[test]
fn test_unstake_locked_before_unlock_time() {
    let mut eng = fresh_engine();
    let idx = eng.init_handler(OWNER, STAKING_MINT, 50, 4);
    let mut wallet: u64 = 500;
    let mut reward_wallet: u64 = 0;
    assert_eq!(eng.stake(OWNER, idx, 200, 60, &mut wallet), Ok(()));
    let unlock = 60 + LOCK_DURATION;
    assert_eq!(
        eng.unstake(OWNER, idx, 100, unlock - 1, &mut wallet, &mut reward_wallet),
        Err(CustomError::StakeLocked)
    );
    assert_eq!(eng.accounts[0].staked_amount, 200);
    assert_eq!(wallet, 300);
}

#[test]
fn test_unstake_treasury_underflow() {
    let mut eng = fresh_engine();
    let idx = eng.init_handler(OWNER, STAKING_MINT, 50, 4);
    let mut wallet: u64 = 500;
    let mut reward_wallet: u64 = 0;
    assert_eq!(eng.stake(OWNER, idx, 200, 60, &mut wallet), Ok(()));
    // The treasury was never funded, so the reward cannot be paid.
    assert_eq!(
        eng.unstake(OWNER, idx, 200, 160, &mut wallet, &mut reward_wallet),
        Err(CustomError::Underflow)
    );
    assert_eq!(eng.accounts[0].staked_amount, 200);
    assert_eq!(eng.vaults[0].balance, 200);
    assert_eq!(wallet, 300);
    assert_eq!(reward_wallet, 0);
}

#[test]
fn test_claim_rewards_pays_and_resets() {
    let mut eng = fresh_engine();
    let mut admin_wallet: u64 = 60_000;
    assert_eq!(eng.fund_treasury(ADMIN, 50_000, &mut admin_wallet), Ok(()));
    let idx = eng.init_handler(OWNER, STAKING_MINT, 50, 4);
    let mut wallet: u64 = 500;
    let mut reward_wallet: u64 = 0;
    assert_eq!(eng.stake(OWNER, idx, 200, 60, &mut wallet), Ok(()));
    // reward = staked * elapsed * rate = 200 * 50 * 2
    assert_eq!(eng.claim_rewards(OWNER, idx, 110, &mut reward_wallet), Ok(()));
    assert_eq!(reward_wallet, 20_000);
    assert_eq!(eng.treasury.balance, 30_000);
    assert_eq!(eng.accounts[0].claim_points, 0);
    assert_eq!(eng.accounts[0].recent_update_time, 110);
    // The escrowed stake itself is untouched.
    assert_eq!(eng.accounts[0].staked_amount, 200);
    assert_eq!(eng.vaults[0].balance, 200);
}

#[test]
fn test_claim_rewards_unauthorized() {
    let mut eng = fresh_engine();
    let idx = eng.init_handler(OWNER, STAKING_MINT, 50, 4);
    let mut reward_wallet: u64 = 0;
    assert_eq!(
        eng.claim_rewards(OWNER + 1, idx, 110, &mut reward_wallet),
        Err(CustomError::Unauthorized)
    );
    assert_eq!(reward_wallet, 0);
}

#[test]
fn test_add_token_then_duplicate() {
    let mut eng = fresh_engine();
    assert_eq!(eng.add_supported_token(ADMIN, 101, 301, 5, 9), Ok(()));
    assert_eq!(eng.pool.supported_tokens.len(), 2);
    assert_eq!(eng.pool.supported_tokens[1].mint, 101);
    assert_eq!(eng.pool.supported_tokens[1].reward_rate, 9);
    assert_eq!(eng.vaults.len(), 2);
    // Second registration of the same mint fails, length unchanged.
    assert_eq!(
        eng.add_supported_token(ADMIN, 101, 302, 6, 11),
        Err(CustomError::TokenAlreadySupported)
    );
    assert_eq!(eng.pool.supported_tokens.len(), 2);
}

#[test]
fn test_add_token_unauthorized() {
    let mut eng = fresh_engine();
    assert_eq!(
        eng.add_supported_token(ADMIN + 1, 101, 301, 5, 9),
        Err(CustomError::Unauthorized)
    );
    assert_eq!(eng.pool.supported_tokens.len(), 1);
}

#[test]
fn test_add_token_registry_full() {
    let mut eng = fresh_engine();
    for k in 0..(MAX_SUPPORTED_TOKENS as u64 - 1) {
        assert_eq!(eng.add_supported_token(ADMIN, 101 + k, 301 + k, 5, 9), Ok(()));
    }
    assert_eq!(eng.pool.supported_tokens.len(), MAX_SUPPORTED_TOKENS);
    assert_eq!(
        eng.add_supported_token(ADMIN, 900, 901, 5, 9),
        Err(CustomError::Overflow)
    );
    assert_eq!(eng.pool.supported_tokens.len(), MAX_SUPPORTED_TOKENS);
}

#[test]
fn test_stake_second_asset_uses_its_own_vault() {
    let mut eng = fresh_engine();
    assert_eq!(eng.add_supported_token(ADMIN, 101, 301, 5, 9), Ok(()));
    let idx_a = eng.init_handler(OWNER, STAKING_MINT, 50, 4);
    let idx_b = eng.init_handler(OWNER, 101, 50, 5);
    let mut wallet_a: u64 = 500;
    let mut wallet_b: u64 = 800;
    assert_eq!(eng.stake(OWNER, idx_a, 200, 60, &mut wallet_a), Ok(()));
    assert_eq!(eng.stake(OWNER, idx_b, 700, 60, &mut wallet_b), Ok(()));
    assert_eq!(eng.vaults[0].balance, 200);
    assert_eq!(eng.vaults[1].balance, 700);
    assert_eq!(eng.pool.supported_tokens[0].total_staked, 200);
    assert_eq!(eng.pool.supported_tokens[1].total_staked, 700);
}

#[test]
fn test_fund_treasury_checks() {
    let mut eng = fresh_engine();
    let mut admin_wallet: u64 = 100;
    assert_eq!(
        eng.fund_treasury(ADMIN + 1, 50, &mut admin_wallet),
        Err(CustomError::Unauthorized)
    );
    assert_eq!(
        eng.fund_treasury(ADMIN, 0, &mut admin_wallet),
        Err(CustomError::InvalidAmount)
    );
    assert_eq!(
        eng.fund_treasury(ADMIN, 101, &mut admin_wallet),
        Err(CustomError::InsufficientBalance)
    );
    assert_eq!(eng.fund_treasury(ADMIN, 60, &mut admin_wallet), Ok(()));
    assert_eq!(admin_wallet, 40);
    assert_eq!(eng.treasury.balance, 60);
}

#[test]
fn test_fund_treasury_overflow() {
    let mut eng = fresh_engine();
    let mut admin_wallet: u64 = u64::MAX;
    assert_eq!(eng.fund_treasury(ADMIN, u64::MAX, &mut admin_wallet), Ok(()));
    let mut more: u64 = 10;
    assert_eq!(
        eng.fund_treasury(ADMIN, 1, &mut more),
        Err(CustomError::Overflow)
    );
    assert_eq!(more, 10);
}

#[test]
fn test_update_admin() {
    let mut eng = fresh_engine();
    assert_eq!(eng.update_admin(ADMIN, 77), Ok(()));
    assert_eq!(eng.pool.admin, 77);
    // The old admin no longer passes the guard.
    assert_eq!(eng.update_admin(ADMIN, 78), Err(CustomError::Unauthorized));
    assert_eq!(eng.pool.admin, 77);
}

#[test]
fn test_fund_then_close_returns_treasury_to_admin() {
    let mut eng = fresh_engine();
    let mut admin_wallet: u64 = 60_000;
    assert_eq!(eng.fund_treasury(ADMIN, 50_000, &mut admin_wallet), Ok(()));
    let pre_close_treasury = eng.treasury.balance;
    match eng.close_pool(ADMIN, &mut admin_wallet) {
        Ok(residual) => {
            assert_eq!(residual, pre_close_treasury);
            assert_eq!(admin_wallet, 10_000 + pre_close_treasury);
        }
        Err(_) => panic!("close_pool refused the admin"),
    }
}

#[test]
fn test_close_pool_unauthorized_hands_engine_back() {
    let eng = fresh_engine();
    let mut wallet: u64 = 9;
    match eng.close_pool(ADMIN + 1, &mut wallet) {
        Ok(_) => panic!("close_pool accepted a non-admin"),
        Err((back, e)) => {
            assert_eq!(e, CustomError::Unauthorized);
            assert_eq!(back.pool.admin, ADMIN);
            assert_eq!(wallet, 9);
        }
    }
}

#[test]
fn test_recent_update_time_monotonic_across_operations() {
    let mut eng = fresh_engine();
    let mut admin_wallet: u64 = 100_000;
    assert_eq!(eng.fund_treasury(ADMIN, 90_000, &mut admin_wallet), Ok(()));
    let idx = eng.init_handler(OWNER, STAKING_MINT, 50, 4);
    let mut wallet: u64 = 1000;
    let mut reward_wallet: u64 = 0;
    let mut last = eng.accounts[0].recent_update_time;

    assert_eq!(eng.stake(OWNER, idx, 200, 60, &mut wallet), Ok(()));
    assert!(eng.accounts[0].recent_update_time >= last);
    last = eng.accounts[0].recent_update_time;

    assert_eq!(eng.claim_rewards(OWNER, idx, 80, &mut reward_wallet), Ok(()));
    assert!(eng.accounts[0].recent_update_time >= last);
    last = eng.accounts[0].recent_update_time;

    assert_eq!(eng.stake(OWNER, idx, 100, 80, &mut wallet), Ok(()));
    assert!(eng.accounts[0].recent_update_time >= last);
    last = eng.accounts[0].recent_update_time;

    assert_eq!(
        eng.unstake(OWNER, idx, 300, 200, &mut wallet, &mut reward_wallet),
        Ok(())
    );
    assert!(eng.accounts[0].recent_update_time >= last);
}

#[test]
fn test_stake_unstake_conservation() {
    let mut eng = fresh_engine();
    let mut admin_wallet: u64 = 1_000_000;
    assert_eq!(eng.fund_treasury(ADMIN, 900_000, &mut admin_wallet), Ok(()));
    let idx = eng.init_handler(OWNER, STAKING_MINT, 0, 4);
    let mut wallet: u64 = 1000;
    let mut reward_wallet: u64 = 0;
    assert_eq!(eng.stake(OWNER, idx, 200, 10, &mut wallet), Ok(()));
    assert_eq!(eng.stake(OWNER, idx, 300, 20, &mut wallet), Ok(()));
    assert_eq!(
        eng.unstake(OWNER, idx, 100, 500, &mut wallet, &mut reward_wallet),
        Ok(())
    );
    // Sum of stakes minus sum of unstakes is the staked amount, and the
    // vault holds exactly that.
    assert_eq!(eng.accounts[0].staked_amount, 200 + 300 - 100);
    assert_eq!(eng.vaults[0].balance, 400);
    assert_eq!(eng.pool.supported_tokens[0].total_staked, 400);
    assert_eq!(wallet, 1000 - 200 - 300 + 100);
}
