//! The staking engine: the pool configuration, the custody accounts, and
//! every stake ledger, mutated only by the operations defined here.
//!
//! Each operation is all-or-nothing: it either fully completes, or fails
//! with a `CustomError` and leaves every record exactly as it was. The
//! postcondition of each operation is stated against a spec-level
//! transition function (`stake_outcome`, `unstake_outcome`, ...), so the
//! exact effect — including which error comes on which input — is pinned
//! down once and shared by the inductive laws in `laws`.

use vstd::prelude::*;

use crate::accrual::{calculate_reward, reward_calc, update_points, update_points_outcome};
use crate::errors::CustomError;
use crate::state::{
    find_mint, lemma_staked_total_push, lemma_staked_total_update, lemma_staked_total_zero,
    mint_index, mint_supported, registry_wf, staked_total, treasury_capability, vault_capability,
    Capability, CustodyAccount, SeedLabel, StakingPool, StakingPoolView, SupportedToken,
    UserStakeAccount, MAX_SUPPORTED_TOKENS,
};

verus! {

/// The whole state one deployment works on.
pub struct StakingEngine {
    /// Admin-controlled configuration and the supported-asset registry.
    pub pool: StakingPool,
    /// One escrow vault per registry entry, in registry order.
    pub vaults: Vec<CustodyAccount>,
    /// The reward reserve, funded by the admin, debited by payouts.
    pub treasury: CustodyAccount,
    /// Every stake ledger record created so far.
    pub accounts: Vec<UserStakeAccount>,
}

/// Mathematical image of a `StakingEngine`.
#[verifier::ext_equal]
pub struct StakingEngineView {
    pub pool: StakingPoolView,
    pub vaults: Seq<CustodyAccount>,
    pub treasury: CustodyAccount,
    pub accounts: Seq<UserStakeAccount>,
}

impl View for StakingEngine {
    type V = StakingEngineView;

    open spec fn view(&self) -> StakingEngineView {
        StakingEngineView {
            pool: self.pool@,
            vaults: self.vaults@,
            treasury: self.treasury,
            accounts: self.accounts@,
        }
    }
}

/// The invariant every operation preserves:
/// - the registry is bounded and holds pairwise-distinct mints;
/// - there is exactly one vault per registry entry;
/// - each vault holds exactly its entry's `total_staked`, which in turn is
///   the sum of `staked_amount` over every account staking that mint;
/// - each custody account's stored authority is the capability derived
///   from the record data it belongs to;
/// - an account can only hold a stake in a registered mint.
pub open spec fn engine_wf(s: StakingEngineView) -> bool {
    &&& registry_wf(s.pool.supported_tokens)
    &&& s.vaults.len() == s.pool.supported_tokens.len()
    &&& forall|j: int|
        0 <= j < s.vaults.len() ==> (#[trigger] s.vaults[j]).balance
            == s.pool.supported_tokens[j].total_staked
    &&& forall|j: int|
        0 <= j < s.vaults.len() ==> (#[trigger] s.pool.supported_tokens[j]).total_staked as int
            == staked_total(s.accounts, s.pool.supported_tokens[j].mint)
    &&& forall|j: int|
        0 <= j < s.vaults.len() ==> (#[trigger] s.vaults[j]).authority == vault_capability(
            s.pool.supported_tokens[j],
        )
    &&& s.treasury.authority == treasury_capability(s.pool)
    &&& forall|i: int|
        0 <= i < s.accounts.len() && (#[trigger] s.accounts[i]).staked_amount > 0
            ==> mint_supported(s.pool.supported_tokens, s.accounts[i].mint)
}

/// The freshly created engine state: the primary staking asset is the one
/// registry entry, every balance is zero, and no stake account exists yet.
pub open spec fn initial_engine(
    admin: u64,
    staking_mint: u64,
    reward_mint: u64,
    reward_rate: u64,
    lock_duration: i64,
    pool_bump: u8,
    treasury_bump: u8,
    staking_vault: u64,
    staking_vault_bump: u8,
) -> StakingEngineView {
    let entry = SupportedToken {
        mint: staking_mint,
        vault: staking_vault,
        vault_bump: staking_vault_bump,
        reward_rate,
        total_staked: 0,
    };
    let pool = StakingPoolView {
        admin,
        staking_mint,
        reward_mint,
        reward_rate,
        lock_duration,
        pool_bump,
        treasury_bump,
        supported_tokens: seq![entry],
    };
    StakingEngineView {
        pool,
        vaults: seq![CustodyAccount { balance: 0, authority: vault_capability(entry) }],
        treasury: CustodyAccount { balance: 0, authority: treasury_capability(pool) },
        accounts: Seq::empty(),
    }
}

/// The record a first-time staker starts from: nothing staked, nothing
/// accrued, both timestamps at the creation time.
pub open spec fn new_stake_account(owner: u64, mint: u64, now: i64, bump: u8) -> UserStakeAccount {
    UserStakeAccount {
        owner,
        mint,
        staked_amount: 0,
        claim_points: 0,
        recent_update_time: now,
        unlock_time: now,
        bump,
    }
}

/// What `stake` does, including which error comes first on which input.
/// On success the new engine state and the staker's remaining source
/// balance are returned.
pub open spec fn stake_outcome(
    s: StakingEngineView,
    caller: u64,
    idx: int,
    amount: u64,
    now: i64,
    source: u64,
) -> Result<(StakingEngineView, u64), CustomError> {
    let a = s.accounts[idx];
    if amount == 0 {
        Err(CustomError::InvalidAmount)
    } else if caller != a.owner {
        Err(CustomError::Unauthorized)
    } else {
        match update_points_outcome(a, now) {
            Err(e) => Err(e),
            Ok(a2) => if source < amount {
                Err(CustomError::InsufficientBalance)
            } else if !mint_supported(s.pool.supported_tokens, a.mint) {
                Err(CustomError::UnsupportedToken)
            } else {
                let j = mint_index(s.pool.supported_tokens, a.mint);
                let entry = s.pool.supported_tokens[j];
                if a2.staked_amount + amount > u64::MAX {
                    Err(CustomError::Overflow)
                } else if entry.total_staked + amount > u64::MAX {
                    Err(CustomError::Overflow)
                } else if s.vaults[j].balance + amount > u64::MAX {
                    Err(CustomError::Overflow)
                } else if a2.staked_amount == 0 && (now + s.pool.lock_duration > i64::MAX || now
                    + s.pool.lock_duration < i64::MIN) {
                    Err(CustomError::Overflow)
                } else {
                    let unlock = if a2.staked_amount == 0 {
                        (now + s.pool.lock_duration) as i64
                    } else {
                        a2.unlock_time
                    };
                    let a3 = UserStakeAccount {
                        staked_amount: (a2.staked_amount + amount) as u64,
                        unlock_time: unlock,
                        ..a2
                    };
                    let entry2 = SupportedToken {
                        total_staked: (entry.total_staked + amount) as u64,
                        ..entry
                    };
                    let vault2 = CustodyAccount {
                        balance: (s.vaults[j].balance + amount) as u64,
                        ..s.vaults[j]
                    };
                    Ok(
                        (
                            StakingEngineView {
                                pool: StakingPoolView {
                                    supported_tokens: s.pool.supported_tokens.update(j, entry2),
                                    ..s.pool
                                },
                                vaults: s.vaults.update(j, vault2),
                                accounts: s.accounts.update(idx, a3),
                                ..s
                            },
                            (source - amount) as u64,
                        ),
                    )
                }
            },
        }
    }
}

/// What `unstake` does. On success the new engine state, the staker's new
/// asset balance, and the staker's new reward balance are returned. The
/// reward is computed from the unstaked amount and the time elapsed since
/// the last accrual, at the asset's reward rate.
pub open spec fn unstake_outcome(
    s: StakingEngineView,
    caller: u64,
    idx: int,
    amount: u64,
    now: i64,
    dest: u64,
    reward_dest: u64,
) -> Result<(StakingEngineView, u64, u64), CustomError> {
    let a = s.accounts[idx];
    if amount == 0 {
        Err(CustomError::InvalidAmount)
    } else if caller != a.owner {
        Err(CustomError::Unauthorized)
    } else if amount > a.staked_amount {
        Err(CustomError::InsufficientStake)
    } else if now < a.unlock_time {
        Err(CustomError::StakeLocked)
    } else if !mint_supported(s.pool.supported_tokens, a.mint) {
        Err(CustomError::UnsupportedToken)
    } else {
        let j = mint_index(s.pool.supported_tokens, a.mint);
        let entry = s.pool.supported_tokens[j];
        match update_points_outcome(a, now) {
            Err(e) => Err(e),
            Ok(a2) => {
                let elapsed = (now - a.recent_update_time) as u64;
                match reward_calc(amount, elapsed, entry.reward_rate) {
                    Err(e) => Err(e),
                    Ok(reward) => if vault_capability(entry) != s.vaults[j].authority {
                        Err(CustomError::Unauthorized)
                    } else if s.vaults[j].balance < amount {
                        Err(CustomError::Underflow)
                    } else if dest + amount > u64::MAX {
                        Err(CustomError::Overflow)
                    } else if treasury_capability(s.pool) != s.treasury.authority {
                        Err(CustomError::Unauthorized)
                    } else if s.treasury.balance < reward {
                        Err(CustomError::Underflow)
                    } else if reward_dest + reward > u64::MAX {
                        Err(CustomError::Overflow)
                    } else if entry.total_staked < amount {
                        Err(CustomError::Underflow)
                    } else {
                        let a3 = UserStakeAccount {
                            staked_amount: (a2.staked_amount - amount) as u64,
                            ..a2
                        };
                        let entry2 = SupportedToken {
                            total_staked: (entry.total_staked - amount) as u64,
                            ..entry
                        };
                        let vault2 = CustodyAccount {
                            balance: (s.vaults[j].balance - amount) as u64,
                            ..s.vaults[j]
                        };
                        let treasury2 = CustodyAccount {
                            balance: (s.treasury.balance - reward) as u64,
                            ..s.treasury
                        };
                        Ok(
                            (
                                StakingEngineView {
                                    pool: StakingPoolView {
                                        supported_tokens: s.pool.supported_tokens.update(j, entry2),
                                        ..s.pool
                                    },
                                    vaults: s.vaults.update(j, vault2),
                                    treasury: treasury2,
                                    accounts: s.accounts.update(idx, a3),
                                },
                                (dest + amount) as u64,
                                (reward_dest + reward) as u64,
                            ),
                        )
                    },
                }
            },
        }
    }
}

/// What `claim_rewards` does. The payout is `staked_amount * elapsed *
/// reward_rate` with no micro-point scaling; the accrued `claim_points`
/// are reset to zero and the accrual clock advances to `now`.
pub open spec fn claim_outcome(
    s: StakingEngineView,
    caller: u64,
    idx: int,
    now: i64,
    reward_dest: u64,
) -> Result<(StakingEngineView, u64), CustomError> {
    let a = s.accounts[idx];
    if caller != a.owner {
        Err(CustomError::Unauthorized)
    } else if now < a.recent_update_time {
        Err(CustomError::InvalidTimestamp)
    } else if !mint_supported(s.pool.supported_tokens, a.mint) {
        Err(CustomError::UnsupportedToken)
    } else {
        let j = mint_index(s.pool.supported_tokens, a.mint);
        let entry = s.pool.supported_tokens[j];
        let elapsed = (now - a.recent_update_time) as u64;
        match reward_calc(a.staked_amount, elapsed, entry.reward_rate) {
            Err(e) => Err(e),
            Ok(reward) => if treasury_capability(s.pool) != s.treasury.authority {
                Err(CustomError::Unauthorized)
            } else if s.treasury.balance < reward {
                Err(CustomError::Underflow)
            } else if reward_dest + reward > u64::MAX {
                Err(CustomError::Overflow)
            } else {
                let a2 = UserStakeAccount { claim_points: 0, recent_update_time: now, ..a };
                let treasury2 = CustodyAccount {
                    balance: (s.treasury.balance - reward) as u64,
                    ..s.treasury
                };
                Ok(
                    (
                        StakingEngineView {
                            treasury: treasury2,
                            accounts: s.accounts.update(idx, a2),
                            ..s
                        },
                        (reward_dest + reward) as u64,
                    ),
                )
            },
        }
    }
}

/// What `add_supported_token` does: admin-only, duplicate mints refused,
/// the bounded registry refuses further entries when full, and a new
/// entry starts with nothing staked and an empty vault.
pub open spec fn add_token_outcome(
    s: StakingEngineView,
    caller: u64,
    mint: u64,
    vault: u64,
    vault_bump: u8,
    reward_rate: u64,
) -> Result<StakingEngineView, CustomError> {
    if caller != s.pool.admin {
        Err(CustomError::Unauthorized)
    } else if mint_supported(s.pool.supported_tokens, mint) {
        Err(CustomError::TokenAlreadySupported)
    } else if s.pool.supported_tokens.len() >= MAX_SUPPORTED_TOKENS {
        Err(CustomError::Overflow)
    } else {
        let entry = SupportedToken { mint, vault, vault_bump, reward_rate, total_staked: 0 };
        Ok(
            StakingEngineView {
                pool: StakingPoolView {
                    supported_tokens: s.pool.supported_tokens.push(entry),
                    ..s.pool
                },
                vaults: s.vaults.push(
                    CustodyAccount { balance: 0, authority: vault_capability(entry) },
                ),
                ..s
            },
        )
    }
}

/// What `fund_treasury` does: admin-only, positive amounts only, and the
/// admin's source balance must cover the deposit.
pub open spec fn fund_treasury_outcome(
    s: StakingEngineView,
    caller: u64,
    amount: u64,
    source: u64,
) -> Result<(StakingEngineView, u64), CustomError> {
    if caller != s.pool.admin {
        Err(CustomError::Unauthorized)
    } else if amount == 0 {
        Err(CustomError::InvalidAmount)
    } else if source < amount {
        Err(CustomError::InsufficientBalance)
    } else if s.treasury.balance + amount > u64::MAX {
        Err(CustomError::Overflow)
    } else {
        Ok(
            (
                StakingEngineView {
                    treasury: CustodyAccount {
                        balance: (s.treasury.balance + amount) as u64,
                        ..s.treasury
                    },
                    ..s
                },
                (source - amount) as u64,
            ),
        )
    }
}

/// What `update_admin` does: admin-only replacement of the admin identity.
pub open spec fn update_admin_outcome(s: StakingEngineView, caller: u64, new_admin: u64) -> Result<
    StakingEngineView,
    CustomError,
> {
    if caller != s.pool.admin {
        Err(CustomError::Unauthorized)
    } else {
        Ok(
            StakingEngineView {
                pool: StakingPoolView { admin: new_admin, ..s.pool },
                ..s
            },
        )
    }
}

/// What `close_pool` does: admin-only; the whole remaining treasury
/// balance moves to the admin's destination balance, whose new value is
/// returned beside the residual that moved.
pub open spec fn close_pool_outcome(s: StakingEngineView, caller: u64, dest: u64) -> Result<
    (u64, u64),
    CustomError,
> {
    if caller != s.pool.admin {
        Err(CustomError::Unauthorized)
    } else if dest + s.treasury.balance > u64::MAX {
        Err(CustomError::Overflow)
    } else {
        Ok((s.treasury.balance, (dest + s.treasury.balance) as u64))
    }
}

/// Registries whose entries carry the same mints support the same assets.
proof fn lemma_same_mints_same_support(tokens1: Seq<SupportedToken>, tokens2: Seq<SupportedToken>)
    requires
        tokens1.len() == tokens2.len(),
        forall|x: int|
            0 <= x < tokens1.len() ==> (#[trigger] tokens2[x]).mint == tokens1[x].mint,
    ensures
        forall|m: u64| mint_supported(tokens1, m) == #[trigger] mint_supported(tokens2, m),
{
    assert forall|m: u64| mint_supported(tokens1, m) == #[trigger] mint_supported(tokens2, m) by {
        if mint_supported(tokens1, m) {
            let k = choose|k: int| 0 <= k < tokens1.len() && tokens1[k].mint == m;
            assert(tokens2[k].mint == m);
        }
        if mint_supported(tokens2, m) {
            let k = choose|k: int| 0 <= k < tokens2.len() && tokens2[k].mint == m;
            assert(tokens1[k].mint == m);
        }
    }
}

/// A successful `stake` preserves the engine invariant.
pub proof fn lemma_stake_preserves_wf(
    s: StakingEngineView,
    caller: u64,
    idx: int,
    amount: u64,
    now: i64,
    source: u64,
)
    requires
        engine_wf(s),
        0 <= idx < s.accounts.len(),
        stake_outcome(s, caller, idx, amount, now, source) is Ok,
    ensures
        engine_wf(stake_outcome(s, caller, idx, amount, now, source).unwrap().0),
{
    let a = s.accounts[idx];
    let a2 = update_points_outcome(a, now).unwrap();
    let tokens = s.pool.supported_tokens;
    let j = mint_index(tokens, a.mint);
    assert(0 <= j < tokens.len() && tokens[j].mint == a.mint);
    let s2 = stake_outcome(s, caller, idx, amount, now, source).unwrap().0;
    let a3 = s2.accounts[idx];
    let tokens2 = s2.pool.supported_tokens;
    assert(forall|x: int| 0 <= x < tokens.len() ==> (#[trigger] tokens2[x]).mint == tokens[x].mint);
    lemma_same_mints_same_support(tokens, tokens2);
    assert forall|jj: int| 0 <= jj < tokens2.len() implies (#[trigger] tokens2[jj]).total_staked
        as int == staked_total(s2.accounts, tokens2[jj].mint) by {
        lemma_staked_total_update(s.accounts, idx, a3, tokens[jj].mint);
        if jj != j {
            assert(tokens[jj].mint != tokens[j].mint);
        }
    }
    assert(engine_wf(s2));
}

/// A successful `unstake` preserves the engine invariant.
pub proof fn lemma_unstake_preserves_wf(
    s: StakingEngineView,
    caller: u64,
    idx: int,
    amount: u64,
    now: i64,
    dest: u64,
    reward_dest: u64,
)
    requires
        engine_wf(s),
        0 <= idx < s.accounts.len(),
        unstake_outcome(s, caller, idx, amount, now, dest, reward_dest) is Ok,
    ensures
        engine_wf(unstake_outcome(s, caller, idx, amount, now, dest, reward_dest).unwrap().0),
{
    let a = s.accounts[idx];
    let tokens = s.pool.supported_tokens;
    let j = mint_index(tokens, a.mint);
    assert(0 <= j < tokens.len() && tokens[j].mint == a.mint);
    let s2 = unstake_outcome(s, caller, idx, amount, now, dest, reward_dest).unwrap().0;
    let a3 = s2.accounts[idx];
    let tokens2 = s2.pool.supported_tokens;
    assert(forall|x: int| 0 <= x < tokens.len() ==> (#[trigger] tokens2[x]).mint == tokens[x].mint);
    lemma_same_mints_same_support(tokens, tokens2);
    assert forall|jj: int| 0 <= jj < tokens2.len() implies (#[trigger] tokens2[jj]).total_staked
        as int == staked_total(s2.accounts, tokens2[jj].mint) by {
        lemma_staked_total_update(s.accounts, idx, a3, tokens[jj].mint);
        if jj != j {
            assert(tokens[jj].mint != tokens[j].mint);
        }
    }
    assert(engine_wf(s2));
}

/// A successful `claim_rewards` preserves the engine invariant.
pub proof fn lemma_claim_preserves_wf(
    s: StakingEngineView,
    caller: u64,
    idx: int,
    now: i64,
    reward_dest: u64,
)
    requires
        engine_wf(s),
        0 <= idx < s.accounts.len(),
        claim_outcome(s, caller, idx, now, reward_dest) is Ok,
    ensures
        engine_wf(claim_outcome(s, caller, idx, now, reward_dest).unwrap().0),
{
    let a = s.accounts[idx];
    let s2 = claim_outcome(s, caller, idx, now, reward_dest).unwrap().0;
    let a2 = s2.accounts[idx];
    assert forall|jj: int| 0 <= jj < s2.pool.supported_tokens.len() implies (
    #[trigger] s2.pool.supported_tokens[jj]).total_staked as int == staked_total(
        s2.accounts,
        s2.pool.supported_tokens[jj].mint,
    ) by {
        lemma_staked_total_update(s.accounts, idx, a2, s.pool.supported_tokens[jj].mint);
    }
    assert(engine_wf(s2));
}

/// A successful `add_supported_token` preserves the engine invariant.
pub proof fn lemma_add_token_preserves_wf(
    s: StakingEngineView,
    caller: u64,
    mint: u64,
    vault: u64,
    vault_bump: u8,
    reward_rate: u64,
)
    requires
        engine_wf(s),
        add_token_outcome(s, caller, mint, vault, vault_bump, reward_rate) is Ok,
    ensures
        engine_wf(add_token_outcome(s, caller, mint, vault, vault_bump, reward_rate).unwrap()),
{
    let s2 = add_token_outcome(s, caller, mint, vault, vault_bump, reward_rate).unwrap();
    let tokens = s.pool.supported_tokens;
    let tokens2 = s2.pool.supported_tokens;
    let n = tokens.len() as int;
    assert(forall|x: int| 0 <= x < n ==> #[trigger] tokens2[x] == tokens[x]);
    assert(registry_wf(tokens2)) by {
        assert(!mint_supported(tokens, mint));
        assert(forall|x: int| 0 <= x < n ==> (#[trigger] tokens[x]).mint != mint);
    }
    assert forall|jj: int| 0 <= jj < tokens2.len() implies (#[trigger] tokens2[jj]).total_staked
        as int == staked_total(s.accounts, tokens2[jj].mint) by {
        if jj == n {
            assert(forall|i: int|
                0 <= i < s.accounts.len() && (#[trigger] s.accounts[i]).mint == mint
                    ==> s.accounts[i].staked_amount == 0);
            lemma_staked_total_zero(s.accounts, mint);
        }
    }
    assert forall|i: int|
        0 <= i < s2.accounts.len() && (#[trigger] s2.accounts[i]).staked_amount > 0 implies
        mint_supported(tokens2, s2.accounts[i].mint) by {
        let m = s.accounts[i].mint;
        let k = choose|k: int| 0 <= k < tokens.len() && tokens[k].mint == m;
        assert(tokens2[k].mint == m);
    }
    assert(engine_wf(s2));
}

/// A successful `fund_treasury` preserves the engine invariant.
pub proof fn lemma_fund_treasury_preserves_wf(
    s: StakingEngineView,
    caller: u64,
    amount: u64,
    source: u64,
)
    requires
        engine_wf(s),
        fund_treasury_outcome(s, caller, amount, source) is Ok,
    ensures
        engine_wf(fund_treasury_outcome(s, caller, amount, source).unwrap().0),
{
}

/// A successful `update_admin` preserves the engine invariant.
pub proof fn lemma_update_admin_preserves_wf(s: StakingEngineView, caller: u64, new_admin: u64)
    requires
        engine_wf(s),
        update_admin_outcome(s, caller, new_admin) is Ok,
    ensures
        engine_wf(update_admin_outcome(s, caller, new_admin).unwrap()),
{
}

/// The freshly created engine state satisfies the invariant.
pub proof fn lemma_initial_engine_wf(
    admin: u64,
    staking_mint: u64,
    reward_mint: u64,
    reward_rate: u64,
    lock_duration: i64,
    pool_bump: u8,
    treasury_bump: u8,
    staking_vault: u64,
    staking_vault_bump: u8,
)
    ensures
        engine_wf(
            initial_engine(
                admin,
                staking_mint,
                reward_mint,
                reward_rate,
                lock_duration,
                pool_bump,
                treasury_bump,
                staking_vault,
                staking_vault_bump,
            ),
        ),
{
    let s = initial_engine(
        admin,
        staking_mint,
        reward_mint,
        reward_rate,
        lock_duration,
        pool_bump,
        treasury_bump,
        staking_vault,
        staking_vault_bump,
    );
    assert(staked_total(s.accounts, staking_mint) == 0);
    assert(engine_wf(s));
}

/// Creating a stake account preserves the engine invariant: the new
/// record stakes nothing, so no total moves.
pub proof fn lemma_new_account_preserves_wf(
    s: StakingEngineView,
    owner: u64,
    mint: u64,
    now: i64,
    bump: u8,
)
    requires
        engine_wf(s),
    ensures
        engine_wf(
            StakingEngineView {
                accounts: s.accounts.push(new_stake_account(owner, mint, now, bump)),
                ..s
            },
        ),
{
    let a = new_stake_account(owner, mint, now, bump);
    let s2 = StakingEngineView { accounts: s.accounts.push(a), ..s };
    assert forall|jj: int| 0 <= jj < s2.pool.supported_tokens.len() implies (
    #[trigger] s2.pool.supported_tokens[jj]).total_staked as int == staked_total(
        s2.accounts,
        s2.pool.supported_tokens[jj].mint,
    ) by {
        lemma_staked_total_push(s.accounts, a, s.pool.supported_tokens[jj].mint);
    }
    assert(forall|i: int|
        0 <= i < s.accounts.len() ==> #[trigger] s2.accounts[i] == s.accounts[i]);
    assert(engine_wf(s2));
}

impl StakingEngine {
    /// The engine invariant, as a predicate on the concrete state.
    pub open spec fn wf(&self) -> bool {
        engine_wf(self@)
    }

    /// Creates the pool, its treasury, and the registry entry of the
    /// primary staking asset. The caller becomes the admin.
    pub fn initialize_pool(
        admin: u64,
        staking_mint: u64,
        reward_mint: u64,
        reward_rate: u64,
        lock_duration: i64,
        pool_bump: u8,
        treasury_bump: u8,
        staking_vault: u64,
        staking_vault_bump: u8,
    ) -> (s: StakingEngine)
        ensures
            s@ == initial_engine(
                admin,
                staking_mint,
                reward_mint,
                reward_rate,
                lock_duration,
                pool_bump,
                treasury_bump,
                staking_vault,
                staking_vault_bump,
            ),
            s.wf(),
    {
        let entry = SupportedToken {
            mint: staking_mint,
            vault: staking_vault,
            vault_bump: staking_vault_bump,
            reward_rate,
            total_staked: 0,
        };
        let mut tokens: Vec<SupportedToken> = Vec::new();
        tokens.push(entry);
        let mut vaults: Vec<CustodyAccount> = Vec::new();
        vaults.push(
            CustodyAccount {
                balance: 0,
                authority: Capability {
                    label: SeedLabel::VaultAuthority,
                    owner_id: staking_mint,
                    bump: staking_vault_bump,
                },
            },
        );
        let s = StakingEngine {
            pool: StakingPool {
                admin,
                staking_mint,
                reward_mint,
                reward_rate,
                lock_duration,
                pool_bump,
                treasury_bump,
                supported_tokens: tokens,
            },
            vaults,
            treasury: CustodyAccount {
                balance: 0,
                authority: Capability {
                    label: SeedLabel::Treasury,
                    owner_id: staking_mint,
                    bump: treasury_bump,
                },
            },
            accounts: Vec::new(),
        };
        proof {
            lemma_initial_engine_wf(
                admin,
                staking_mint,
                reward_mint,
                reward_rate,
                lock_duration,
                pool_bump,
                treasury_bump,
                staking_vault,
                staking_vault_bump,
            );
            assert(s@ =~= initial_engine(
                admin,
                staking_mint,
                reward_mint,
                reward_rate,
                lock_duration,
                pool_bump,
                treasury_bump,
                staking_vault,
                staking_vault_bump,
            ));
        }
        s
    }

    /// Creates the stake ledger record for `owner` and `mint`, binding the
    /// owner on first use, and returns its index.
    pub fn init_handler(&mut self, owner: u64, mint: u64, now: i64, bump: u8) -> (idx: usize)
        requires
            old(self).wf(),
        ensures
            final(self)@ == (StakingEngineView {
                accounts: old(self)@.accounts.push(new_stake_account(owner, mint, now, bump)),
                ..old(self)@
            }),
            final(self).wf(),
            idx == old(self)@.accounts.len(),
            final(self)@.accounts[idx as int] == new_stake_account(owner, mint, now, bump),
    {
        let idx = self.accounts.len();
        self.accounts.push(
            UserStakeAccount {
                owner,
                mint,
                staked_amount: 0,
                claim_points: 0,
                recent_update_time: now,
                unlock_time: now,
                bump,
            },
        );
        proof {
            lemma_new_account_preserves_wf(old(self)@, owner, mint, now, bump);
            assert(self@ =~= (StakingEngineView {
                accounts: old(self)@.accounts.push(new_stake_account(owner, mint, now, bump)),
                ..old(self)@
            }));
        }
        idx
    }

    /// Escrows `amount` units from the caller's source balance into the
    /// asset's vault, after lazily accruing points. On the first stake the
    /// unlock time is set to `now + lock_duration`. Fails exactly as
    /// `stake_outcome` says, mutating nothing.
    pub fn stake(
        &mut self,
        caller: u64,
        idx: usize,
        amount: u64,
        now: i64,
        source_balance: &mut u64,
    ) -> (r: Result<(), CustomError>)
        requires
            old(self).wf(),
            idx < old(self)@.accounts.len(),
        ensures
            match stake_outcome(old(self)@, caller, idx as int, amount, now, *old(source_balance)) {
                Ok(p) => r == Ok::<(), CustomError>(()) && final(self)@ == p.0 && *final(source_balance) == p.1 && final(self).wf(),
                Err(e) => r == Err::<(), CustomError>(e) && final(self)@ == old(self)@ && *final(source_balance) == *old(source_balance),
            },
    {
        if amount == 0 {
            return Err(CustomError::InvalidAmount);
        }
        let a = self.accounts[idx];
        if caller != a.owner {
            return Err(CustomError::Unauthorized);
        }
        let mut acct = a;
        if let Err(e) = update_points(&mut acct, now) {
            return Err(e);
        }
        if *source_balance < amount {
            return Err(CustomError::InsufficientBalance);
        }
        let j = match find_mint(&self.pool.supported_tokens, a.mint) {
            Some(j) => j,
            None => {
                return Err(CustomError::UnsupportedToken);
            },
        };
        let entry = self.pool.supported_tokens[j];
        let new_staked = match acct.staked_amount.checked_add(amount) {
            Some(v) => v,
            None => {
                return Err(CustomError::Overflow);
            },
        };
        let new_total = match entry.total_staked.checked_add(amount) {
            Some(v) => v,
            None => {
                return Err(CustomError::Overflow);
            },
        };
        let vault = self.vaults[j];
        let new_vault = match vault.balance.checked_add(amount) {
            Some(v) => v,
            None => {
                return Err(CustomError::Overflow);
            },
        };
        if acct.staked_amount == 0 {
            match now.checked_add(self.pool.lock_duration) {
                Some(u) => {
                    acct.unlock_time = u;
                },
                None => {
                    return Err(CustomError::Overflow);
                },
            }
        }
        acct.staked_amount = new_staked;
        self.accounts[idx] = acct;
        let mut entry2 = entry;
        entry2.total_staked = new_total;
        self.pool.supported_tokens[j] = entry2;
        let mut vault2 = vault;
        vault2.balance = new_vault;
        self.vaults[j] = vault2;
        *source_balance = *source_balance - amount;
        proof {
            lemma_stake_preserves_wf(
                old(self)@,
                caller,
                idx as int,
                amount,
                now,
                *old(source_balance),
            );
            assert(self@ =~= stake_outcome(
                old(self)@,
                caller,
                idx as int,
                amount,
                now,
                *old(source_balance),
            ).unwrap().0);
        }
        Ok(())
    }

    /// Returns `amount` escrowed units to the caller and pays the accrued
    /// reward from the treasury, once the lock period has elapsed. Both
    /// custody debits present the capability derived from the stored
    /// record data. Fails exactly as `unstake_outcome` says, mutating
    /// nothing.
    pub fn unstake(
        &mut self,
        caller: u64,
        idx: usize,
        amount: u64,
        now: i64,
        dest_balance: &mut u64,
        reward_dest_balance: &mut u64,
    ) -> (r: Result<(), CustomError>)
        requires
            old(self).wf(),
            idx < old(self)@.accounts.len(),
        ensures
            match unstake_outcome(
                old(self)@,
                caller,
                idx as int,
                amount,
                now,
                *old(dest_balance),
                *old(reward_dest_balance),
            ) {
                Ok(p) => r == Ok::<(), CustomError>(()) && final(self)@ == p.0 && *final(dest_balance) == p.1 && *final(reward_dest_balance) == p.2 && final(self).wf(),
                Err(e) => r == Err::<(), CustomError>(e) && final(self)@ == old(self)@ && *final(dest_balance) == *old(dest_balance) && *final(reward_dest_balance) == *old(reward_dest_balance),
            },
    {
        if amount == 0 {
            return Err(CustomError::InvalidAmount);
        }
        let a = self.accounts[idx];
        if caller != a.owner {
            return Err(CustomError::Unauthorized);
        }
        if amount > a.staked_amount {
            return Err(CustomError::InsufficientStake);
        }
        if now < a.unlock_time {
            return Err(CustomError::StakeLocked);
        }
        let j = match find_mint(&self.pool.supported_tokens, a.mint) {
            Some(j) => j,
            None => {
                return Err(CustomError::UnsupportedToken);
            },
        };
        let entry = self.pool.supported_tokens[j];
        let recent0 = a.recent_update_time;
        let mut acct = a;
        if let Err(e) = update_points(&mut acct, now) {
            return Err(e);
        }
        let elapsed_wide: i128 = (now as i128) - (recent0 as i128);
        assert(0 <= elapsed_wide <= u64::MAX);
        let elapsed: u64 = elapsed_wide as u64;
        let reward = match calculate_reward(amount, elapsed, entry.reward_rate) {
            Ok(v) => v,
            Err(e) => {
                return Err(e);
            },
        };
        let vault = self.vaults[j];
        let presented_vault = Capability {
            label: SeedLabel::VaultAuthority,
            owner_id: entry.mint,
            bump: entry.vault_bump,
        };
        if presented_vault != vault.authority {
            return Err(CustomError::Unauthorized);
        }
        let new_vault = match vault.balance.checked_sub(amount) {
            Some(v) => v,
            None => {
                return Err(CustomError::Underflow);
            },
        };
        let new_dest = match dest_balance.checked_add(amount) {
            Some(v) => v,
            None => {
                return Err(CustomError::Overflow);
            },
        };
        let presented_treasury = Capability {
            label: SeedLabel::Treasury,
            owner_id: self.pool.staking_mint,
            bump: self.pool.treasury_bump,
        };
        if presented_treasury != self.treasury.authority {
            return Err(CustomError::Unauthorized);
        }
        let new_treasury = match self.treasury.balance.checked_sub(reward) {
            Some(v) => v,
            None => {
                return Err(CustomError::Underflow);
            },
        };
        let new_reward_dest = match reward_dest_balance.checked_add(reward) {
            Some(v) => v,
            None => {
                return Err(CustomError::Overflow);
            },
        };
        let new_total = match entry.total_staked.checked_sub(amount) {
            Some(v) => v,
            None => {
                return Err(CustomError::Underflow);
            },
        };
        acct.staked_amount = acct.staked_amount - amount;
        self.accounts[idx] = acct;
        let mut entry2 = entry;
        entry2.total_staked = new_total;
        self.pool.supported_tokens[j] = entry2;
        let mut vault2 = vault;
        vault2.balance = new_vault;
        self.vaults[j] = vault2;
        self.treasury.balance = new_treasury;
        *dest_balance = new_dest;
        *reward_dest_balance = new_reward_dest;
        proof {
            lemma_unstake_preserves_wf(
                old(self)@,
                caller,
                idx as int,
                amount,
                now,
                *old(dest_balance),
                *old(reward_dest_balance),
            );
            assert(self@ =~= unstake_outcome(
                old(self)@,
                caller,
                idx as int,
                amount,
                now,
                *old(dest_balance),
                *old(reward_dest_balance),
            ).unwrap().0);
        }
        Ok(())
    }

    /// Pays `staked_amount * elapsed * reward_rate` from the treasury to
    /// the caller, resets the accrued points to zero, and advances the
    /// accrual clock. Fails exactly as `claim_outcome` says, mutating
    /// nothing.
    pub fn claim_rewards(
        &mut self,
        caller: u64,
        idx: usize,
        now: i64,
        reward_dest_balance: &mut u64,
    ) -> (r: Result<(), CustomError>)
        requires
            old(self).wf(),
            idx < old(self)@.accounts.len(),
        ensures
            match claim_outcome(old(self)@, caller, idx as int, now, *old(reward_dest_balance)) {
                Ok(p) => r == Ok::<(), CustomError>(()) && final(self)@ == p.0 && *final(reward_dest_balance) == p.1 && final(self).wf(),
                Err(e) => r == Err::<(), CustomError>(e) && final(self)@ == old(self)@ && *final(reward_dest_balance) == *old(reward_dest_balance),
            },
    {
        let a = self.accounts[idx];
        if caller != a.owner {
            return Err(CustomError::Unauthorized);
        }
        if now < a.recent_update_time {
            return Err(CustomError::InvalidTimestamp);
        }
        let j = match find_mint(&self.pool.supported_tokens, a.mint) {
            Some(j) => j,
            None => {
                return Err(CustomError::UnsupportedToken);
            },
        };
        let entry = self.pool.supported_tokens[j];
        let elapsed_wide: i128 = (now as i128) - (a.recent_update_time as i128);
        assert(0 <= elapsed_wide <= u64::MAX);
        let elapsed: u64 = elapsed_wide as u64;
        let reward = match calculate_reward(a.staked_amount, elapsed, entry.reward_rate) {
            Ok(v) => v,
            Err(e) => {
                return Err(e);
            },
        };
        let presented_treasury = Capability {
            label: SeedLabel::Treasury,
            owner_id: self.pool.staking_mint,
            bump: self.pool.treasury_bump,
        };
        if presented_treasury != self.treasury.authority {
            return Err(CustomError::Unauthorized);
        }
        let new_treasury = match self.treasury.balance.checked_sub(reward) {
            Some(v) => v,
            None => {
                return Err(CustomError::Underflow);
            },
        };
        let new_reward_dest = match reward_dest_balance.checked_add(reward) {
            Some(v) => v,
            None => {
                return Err(CustomError::Overflow);
            },
        };
        let mut acct = a;
        acct.claim_points = 0;
        acct.recent_update_time = now;
        self.accounts[idx] = acct;
        self.treasury.balance = new_treasury;
        *reward_dest_balance = new_reward_dest;
        proof {
            lemma_claim_preserves_wf(
                old(self)@,
                caller,
                idx as int,
                now,
                *old(reward_dest_balance),
            );
            assert(self@ =~= claim_outcome(
                old(self)@,
                caller,
                idx as int,
                now,
                *old(reward_dest_balance),
            ).unwrap().0);
        }
        Ok(())
    }

    /// Registers a new supported asset with its own vault and reward rate.
    /// Admin-only; duplicate mints are refused with
    /// `TokenAlreadySupported`, and the bounded registry refuses further
    /// entries with `Overflow` once full.
    pub fn add_supported_token(
        &mut self,
        caller: u64,
        mint: u64,
        vault: u64,
        vault_bump: u8,
        reward_rate: u64,
    ) -> (r: Result<(), CustomError>)
        requires
            old(self).wf(),
        ensures
            match add_token_outcome(old(self)@, caller, mint, vault, vault_bump, reward_rate) {
                Ok(s2) => r == Ok::<(), CustomError>(()) && final(self)@ == s2 && final(self).wf(),
                Err(e) => r == Err::<(), CustomError>(e) && final(self)@ == old(self)@,
            },
    {
        if caller != self.pool.admin {
            return Err(CustomError::Unauthorized);
        }
        if let Some(_j) = find_mint(&self.pool.supported_tokens, mint) {
            return Err(CustomError::TokenAlreadySupported);
        }
        if self.pool.supported_tokens.len() >= MAX_SUPPORTED_TOKENS {
            return Err(CustomError::Overflow);
        }
        let entry = SupportedToken { mint, vault, vault_bump, reward_rate, total_staked: 0 };
        self.pool.supported_tokens.push(entry);
        self.vaults.push(
            CustodyAccount {
                balance: 0,
                authority: Capability {
                    label: SeedLabel::VaultAuthority,
                    owner_id: mint,
                    bump: vault_bump,
                },
            },
        );
        proof {
            lemma_add_token_preserves_wf(old(self)@, caller, mint, vault, vault_bump, reward_rate);
            assert(self@ =~= add_token_outcome(
                old(self)@,
                caller,
                mint,
                vault,
                vault_bump,
                reward_rate,
            ).unwrap());
        }
        Ok(())
    }

    /// Moves `amount` from the admin's source balance into the treasury.
    /// Admin-only; the amount must be positive and covered by the source.
    pub fn fund_treasury(&mut self, caller: u64, amount: u64, source_balance: &mut u64) -> (r:
        Result<(), CustomError>)
        requires
            old(self).wf(),
        ensures
            match fund_treasury_outcome(old(self)@, caller, amount, *old(source_balance)) {
                Ok(p) => r == Ok::<(), CustomError>(()) && final(self)@ == p.0 && *final(source_balance) == p.1 && final(self).wf(),
                Err(e) => r == Err::<(), CustomError>(e) && final(self)@ == old(self)@ && *final(source_balance) == *old(source_balance),
            },
    {
        if caller != self.pool.admin {
            return Err(CustomError::Unauthorized);
        }
        if amount == 0 {
            return Err(CustomError::InvalidAmount);
        }
        if *source_balance < amount {
            return Err(CustomError::InsufficientBalance);
        }
        let new_treasury = match self.treasury.balance.checked_add(amount) {
            Some(v) => v,
            None => {
                return Err(CustomError::Overflow);
            },
        };
        self.treasury.balance = new_treasury;
        *source_balance = *source_balance - amount;
        proof {
            assert(self@ =~= fund_treasury_outcome(
                old(self)@,
                caller,
                amount,
                *old(source_balance),
            ).unwrap().0);
        }
        Ok(())
    }

    /// Replaces the admin identity. Admin-only.
    pub fn update_admin(&mut self, caller: u64, new_admin: u64) -> (r: Result<(), CustomError>)
        requires
            old(self).wf(),
        ensures
            match update_admin_outcome(old(self)@, caller, new_admin) {
                Ok(s2) => r == Ok::<(), CustomError>(()) && final(self)@ == s2 && final(self).wf(),
                Err(e) => r == Err::<(), CustomError>(e) && final(self)@ == old(self)@,
            },
    {
        if caller != self.pool.admin {
            return Err(CustomError::Unauthorized);
        }
        self.pool.admin = new_admin;
        proof {
            lemma_update_admin_preserves_wf(old(self)@, caller, new_admin);
            assert(self@ =~= update_admin_outcome(old(self)@, caller, new_admin).unwrap());
        }
        Ok(())
    }

    /// Releases the pool: the whole remaining treasury balance moves to
    /// the admin's destination balance, the records are consumed, and the
    /// residual that moved is returned. On failure the engine is handed
    /// back unchanged.
    pub fn close_pool(self, caller: u64, admin_balance: &mut u64) -> (r: Result<
        u64,
        (StakingEngine, CustomError),
    >)
        ensures
            match close_pool_outcome(self@, caller, *old(admin_balance)) {
                Ok(p) => r matches Ok(residual) && residual == p.0 && *final(admin_balance) == p.1,
                Err(e) => r matches Err(back) && back.0@ == self@ && back.1 == e && *final(admin_balance) == *old(admin_balance),
            },
    {
        if caller != self.pool.admin {
            return Err((self, CustomError::Unauthorized));
        }
        let residual = self.treasury.balance;
        let new_admin_balance = match admin_balance.checked_add(residual) {
            Some(v) => v,
            None => {
                return Err((self, CustomError::Overflow));
            },
        };
        *admin_balance = new_admin_balance;
        Ok(residual)
    }
}

} // verus!
