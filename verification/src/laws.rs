//! The engine's laws: statements that relate several operations, or hold
//! of every sequence of operations, proved once against the spec-level
//! transition functions of `engine`.
//!
//! A sequence of operations is modeled by `LedgerOp` and the recursive
//! interpreter `run_ops`; a "valid" sequence is one on which every
//! operation succeeds. Closing the pool consumes the engine, so every
//! sequence here ends before the close.

use vstd::prelude::*;

use crate::engine::{
    add_token_outcome, claim_outcome, close_pool_outcome, engine_wf, fund_treasury_outcome,
    lemma_add_token_preserves_wf, lemma_claim_preserves_wf, lemma_new_account_preserves_wf,
    lemma_stake_preserves_wf, lemma_unstake_preserves_wf, lemma_update_admin_preserves_wf,
    new_stake_account, stake_outcome, unstake_outcome, update_admin_outcome, StakingEngineView,
};
use crate::errors::CustomError;
use crate::state::staked_total;

verus! {

/// One operation of a run, with every input it needs — including the
/// external balances the caller would hand in, carried as plain values.
pub enum LedgerOp {
    /// `stake(caller, idx, amount, now)` drawing from `source`.
    Stake { caller: u64, idx: usize, amount: u64, now: i64, source: u64 },
    /// `unstake(caller, idx, amount, now)` paying into `dest` and `reward_dest`.
    Unstake { caller: u64, idx: usize, amount: u64, now: i64, dest: u64, reward_dest: u64 },
    /// `claim_rewards(caller, idx, now)` paying into `reward_dest`.
    ClaimRewards { caller: u64, idx: usize, now: i64, reward_dest: u64 },
    /// `init_handler(owner, mint, now, bump)`.
    InitAccount { owner: u64, mint: u64, now: i64, bump: u8 },
    /// `add_supported_token(caller, mint, vault, vault_bump, reward_rate)`.
    AddSupportedToken { caller: u64, mint: u64, vault: u64, vault_bump: u8, reward_rate: u64 },
    /// `fund_treasury(caller, amount)` drawing from `source`.
    FundTreasury { caller: u64, amount: u64, source: u64 },
    /// `update_admin(caller, new_admin)`.
    UpdateAdmin { caller: u64, new_admin: u64 },
}

/// The engine state one operation leaves behind, or the error it fails with.
pub open spec fn apply_op(s: StakingEngineView, op: LedgerOp) -> Result<
    StakingEngineView,
    CustomError,
> {
    match op {
        LedgerOp::Stake { caller, idx, amount, now, source } => match stake_outcome(
            s,
            caller,
            idx as int,
            amount,
            now,
            source,
        ) {
            Ok(p) => Ok(p.0),
            Err(e) => Err(e),
        },
        LedgerOp::Unstake { caller, idx, amount, now, dest, reward_dest } => match unstake_outcome(
            s,
            caller,
            idx as int,
            amount,
            now,
            dest,
            reward_dest,
        ) {
            Ok(p) => Ok(p.0),
            Err(e) => Err(e),
        },
        LedgerOp::ClaimRewards { caller, idx, now, reward_dest } => match claim_outcome(
            s,
            caller,
            idx as int,
            now,
            reward_dest,
        ) {
            Ok(p) => Ok(p.0),
            Err(e) => Err(e),
        },
        LedgerOp::InitAccount { owner, mint, now, bump } => Ok(
            StakingEngineView {
                accounts: s.accounts.push(new_stake_account(owner, mint, now, bump)),
                ..s
            },
        ),
        LedgerOp::AddSupportedToken { caller, mint, vault, vault_bump, reward_rate } =>
            add_token_outcome(s, caller, mint, vault, vault_bump, reward_rate),
        LedgerOp::FundTreasury { caller, amount, source } => match fund_treasury_outcome(
            s,
            caller,
            amount,
            source,
        ) {
            Ok(p) => Ok(p.0),
            Err(e) => Err(e),
        },
        LedgerOp::UpdateAdmin { caller, new_admin } => update_admin_outcome(s, caller, new_admin),
    }
}

/// Runs the operations in order; the whole run fails on the first error.
pub open spec fn run_ops(s: StakingEngineView, ops: Seq<LedgerOp>) -> Result<
    StakingEngineView,
    CustomError,
>
    decreases ops.len(),
{
    if ops.len() == 0 {
        Ok(s)
    } else {
        match apply_op(s, ops.first()) {
            Ok(s2) => run_ops(s2, ops.drop_first()),
            Err(e) => Err(e),
        }
    }
}

/// Whether an operation only touches accounts that exist in `s`.
pub open spec fn op_in_range(s: StakingEngineView, op: LedgerOp) -> bool {
    match op {
        LedgerOp::Stake { idx, .. } => idx < s.accounts.len(),
        LedgerOp::Unstake { idx, .. } => idx < s.accounts.len(),
        LedgerOp::ClaimRewards { idx, .. } => idx < s.accounts.len(),
        _ => true,
    }
}

/// Whether every operation targets an account that already exists when
/// the run starts. Accounts are only ever appended, so such an index
/// stays valid for the whole run.
pub open spec fn ops_in_range(s: StakingEngineView, ops: Seq<LedgerOp>) -> bool {
    forall|k: int| 0 <= k < ops.len() ==> op_in_range(s, #[trigger] ops[k])
}

/// One successful operation never shrinks the account list and never
/// moves an existing account's accrual clock backward.
proof fn lemma_apply_op_accounts(s: StakingEngineView, op: LedgerOp, s2: StakingEngineView)
    requires
        op_in_range(s, op),
        apply_op(s, op) == Ok::<StakingEngineView, CustomError>(s2),
    ensures
        s2.accounts.len() >= s.accounts.len(),
        forall|i: int|
            0 <= i < s.accounts.len() ==> (#[trigger] s2.accounts[i]).recent_update_time
                >= s.accounts[i].recent_update_time,
{
}

/// `recent_update_time` is non-decreasing: across any successful run, an
/// account that existed at the start never sees its accrual clock move
/// backward.
pub proof fn lemma_recent_update_time_monotonic(
    s: StakingEngineView,
    ops: Seq<LedgerOp>,
    i: int,
)
    requires
        ops_in_range(s, ops),
        run_ops(s, ops) is Ok,
        0 <= i < s.accounts.len(),
    ensures
        run_ops(s, ops).unwrap().accounts.len() >= s.accounts.len(),
        run_ops(s, ops).unwrap().accounts[i].recent_update_time
            >= s.accounts[i].recent_update_time,
    decreases ops.len(),
{
    if ops.len() > 0 {
        let s2 = apply_op(s, ops.first()).unwrap();
        lemma_apply_op_accounts(s, ops.first(), s2);
        assert(forall|k: int|
            0 <= k < ops.drop_first().len() ==> op_in_range(s2, #[trigger] ops.drop_first()[k]))
            by {
            assert(forall|k: int|
                0 <= k < ops.drop_first().len() ==> ops.drop_first()[k] == ops[k + 1]);
        }
        lemma_recent_update_time_monotonic(s2, ops.drop_first(), i);
    }
}

/// One successful operation preserves the engine invariant.
proof fn lemma_apply_op_preserves_wf(s: StakingEngineView, op: LedgerOp)
    requires
        engine_wf(s),
        op_in_range(s, op),
        apply_op(s, op) is Ok,
    ensures
        engine_wf(apply_op(s, op).unwrap()),
{
    match op {
        LedgerOp::Stake { caller, idx, amount, now, source } => {
            lemma_stake_preserves_wf(s, caller, idx as int, amount, now, source);
        },
        LedgerOp::Unstake { caller, idx, amount, now, dest, reward_dest } => {
            lemma_unstake_preserves_wf(s, caller, idx as int, amount, now, dest, reward_dest);
        },
        LedgerOp::ClaimRewards { caller, idx, now, reward_dest } => {
            lemma_claim_preserves_wf(s, caller, idx as int, now, reward_dest);
        },
        LedgerOp::InitAccount { owner, mint, now, bump } => {
            lemma_new_account_preserves_wf(s, owner, mint, now, bump);
        },
        LedgerOp::AddSupportedToken { caller, mint, vault, vault_bump, reward_rate } => {
            lemma_add_token_preserves_wf(s, caller, mint, vault, vault_bump, reward_rate);
        },
        LedgerOp::FundTreasury { caller, amount, source } => {
        },
        LedgerOp::UpdateAdmin { caller, new_admin } => {
            lemma_update_admin_preserves_wf(s, caller, new_admin);
        },
    }
}

/// The engine invariant holds after any successful run — in particular,
/// every vault still holds exactly the sum of `staked_amount` over the
/// accounts escrowing into it.
pub proof fn lemma_run_preserves_wf(s: StakingEngineView, ops: Seq<LedgerOp>)
    requires
        engine_wf(s),
        ops_in_range(s, ops),
        run_ops(s, ops) is Ok,
    ensures
        engine_wf(run_ops(s, ops).unwrap()),
    decreases ops.len(),
{
    if ops.len() > 0 {
        let s2 = apply_op(s, ops.first()).unwrap();
        lemma_apply_op_preserves_wf(s, ops.first());
        lemma_apply_op_accounts(s, ops.first(), s2);
        assert(forall|k: int|
            0 <= k < ops.drop_first().len() ==> op_in_range(s2, #[trigger] ops.drop_first()[k]))
            by {
            assert(forall|k: int|
                0 <= k < ops.drop_first().len() ==> ops.drop_first()[k] == ops[k + 1]);
        }
        lemma_run_preserves_wf(s2, ops.drop_first());
    }
}

/// In a well-formed engine, each vault's balance is exactly the sum of
/// `staked_amount` over every account escrowing that asset.
pub proof fn lemma_vault_matches_stake_sum(s: StakingEngineView, j: int)
    requires
        engine_wf(s),
        0 <= j < s.vaults.len(),
    ensures
        s.vaults[j].balance as int == staked_total(s.accounts, s.pool.supported_tokens[j].mint),
{
}

/// Whether every operation of `ops` is a stake or unstake on account `i`.
pub open spec fn all_stake_unstake_on(ops: Seq<LedgerOp>, i: usize) -> bool {
    forall|k: int|
        0 <= k < ops.len() ==> (((#[trigger] ops[k]) matches LedgerOp::Stake { idx, .. } && idx
            == i) || (ops[k] matches LedgerOp::Unstake { idx, .. } && idx == i))
}

/// Sum of the amounts staked by the `Stake` operations of `ops`.
pub open spec fn total_staked_in(ops: Seq<LedgerOp>) -> int
    decreases ops.len(),
{
    if ops.len() == 0 {
        0
    } else {
        (match ops.first() {
            LedgerOp::Stake { amount, .. } => amount as int,
            _ => 0,
        }) + total_staked_in(ops.drop_first())
    }
}

/// Sum of the amounts returned by the `Unstake` operations of `ops`.
pub open spec fn total_unstaked_in(ops: Seq<LedgerOp>) -> int
    decreases ops.len(),
{
    if ops.len() == 0 {
        0
    } else {
        (match ops.first() {
            LedgerOp::Unstake { amount, .. } => amount as int,
            _ => 0,
        }) + total_unstaked_in(ops.drop_first())
    }
}

/// Stake conservation: across any successful sequence of stakes and
/// unstakes on one account, the stakes minus the unstakes is exactly the
/// change of that account's `staked_amount`.
pub proof fn lemma_stake_unstake_conservation(s: StakingEngineView, ops: Seq<LedgerOp>, i: usize)
    requires
        all_stake_unstake_on(ops, i),
        (i as int) < s.accounts.len(),
        run_ops(s, ops) is Ok,
    ensures
        run_ops(s, ops).unwrap().accounts.len() == s.accounts.len(),
        run_ops(s, ops).unwrap().accounts[i as int].staked_amount as int
            == s.accounts[i as int].staked_amount + total_staked_in(ops) - total_unstaked_in(ops),
    decreases ops.len(),
{
    if ops.len() > 0 {
        assert(all_stake_unstake_on(ops, i));
        assert((ops[0] matches LedgerOp::Stake { idx, .. } && idx == i) || (ops[0]
            matches LedgerOp::Unstake { idx, .. } && idx == i));
        let s2 = apply_op(s, ops.first()).unwrap();
        assert(s2.accounts.len() == s.accounts.len());
        assert(forall|k: int|
            0 <= k < ops.drop_first().len() ==> ops.drop_first()[k] == ops[k + 1]);
        lemma_stake_unstake_conservation(s2, ops.drop_first(), i);
    }
}

/// Funding the treasury and then closing the pool moves the whole
/// pre-close treasury balance — the old reserve plus the deposit — to the
/// admin's external balance, exactly; the consumed engine records are
/// released with it.
pub proof fn lemma_fund_then_close(
    s: StakingEngineView,
    caller: u64,
    amount: u64,
    source: u64,
    dest: u64,
)
    requires
        fund_treasury_outcome(s, caller, amount, source) is Ok,
        close_pool_outcome(
            fund_treasury_outcome(s, caller, amount, source).unwrap().0,
            caller,
            dest,
        ) is Ok,
    ensures
        fund_treasury_outcome(s, caller, amount, source).unwrap().0.treasury.balance as int
            == s.treasury.balance + amount,
        close_pool_outcome(
            fund_treasury_outcome(s, caller, amount, source).unwrap().0,
            caller,
            dest,
        ).unwrap().1 as int == dest + s.treasury.balance + amount,
{
}

/// A stake account can never give back more than it holds: when the owner
/// asks for more than `staked_amount`, `unstake` fails with
/// `InsufficientStake` (and, by the operation's contract, changes nothing).
pub proof fn lemma_unstake_insufficient_stake(
    s: StakingEngineView,
    caller: u64,
    idx: int,
    amount: u64,
    now: i64,
    dest: u64,
    reward_dest: u64,
)
    requires
        0 <= idx < s.accounts.len(),
        caller == s.accounts[idx].owner,
        amount > 0,
        amount > s.accounts[idx].staked_amount,
    ensures
        unstake_outcome(s, caller, idx, amount, now, dest, reward_dest) == Err::<
            (StakingEngineView, u64, u64),
            CustomError,
        >(CustomError::InsufficientStake),
{
}

/// Before the unlock time the lock holds: the owner's well-formed unstake
/// request fails with `StakeLocked`. From the unlock time on — including
/// at exactly `now == unlock_time` — the lock never refuses it.
pub proof fn lemma_unstake_lock(
    s: StakingEngineView,
    caller: u64,
    idx: int,
    amount: u64,
    now: i64,
    dest: u64,
    reward_dest: u64,
)
    requires
        0 <= idx < s.accounts.len(),
        caller == s.accounts[idx].owner,
        0 < amount <= s.accounts[idx].staked_amount,
    ensures
        now < s.accounts[idx].unlock_time ==> unstake_outcome(
            s,
            caller,
            idx,
            amount,
            now,
            dest,
            reward_dest,
        ) == Err::<(StakingEngineView, u64, u64), CustomError>(CustomError::StakeLocked),
        now >= s.accounts[idx].unlock_time ==> unstake_outcome(
            s,
            caller,
            idx,
            amount,
            now,
            dest,
            reward_dest,
        ) != Err::<(StakingEngineView, u64, u64), CustomError>(CustomError::StakeLocked),
{
}

/// Registering the same asset twice fails: after a successful
/// `add_supported_token` of `mint`, a second registration of `mint` by
/// the admin fails with `TokenAlreadySupported` (and, by the operation's
/// contract, leaves the registry length unchanged).
pub proof fn lemma_add_token_twice(
    s: StakingEngineView,
    caller: u64,
    mint: u64,
    vault: u64,
    vault_bump: u8,
    reward_rate: u64,
    vault2: u64,
    vault_bump2: u8,
    reward_rate2: u64,
)
    requires
        add_token_outcome(s, caller, mint, vault, vault_bump, reward_rate) is Ok,
    ensures
        add_token_outcome(
            add_token_outcome(s, caller, mint, vault, vault_bump, reward_rate).unwrap(),
            caller,
            mint,
            vault2,
            vault_bump2,
            reward_rate2,
        ) == Err::<StakingEngineView, CustomError>(CustomError::TokenAlreadySupported),
{
    let s2 = add_token_outcome(s, caller, mint, vault, vault_bump, reward_rate).unwrap();
    let n = s.pool.supported_tokens.len() as int;
    assert(s2.pool.supported_tokens[n].mint == mint);
}

} // verus!
