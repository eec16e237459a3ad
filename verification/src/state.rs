//! The records the engine works on: the per-owner stake account, the
//! supported-asset registry entry, the pool configuration, and the
//! capability-guarded custody accounts.
//!
//! Identities (wallets, asset mints, custody addresses) are plain `u64`
//! values: the engine only ever compares them for equality, so that is all
//! the model keeps of them.

use vstd::prelude::*;

verus! {

/// Upper bound on the supported-asset registry of one pool.
pub const MAX_SUPPORTED_TOKENS: usize = 10;

/// Namespace label of a derived capability.
#[derive(Clone, Copy, Debug, PartialEq, Eq, Structural)]
pub enum SeedLabel {
    /// Authority over the pool's treasury custody account.
    Treasury,
    /// Authority over one asset's escrow vault.
    VaultAuthority,
}

/// A derived capability: a value computed deterministically from a fixed
/// label, an owning identity, and a small discriminator ("bump"). The
/// derived address has no matching private key; only code that can
/// reconstruct the same tuple from stored record data can authorize a
/// transfer out of the custody account it names.
#[derive(Clone, Copy, Debug, PartialEq, Eq, Structural)]
pub struct Capability {
    /// Which namespace the capability belongs to.
    pub label: SeedLabel,
    /// Identity of the owning entity the address was derived from.
    pub owner_id: u64,
    /// The discriminator chosen at derivation time.
    pub bump: u8,
}

/// An escrow account holding asset units, debitable only by presenting a
/// capability equal to its stored authority.
#[derive(Clone, Copy, Debug, PartialEq, Eq, Structural)]
pub struct CustodyAccount {
    /// Asset units currently held.
    pub balance: u64,
    /// The derived capability that authorizes debits.
    pub authority: Capability,
}

/// Per-owner ledger record of one staked asset.
#[derive(Clone, Copy, Debug, PartialEq, Eq, Structural)]
pub struct UserStakeAccount {
    /// The identity that staked; only its operations may touch the record.
    pub owner: u64,
    /// The asset this record escrows.
    pub mint: u64,
    /// Units currently escrowed in the asset's vault for this owner.
    pub staked_amount: u64,
    /// Accrued micro-points, reset to zero when rewards are claimed.
    pub claim_points: u64,
    /// Timestamp of the last accrual; never decreases.
    pub recent_update_time: i64,
    /// Earliest time at which unstaking is permitted.
    pub unlock_time: i64,
    /// Discriminator of the record's own derived address.
    pub bump: u8,
}

/// One entry of the pool's supported-asset registry.
#[derive(Clone, Copy, Debug, PartialEq, Eq, Structural)]
pub struct SupportedToken {
    /// The asset's mint identity; unique within one registry.
    pub mint: u64,
    /// Address of the escrow vault holding stakes of this asset.
    pub vault: u64,
    /// Discriminator of the vault's derived authority.
    pub vault_bump: u8,
    /// Reward units per staked unit per time unit for this asset.
    pub reward_rate: u64,
    /// Sum of `staked_amount` over every account staking this asset.
    pub total_staked: u64,
}

/// Admin-controlled pool configuration and the supported-asset registry.
pub struct StakingPool {
    /// The identity allowed to run administrative operations.
    pub admin: u64,
    /// The pool's primary staking asset.
    pub staking_mint: u64,
    /// The asset reward payouts are made in.
    pub reward_mint: u64,
    /// Reward rate given at pool creation for the primary asset.
    pub reward_rate: u64,
    /// Minimum time between a first stake and a permitted unstake.
    pub lock_duration: i64,
    /// Discriminator of the pool's own derived address.
    pub pool_bump: u8,
    /// Discriminator of the treasury's derived authority.
    pub treasury_bump: u8,
    /// The registry: bounded, with pairwise-distinct mints.
    pub supported_tokens: Vec<SupportedToken>,
}

/// Mathematical image of a `StakingPool`.
#[verifier::ext_equal]
pub struct StakingPoolView {
    pub admin: u64,
    pub staking_mint: u64,
    pub reward_mint: u64,
    pub reward_rate: u64,
    pub lock_duration: i64,
    pub pool_bump: u8,
    pub treasury_bump: u8,
    pub supported_tokens: Seq<SupportedToken>,
}

impl View for StakingPool {
    type V = StakingPoolView;

    open spec fn view(&self) -> StakingPoolView {
        StakingPoolView {
            admin: self.admin,
            staking_mint: self.staking_mint,
            reward_mint: self.reward_mint,
            reward_rate: self.reward_rate,
            lock_duration: self.lock_duration,
            pool_bump: self.pool_bump,
            treasury_bump: self.treasury_bump,
            supported_tokens: self.supported_tokens@,
        }
    }
}

/// The capability that authorizes debits from the vault of a registry
/// entry, derived solely from data present in the entry.
pub open spec fn vault_capability(entry: SupportedToken) -> Capability {
    Capability { label: SeedLabel::VaultAuthority, owner_id: entry.mint, bump: entry.vault_bump }
}

/// The capability that authorizes debits from a pool's treasury, derived
/// solely from data present in the pool record.
pub open spec fn treasury_capability(pool: StakingPoolView) -> Capability {
    Capability { label: SeedLabel::Treasury, owner_id: pool.staking_mint, bump: pool.treasury_bump }
}

/// Whether `mint` has an entry in the registry.
pub open spec fn mint_supported(tokens: Seq<SupportedToken>, mint: u64) -> bool {
    exists|j: int| 0 <= j < tokens.len() && tokens[j].mint == mint
}

/// The index of `mint`'s registry entry, when one exists.
pub open spec fn mint_index(tokens: Seq<SupportedToken>, mint: u64) -> int {
    choose|j: int| 0 <= j < tokens.len() && tokens[j].mint == mint
}

/// A well-formed registry is bounded and holds pairwise-distinct mints.
pub open spec fn registry_wf(tokens: Seq<SupportedToken>) -> bool {
    &&& tokens.len() <= MAX_SUPPORTED_TOKENS
    &&& forall|j: int, k: int|
        0 <= j < k < tokens.len() ==> #[trigger] tokens[j].mint != #[trigger] tokens[k].mint
}

/// In a well-formed registry, `mint_index` is the only index holding `mint`.
pub proof fn lemma_mint_index_unique(tokens: Seq<SupportedToken>, mint: u64, j: int)
    requires
        registry_wf(tokens),
        0 <= j < tokens.len(),
        tokens[j].mint == mint,
    ensures
        mint_supported(tokens, mint),
        mint_index(tokens, mint) == j,
{
    assert(mint_supported(tokens, mint));
    let k = mint_index(tokens, mint);
    if k != j {
        if k < j {
            assert(tokens[k].mint != tokens[j].mint);
        } else {
            assert(tokens[j].mint != tokens[k].mint);
        }
    }
}

/// What one account contributes to the stake total of `mint`.
pub open spec fn staked_contrib(a: UserStakeAccount, mint: u64) -> int {
    if a.mint == mint {
        a.staked_amount as int
    } else {
        0
    }
}

/// Sum of `staked_amount` over every account that escrows `mint`.
pub open spec fn staked_total(accounts: Seq<UserStakeAccount>, mint: u64) -> int
    decreases accounts.len(),
{
    if accounts.len() == 0 {
        0
    } else {
        staked_total(accounts.drop_last(), mint) + staked_contrib(accounts.last(), mint)
    }
}

/// Appending an account adds exactly its contribution to the total.
pub proof fn lemma_staked_total_push(accounts: Seq<UserStakeAccount>, a: UserStakeAccount, mint: u64)
    ensures
        staked_total(accounts.push(a), mint) == staked_total(accounts, mint) + staked_contrib(
            a,
            mint,
        ),
{
    assert(accounts.push(a).drop_last() =~= accounts);
}

/// Replacing the account at `i` changes the total by the difference of the
/// two contributions.
pub proof fn lemma_staked_total_update(
    accounts: Seq<UserStakeAccount>,
    i: int,
    a: UserStakeAccount,
    mint: u64,
)
    requires
        0 <= i < accounts.len(),
    ensures
        staked_total(accounts.update(i, a), mint) == staked_total(accounts, mint) - staked_contrib(
            accounts[i],
            mint,
        ) + staked_contrib(a, mint),
    decreases accounts.len(),
{
    let updated = accounts.update(i, a);
    if i == accounts.len() - 1 {
        assert(updated.drop_last() =~= accounts.drop_last());
        assert(updated.last() == a);
    } else {
        assert(updated.drop_last() =~= accounts.drop_last().update(i, a));
        assert(updated.last() == accounts.last());
        lemma_staked_total_update(accounts.drop_last(), i, a, mint);
    }
}

/// When every matching account holds nothing, the total is zero.
pub proof fn lemma_staked_total_zero(accounts: Seq<UserStakeAccount>, mint: u64)
    requires
        forall|i: int|
            0 <= i < accounts.len() && (#[trigger] accounts[i]).mint == mint
                ==> accounts[i].staked_amount == 0,
    ensures
        staked_total(accounts, mint) == 0,
    decreases accounts.len(),
{
    if accounts.len() > 0 {
        assert(forall|i: int|
            0 <= i < accounts.len() - 1 && (#[trigger] accounts.drop_last()[i]).mint == mint
                ==> accounts.drop_last()[i].staked_amount == 0) by {
            assert(forall|i: int|
                0 <= i < accounts.len() - 1 ==> #[trigger] accounts.drop_last()[i] == accounts[i]);
        }
        lemma_staked_total_zero(accounts.drop_last(), mint);
        assert(accounts.last() == accounts[accounts.len() - 1]);
    }
}

/// Finds the registry entry of `mint`, or reports it unsupported.
pub fn find_mint(tokens: &Vec<SupportedToken>, mint: u64) -> (r: Option<usize>)
    requires
        registry_wf(tokens@),
    ensures
        match r {
            Some(j) => j < tokens@.len() && tokens@[j as int].mint == mint
                && mint_supported(tokens@, mint) && mint_index(tokens@, mint) == j,
            None => !mint_supported(tokens@, mint),
        },
{
    let n = tokens.len();
    let mut i: usize = 0;
    while i < n
        invariant
            n == tokens@.len(),
            i <= n,
            registry_wf(tokens@),
            forall|j: int| 0 <= j < i ==> #[trigger] tokens@[j].mint != mint,
        decreases n - i,
    {
        if tokens[i].mint == mint {
            proof {
                lemma_mint_index_unique(tokens@, mint, i as int);
            }
            return Some(i);
        }
        i += 1;
    }
    None
}

} // verus!
