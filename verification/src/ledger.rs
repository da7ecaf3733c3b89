//! The share ledger: each user's split balance (available vs. protected
//! shares), the pooled aggregate statistics, and the state transitions of
//! deposit, withdraw, lock and unlock.
//!
//! Every operation is a total function from the stored record and the
//! externally observed facts (pause flag, clock, the reserve's reported
//! totals, the reserve's minted-share response) to either the successor
//! record or a specific failure; the host persists the successor only on
//! success. A deposit spans a call into the external reserve, so it is
//! split into [`deposit_prepare`] (before the call) and [`deposit_settle`]
//! (after it); the version fence detects a reentrant mutation between the
//! two.

use vstd::prelude::*;
use crate::errors::BufferError;
use crate::math::{fits_i128, spec_mul_div, mul_div};
use crate::pricing::{
    spec_shares_for_amount, shares_for_amount, spec_value_for_shares, value_for_shares,
};

verus! {

/// Smallest accepted amount or share count for any mutating operation.
pub const MIN_AMOUNT: i128 = 1;

/// Basis points in one whole.
pub const BPS_DIVISOR: i128 = 10000;

/// Slippage tolerance, in basis points, before an administrator configures one.
pub const DEFAULT_SLIPPAGE_BPS: i128 = 50;

/// Minimum seconds between two deposits of one user before an administrator
/// configures an interval.
pub const DEFAULT_MIN_INTERVAL_SECS: u64 = 2;

/// One user's share balance. A user that never deposited reads as the
/// zero-valued default.
#[derive(Clone, Copy, Debug, PartialEq, Eq, Structural)]
pub struct BufferBalance {
    /// Shares free for withdrawal or locking.
    pub available_shares: i128,
    /// Shares locked as collateral.
    pub protected_shares: i128,
    /// Lifetime deposited value; never decreases.
    pub total_deposited: i128,
    /// Time of the most recent deposit, for throttling.
    pub last_deposit_ts: u64,
    /// Bumped on every mutation; fences a deposit against reentrant writes.
    pub version: u64,
}

/// Ledger configuration.
#[derive(Clone, Copy, Debug, PartialEq, Eq, Structural)]
pub struct ContractConfig {
    pub min_deposit_interval: u64,
    pub slippage_tolerance_bps: i128,
}

/// Running totals over all users; observability only, read by no
/// business-logic decision.
#[derive(Clone, Copy, Debug, PartialEq, Eq, Structural)]
pub struct TotalStats {
    pub total_available: i128,
    pub total_protected: i128,
    pub total_deposited: i128,
    pub unique_users: u32,
}

/// What a completed deposit reports back.
#[derive(Clone, Copy, Debug, PartialEq, Eq, Structural)]
pub struct DepositResult {
    pub shares_minted: i128,
    pub amount_deposited: i128,
    pub new_available_balance: i128,
    pub timestamp: u64,
}

/// What a completed lock or unlock reports back.
#[derive(Clone, Copy, Debug, PartialEq, Eq, Structural)]
pub struct LockResult {
    pub shares_locked: i128,
    pub new_available: i128,
    pub new_protected: i128,
}

/// What a completed withdrawal reports back; `amounts_received` is what the
/// reserve paid out per asset.
#[derive(Debug, PartialEq, Eq)]
pub struct WithdrawResult {
    pub shares_burned: i128,
    pub amounts_received: Vec<i128>,
    pub new_available_balance: i128,
    pub from_protected: bool,
}

/// What [`deposit_prepare`] hands the host to carry across the reserve
/// call: the share floor the reserve must meet and the version fence.
#[derive(Clone, Copy, Debug, PartialEq, Eq, Structural)]
pub struct DepositIntent {
    /// Shares the pricing adapter expects the reserve to mint.
    pub expected_shares: i128,
    /// Least minted-share count accepted, after slippage tolerance.
    pub min_shares_out: i128,
    /// The balance version observed before the reserve call.
    pub original_version: u64,
    /// Whether this is the user's first-ever deposit.
    pub is_new_user: bool,
}

impl BufferBalance {
    /// The stated invariant of every stored balance: neither pool is
    /// negative.
    pub open spec fn well_formed(self) -> bool {
        self.available_shares >= 0 && self.protected_shares >= 0
    }
}

impl Default for BufferBalance {
    /// The zero-valued record a never-seen user reads.
    fn default() -> (b: BufferBalance)
        ensures
            b == (BufferBalance {
                available_shares: 0,
                protected_shares: 0,
                total_deposited: 0,
                last_deposit_ts: 0,
                version: 0,
            }),
    {
        BufferBalance {
            available_shares: 0,
            protected_shares: 0,
            total_deposited: 0,
            last_deposit_ts: 0,
            version: 0,
        }
    }
}

impl Default for ContractConfig {
    /// The configuration in force before an administrator sets one.
    fn default() -> (c: ContractConfig)
        ensures
            c == (ContractConfig {
                min_deposit_interval: DEFAULT_MIN_INTERVAL_SECS,
                slippage_tolerance_bps: DEFAULT_SLIPPAGE_BPS,
            }),
    {
        ContractConfig {
            min_deposit_interval: DEFAULT_MIN_INTERVAL_SECS,
            slippage_tolerance_bps: DEFAULT_SLIPPAGE_BPS,
        }
    }
}

impl Default for TotalStats {
    /// The all-zero aggregate a fresh deployment starts from.
    fn default() -> (s: TotalStats)
        ensures
            s == (TotalStats {
                total_available: 0,
                total_protected: 0,
                total_deposited: 0,
                unique_users: 0,
            }),
    {
        TotalStats { total_available: 0, total_protected: 0, total_deposited: 0, unique_users: 0 }
    }
}

/// What [`lock_shares`] returns: the successor balance with `shares` moved
/// from the available pool to the protected pool, or the specific failure.
pub open spec fn spec_lock_shares(bal: BufferBalance, shares: int, paused: bool) -> Result<
    (BufferBalance, LockResult),
    BufferError,
> {
    if paused {
        Err(BufferError::ContractPaused)
    } else if shares < MIN_AMOUNT {
        Err(BufferError::InvalidAmount)
    } else if (bal.available_shares as int) < shares {
        Err(BufferError::InsufficientAvailable)
    } else if !fits_i128(bal.protected_shares + shares) || bal.version == u64::MAX {
        Err(BufferError::MathOverflow)
    } else {
        let nb = BufferBalance {
            available_shares: (bal.available_shares - shares) as i128,
            protected_shares: (bal.protected_shares + shares) as i128,
            total_deposited: bal.total_deposited,
            last_deposit_ts: bal.last_deposit_ts,
            version: (bal.version + 1) as u64,
        };
        Ok(
            (
                nb,
                LockResult {
                    shares_locked: shares as i128,
                    new_available: nb.available_shares,
                    new_protected: nb.protected_shares,
                },
            ),
        )
    }
}

/// What [`unlock_shares`] returns: the successor balance with `shares`
/// moved back from the protected pool to the available pool, or the
/// specific failure. Not gated by the pause flag, so existing collateral
/// can always be released.
pub open spec fn spec_unlock_shares(bal: BufferBalance, shares: int) -> Result<
    (BufferBalance, LockResult),
    BufferError,
> {
    if shares < MIN_AMOUNT {
        Err(BufferError::InvalidAmount)
    } else if (bal.protected_shares as int) < shares {
        Err(BufferError::InsufficientProtected)
    } else if !fits_i128(bal.available_shares + shares) || bal.version == u64::MAX {
        Err(BufferError::MathOverflow)
    } else {
        let nb = BufferBalance {
            available_shares: (bal.available_shares + shares) as i128,
            protected_shares: (bal.protected_shares - shares) as i128,
            total_deposited: bal.total_deposited,
            last_deposit_ts: bal.last_deposit_ts,
            version: (bal.version + 1) as u64,
        };
        Ok(
            (
                nb,
                LockResult {
                    shares_locked: shares as i128,
                    new_available: nb.available_shares,
                    new_protected: nb.protected_shares,
                },
            ),
        )
    }
}

/// What [`withdraw_apply`] returns: the successor balance with `shares`
/// debited from the chosen pool, or the specific failure.
pub open spec fn spec_withdraw_apply(bal: BufferBalance, shares: int, from_protected: bool) -> Result<
    BufferBalance,
    BufferError,
> {
    if shares < MIN_AMOUNT {
        Err(BufferError::InvalidAmount)
    } else if from_protected && (bal.protected_shares as int) < shares {
        Err(BufferError::InsufficientProtected)
    } else if !from_protected && (bal.available_shares as int) < shares {
        Err(BufferError::InsufficientAvailable)
    } else if bal.version == u64::MAX {
        Err(BufferError::MathOverflow)
    } else {
        Ok(
            BufferBalance {
                available_shares: if from_protected {
                    bal.available_shares
                } else {
                    (bal.available_shares - shares) as i128
                },
                protected_shares: if from_protected {
                    (bal.protected_shares - shares) as i128
                } else {
                    bal.protected_shares
                },
                total_deposited: bal.total_deposited,
                last_deposit_ts: bal.last_deposit_ts,
                version: (bal.version + 1) as u64,
            },
        )
    }
}

/// Move shares from the available pool into the protected pool (collateral
/// lock). Gated by the pause flag.
pub fn lock_shares(bal: &BufferBalance, shares: i128, paused: bool) -> (r: Result<
    (BufferBalance, LockResult),
    BufferError,
>)
    ensures
        r == spec_lock_shares(*bal, shares as int, paused),
        r matches Ok(p) ==> bal.well_formed() ==> p.0.well_formed(),
{
    if paused {
        return Err(BufferError::ContractPaused);
    }
    if shares < MIN_AMOUNT {
        return Err(BufferError::InvalidAmount);
    }
    if bal.available_shares < shares {
        return Err(BufferError::InsufficientAvailable);
    }
    let protected = match bal.protected_shares.checked_add(shares) {
        Some(p) => p,
        None => {
            return Err(BufferError::MathOverflow);
        },
    };
    let version = match bal.version.checked_add(1) {
        Some(v) => v,
        None => {
            return Err(BufferError::MathOverflow);
        },
    };
    let nb = BufferBalance {
        available_shares: bal.available_shares - shares,
        protected_shares: protected,
        total_deposited: bal.total_deposited,
        last_deposit_ts: bal.last_deposit_ts,
        version,
    };
    Ok(
        (
            nb,
            LockResult {
                shares_locked: shares,
                new_available: nb.available_shares,
                new_protected: nb.protected_shares,
            },
        ),
    )
}

/// Move shares back from the protected pool into the available pool
/// (collateral release).
pub fn unlock_shares(bal: &BufferBalance, shares: i128) -> (r: Result<
    (BufferBalance, LockResult),
    BufferError,
>)
    ensures
        r == spec_unlock_shares(*bal, shares as int),
        r matches Ok(p) ==> bal.well_formed() ==> p.0.well_formed(),
{
    if shares < MIN_AMOUNT {
        return Err(BufferError::InvalidAmount);
    }
    if bal.protected_shares < shares {
        return Err(BufferError::InsufficientProtected);
    }
    let available = match bal.available_shares.checked_add(shares) {
        Some(a) => a,
        None => {
            return Err(BufferError::MathOverflow);
        },
    };
    let version = match bal.version.checked_add(1) {
        Some(v) => v,
        None => {
            return Err(BufferError::MathOverflow);
        },
    };
    let nb = BufferBalance {
        available_shares: available,
        protected_shares: bal.protected_shares - shares,
        total_deposited: bal.total_deposited,
        last_deposit_ts: bal.last_deposit_ts,
        version,
    };
    Ok(
        (
            nb,
            LockResult {
                shares_locked: shares,
                new_available: nb.available_shares,
                new_protected: nb.protected_shares,
            },
        ),
    )
}

/// Debit `shares` from one pool of the balance; the host then burns them at
/// the reserve and pays the recipient.
pub fn withdraw_apply(bal: &BufferBalance, shares: i128, from_protected: bool) -> (r: Result<
    BufferBalance,
    BufferError,
>)
    ensures
        r == spec_withdraw_apply(*bal, shares as int, from_protected),
        r matches Ok(nb) ==> bal.well_formed() ==> nb.well_formed(),
{
    if shares < MIN_AMOUNT {
        return Err(BufferError::InvalidAmount);
    }
    if from_protected {
        if bal.protected_shares < shares {
            return Err(BufferError::InsufficientProtected);
        }
    } else {
        if bal.available_shares < shares {
            return Err(BufferError::InsufficientAvailable);
        }
    }
    let version = match bal.version.checked_add(1) {
        Some(v) => v,
        None => {
            return Err(BufferError::MathOverflow);
        },
    };
    Ok(
        BufferBalance {
            available_shares: if from_protected {
                bal.available_shares
            } else {
                bal.available_shares - shares
            },
            protected_shares: if from_protected {
                bal.protected_shares - shares
            } else {
                bal.protected_shares
            },
            total_deposited: bal.total_deposited,
            last_deposit_ts: bal.last_deposit_ts,
            version,
        },
    )
}

/// A user-authorized withdrawal from the available pool; gated by the
/// pause flag.
pub fn withdraw_available(bal: &BufferBalance, shares: i128, paused: bool) -> (r: Result<
    BufferBalance,
    BufferError,
>)
    ensures
        paused ==> r == Err::<BufferBalance, BufferError>(BufferError::ContractPaused),
        !paused ==> r == spec_withdraw_apply(*bal, shares as int, false),
{
    if paused {
        return Err(BufferError::ContractPaused);
    }
    withdraw_apply(bal, shares, false)
}

/// A plan-engine-authorized debit from the available pool; not gated by the
/// pause flag.
pub fn debit_available(bal: &BufferBalance, shares: i128) -> (r: Result<BufferBalance, BufferError>)
    ensures
        r == spec_withdraw_apply(*bal, shares as int, false),
{
    withdraw_apply(bal, shares, false)
}

/// A plan-engine-authorized debit from the protected pool; not gated by
/// the pause flag.
pub fn debit_protected(bal: &BufferBalance, shares: i128) -> (r: Result<BufferBalance, BufferError>)
    ensures
        r == spec_withdraw_apply(*bal, shares as int, true),
{
    withdraw_apply(bal, shares, true)
}

/// Assemble the report of a completed withdrawal from the debited balance
/// and the per-asset amounts the reserve paid out.
pub fn finish_withdraw(
    bal_after: &BufferBalance,
    shares: i128,
    amounts: Vec<i128>,
    from_protected: bool,
) -> (r: WithdrawResult)
    ensures
        r.shares_burned == shares,
        r.amounts_received == amounts,
        r.new_available_balance == bal_after.available_shares,
        r.from_protected == from_protected,
{
    WithdrawResult {
        shares_burned: shares,
        amounts_received: amounts,
        new_available_balance: bal_after.available_shares,
        from_protected,
    }
}

/// The balance split as (available, protected, total) share counts.
pub fn get_shares(bal: &BufferBalance) -> (r: Result<(i128, i128, i128), BufferError>)
    ensures
        fits_i128(bal.available_shares + bal.protected_shares) ==> r == Ok::<
            (i128, i128, i128),
            BufferError,
        >(
            (
                bal.available_shares,
                bal.protected_shares,
                (bal.available_shares + bal.protected_shares) as i128,
            ),
        ),
        !fits_i128(bal.available_shares + bal.protected_shares) ==> r == Err::<
            (i128, i128, i128),
            BufferError,
        >(BufferError::MathOverflow),
{
    match bal.available_shares.checked_add(bal.protected_shares) {
        Some(total) => Ok((bal.available_shares, bal.protected_shares, total)),
        None => Err(BufferError::MathOverflow),
    }
}

/// What [`deposit_prepare`] returns: the intent carried across the reserve
/// call, or the specific failure. The throttle rejects a deposit strictly
/// inside the minimum interval; one exactly at the boundary is accepted,
/// and a first-ever deposit is exempt.
pub open spec fn spec_deposit_prepare(
    bal: BufferBalance,
    config: ContractConfig,
    paused: bool,
    now: u64,
    amount: int,
    total_managed: int,
    total_shares: int,
) -> Result<DepositIntent, BufferError> {
    if paused {
        Err(BufferError::ContractPaused)
    } else if amount < MIN_AMOUNT {
        Err(BufferError::InvalidAmount)
    } else if bal.last_deposit_ts > 0 && now < bal.last_deposit_ts {
        Err(BufferError::InvalidTimestamp)
    } else if bal.last_deposit_ts > 0 && now - bal.last_deposit_ts < config.min_deposit_interval {
        Err(BufferError::DepositTooFrequent)
    } else {
        match spec_shares_for_amount(amount, total_managed, total_shares) {
            Err(e) => Err(e),
            Ok(expected) => match spec_mul_div(
                expected as int,
                config.slippage_tolerance_bps as int,
                BPS_DIVISOR as int,
            ) {
                Err(e) => Err(e),
                Ok(slippage) => if !fits_i128(expected - slippage) {
                    Err(BufferError::MathOverflow)
                } else {
                    Ok(
                        DepositIntent {
                            expected_shares: expected,
                            min_shares_out: (expected - slippage) as i128,
                            original_version: bal.version,
                            is_new_user: bal.version == 0,
                        },
                    )
                },
            },
        }
    }
}

/// What [`deposit_settle`] returns: the successor balance credited with the
/// shares the reserve actually minted, or the specific failure. The
/// version fence fails the deposit if the record changed during the
/// reserve call.
pub open spec fn spec_deposit_settle(
    current: BufferBalance,
    intent: DepositIntent,
    amount: int,
    actual_shares: int,
    now: u64,
) -> Result<(BufferBalance, DepositResult), BufferError> {
    if actual_shares <= 0 {
        Err(BufferError::InvalidVaultResponse)
    } else if actual_shares < intent.min_shares_out {
        Err(BufferError::SlippageExceeded)
    } else if current.version != intent.original_version {
        Err(BufferError::ConcurrentModification)
    } else if !fits_i128(current.available_shares + actual_shares) || !fits_i128(
        current.total_deposited + amount,
    ) || current.version == u64::MAX {
        Err(BufferError::MathOverflow)
    } else {
        let nb = BufferBalance {
            available_shares: (current.available_shares + actual_shares) as i128,
            protected_shares: current.protected_shares,
            total_deposited: (current.total_deposited + amount) as i128,
            last_deposit_ts: now,
            version: (current.version + 1) as u64,
        };
        Ok(
            (
                nb,
                DepositResult {
                    shares_minted: actual_shares as i128,
                    amount_deposited: amount as i128,
                    new_available_balance: nb.available_shares,
                    timestamp: now,
                },
            ),
        )
    }
}

/// Law: the deposit throttle. With the ledger unpaused, a positive amount
/// and a clock not behind the last deposit, a repeat deposit strictly
/// inside the minimum interval is rejected as too frequent, and one
/// exactly at the interval boundary (or later) is not.
pub proof fn lemma_deposit_throttle(
    bal: BufferBalance,
    config: ContractConfig,
    now: u64,
    amount: int,
    total_managed: int,
    total_shares: int,
)
    requires
        bal.last_deposit_ts > 0,
        now >= bal.last_deposit_ts,
        amount >= 1,
    ensures
        (now - bal.last_deposit_ts < config.min_deposit_interval) <==> spec_deposit_prepare(
            bal,
            config,
            false,
            now,
            amount,
            total_managed,
            total_shares,
        ) == Err::<DepositIntent, BufferError>(BufferError::DepositTooFrequent),
{
}

/// Validate a deposit request against the pause flag, the throttle and the
/// pricing adapter, and fix the least minted-share count the reserve's
/// response must meet.
pub fn deposit_prepare(
    bal: &BufferBalance,
    config: &ContractConfig,
    paused: bool,
    now: u64,
    amount: i128,
    total_managed: i128,
    total_shares: i128,
) -> (r: Result<DepositIntent, BufferError>)
    ensures
        r == spec_deposit_prepare(
            *bal,
            *config,
            paused,
            now,
            amount as int,
            total_managed as int,
            total_shares as int,
        ),
{
    if paused {
        return Err(BufferError::ContractPaused);
    }
    if amount < MIN_AMOUNT {
        return Err(BufferError::InvalidAmount);
    }
    if bal.last_deposit_ts > 0 {
        if now < bal.last_deposit_ts {
            return Err(BufferError::InvalidTimestamp);
        }
        if now - bal.last_deposit_ts < config.min_deposit_interval {
            return Err(BufferError::DepositTooFrequent);
        }
    }
    let expected = match shares_for_amount(amount, total_managed, total_shares) {
        Ok(s) => s,
        Err(e) => {
            return Err(e);
        },
    };
    let slippage = match mul_div(expected, config.slippage_tolerance_bps, BPS_DIVISOR) {
        Ok(s) => s,
        Err(e) => {
            return Err(e);
        },
    };
    let min_shares_out = match expected.checked_sub(slippage) {
        Some(m) => m,
        None => {
            return Err(BufferError::MathOverflow);
        },
    };
    Ok(
        DepositIntent {
            expected_shares: expected,
            min_shares_out,
            original_version: bal.version,
            is_new_user: bal.version == 0,
        },
    )
}

/// Judge the reserve's minted-share response against the intent's floor,
/// check the version fence against the re-read record, and credit the
/// balance.
pub fn deposit_settle(
    current: &BufferBalance,
    intent: &DepositIntent,
    amount: i128,
    actual_shares: i128,
    now: u64,
) -> (r: Result<(BufferBalance, DepositResult), BufferError>)
    ensures
        r == spec_deposit_settle(*current, *intent, amount as int, actual_shares as int, now),
        r matches Ok(p) ==> current.well_formed() ==> p.0.well_formed(),
{
    if actual_shares <= 0 {
        return Err(BufferError::InvalidVaultResponse);
    }
    if actual_shares < intent.min_shares_out {
        return Err(BufferError::SlippageExceeded);
    }
    if current.version != intent.original_version {
        return Err(BufferError::ConcurrentModification);
    }
    let available = match current.available_shares.checked_add(actual_shares) {
        Some(a) => a,
        None => {
            return Err(BufferError::MathOverflow);
        },
    };
    let deposited = match current.total_deposited.checked_add(amount) {
        Some(d) => d,
        None => {
            return Err(BufferError::MathOverflow);
        },
    };
    let version = match current.version.checked_add(1) {
        Some(v) => v,
        None => {
            return Err(BufferError::MathOverflow);
        },
    };
    let nb = BufferBalance {
        available_shares: available,
        protected_shares: current.protected_shares,
        total_deposited: deposited,
        last_deposit_ts: now,
        version,
    };
    Ok(
        (
            nb,
            DepositResult {
                shares_minted: actual_shares,
                amount_deposited: amount,
                new_available_balance: nb.available_shares,
                timestamp: now,
            },
        ),
    )
}

/// What [`get_values`] returns: the balance priced floor-rounded as
/// (available value, protected value, total value), the protected value
/// derived as the difference so rounding cannot make the three
/// inconsistent.
pub open spec fn spec_get_values(
    bal: BufferBalance,
    total_managed: int,
    vault_total_shares: int,
) -> Result<(i128, i128, i128), BufferError> {
    if !fits_i128(bal.available_shares + bal.protected_shares) {
        Err(BufferError::MathOverflow)
    } else {
        match spec_value_for_shares(
            bal.available_shares + bal.protected_shares,
            total_managed,
            vault_total_shares,
        ) {
            Err(e) => Err(e),
            Ok(total_value) => match spec_value_for_shares(
                bal.available_shares as int,
                total_managed,
                vault_total_shares,
            ) {
                Err(e) => Err(e),
                Ok(available_value) => if !fits_i128(total_value - available_value) {
                    Err(BufferError::MathOverflow)
                } else {
                    Ok((available_value, (total_value - available_value) as i128, total_value))
                },
            },
        }
    }
}

/// Price the balance split as (available value, protected value, total
/// value) against the reserve's reported totals.
pub fn get_values(bal: &BufferBalance, total_managed: i128, vault_total_shares: i128) -> (r: Result<
    (i128, i128, i128),
    BufferError,
>)
    ensures
        r == spec_get_values(*bal, total_managed as int, vault_total_shares as int),
{
    let total_bal_shares = match bal.available_shares.checked_add(bal.protected_shares) {
        Some(t) => t,
        None => {
            return Err(BufferError::MathOverflow);
        },
    };
    let total_value = match value_for_shares(total_bal_shares, total_managed, vault_total_shares) {
        Ok(v) => v,
        Err(e) => {
            return Err(e);
        },
    };
    let available_value = match value_for_shares(
        bal.available_shares,
        total_managed,
        vault_total_shares,
    ) {
        Ok(v) => v,
        Err(e) => {
            return Err(e);
        },
    };
    let protected_value = match total_value.checked_sub(available_value) {
        Some(p) => p,
        None => {
            return Err(BufferError::MathOverflow);
        },
    };
    Ok((available_value, protected_value, total_value))
}

/// What [`update_total_stats`] returns: the aggregate shifted by the three
/// deltas, counting one more distinct user on a first-ever deposit.
pub open spec fn spec_update_total_stats(
    stats: TotalStats,
    available_delta: int,
    protected_delta: int,
    deposited_delta: int,
    is_new_user: bool,
) -> Result<TotalStats, BufferError> {
    if !fits_i128(stats.total_available + available_delta) || !fits_i128(
        stats.total_protected + protected_delta,
    ) || !fits_i128(stats.total_deposited + deposited_delta) || (is_new_user && stats.unique_users
        == u32::MAX) {
        Err(BufferError::MathOverflow)
    } else {
        Ok(
            TotalStats {
                total_available: (stats.total_available + available_delta) as i128,
                total_protected: (stats.total_protected + protected_delta) as i128,
                total_deposited: (stats.total_deposited + deposited_delta) as i128,
                unique_users: if is_new_user {
                    (stats.unique_users + 1) as u32
                } else {
                    stats.unique_users
                },
            },
        )
    }
}

/// Shift the running totals by what a balance-affecting operation changed.
pub fn update_total_stats(
    stats: &TotalStats,
    available_delta: i128,
    protected_delta: i128,
    deposited_delta: i128,
    is_new_user: bool,
) -> (r: Result<TotalStats, BufferError>)
    ensures
        r == spec_update_total_stats(
            *stats,
            available_delta as int,
            protected_delta as int,
            deposited_delta as int,
            is_new_user,
        ),
{
    let total_available = match stats.total_available.checked_add(available_delta) {
        Some(t) => t,
        None => {
            return Err(BufferError::MathOverflow);
        },
    };
    let total_protected = match stats.total_protected.checked_add(protected_delta) {
        Some(t) => t,
        None => {
            return Err(BufferError::MathOverflow);
        },
    };
    let total_deposited = match stats.total_deposited.checked_add(deposited_delta) {
        Some(t) => t,
        None => {
            return Err(BufferError::MathOverflow);
        },
    };
    let unique_users = if is_new_user {
        match stats.unique_users.checked_add(1) {
            Some(u) => u,
            None => {
                return Err(BufferError::MathOverflow);
            },
        }
    } else {
        stats.unique_users
    };
    Ok(TotalStats { total_available, total_protected, total_deposited, unique_users })
}

/// The exact sum of a sequence of reported per-asset amounts.
pub open spec fn sum_i128(s: Seq<i128>) -> int
    decreases s.len(),
{
    if s.len() == 0 {
        0
    } else {
        sum_i128(s.drop_last()) + s.last()
    }
}

/// Total managed value across every asset the reserve reports. Fails with
/// the overflow condition as soon as a running prefix sum leaves the i128
/// range, as the host's accumulation would.
pub fn sum_reported(amounts: &Vec<i128>) -> (r: Result<i128, BufferError>)
    ensures
        r matches Ok(total) ==> total == sum_i128(amounts@) && forall|i: int|
            0 <= i <= amounts@.len() ==> fits_i128(sum_i128(#[trigger] amounts@.take(i))),
        r matches Err(e) ==> e == BufferError::MathOverflow && exists|i: int|
            0 <= i <= amounts@.len() && !fits_i128(sum_i128(#[trigger] amounts@.take(i))),
{
    let mut total: i128 = 0;
    let mut idx: usize = 0;
    proof {
        assert(amounts@.take(0) =~= Seq::<i128>::empty());
    }
    while idx < amounts.len()
        invariant
            0 <= idx <= amounts@.len(),
            total == sum_i128(amounts@.take(idx as int)),
            forall|i: int| 0 <= i <= idx ==> fits_i128(sum_i128(#[trigger] amounts@.take(i))),
        decreases amounts@.len() - idx,
    {
        let ghost prev = amounts@.take(idx as int);
        let next = match total.checked_add(amounts[idx]) {
            Some(t) => t,
            None => {
                proof {
                    assert(amounts@.take(idx + 1).drop_last() =~= amounts@.take(idx as int));
                    assert(sum_i128(amounts@.take(idx + 1)) == total + amounts@[idx as int]);
                }
                return Err(BufferError::MathOverflow);
            },
        };
        proof {
            assert(amounts@.take(idx + 1).drop_last() =~= amounts@.take(idx as int));
            assert(sum_i128(amounts@.take(idx + 1)) == total + amounts@[idx as int]);
        }
        total = next;
        idx = idx + 1;
    }
    proof {
        assert(amounts@.take(amounts@.len() as int) =~= amounts@);
    }
    Ok(total)
}

} // verus!
