//! The installment plan engine: plan creation under the collateral policy,
//! and the collection protocol that falls back between the two collateral
//! pools and detects default and completion.
//!
//! Plan states move Active to Completed (all installments paid) or Active
//! to Defaulted (an installment failed to collect); both are terminal.
//! Each installment slot moves Pending to Paid or Pending to Failed, also
//! terminal.

use vstd::prelude::*;
use vstd::arithmetic::div_mod::{
    lemma_fundamental_div_mod, lemma_div_pos_is_pos, lemma_div_nonincreasing,
};
use crate::errors::{BufferError, ContractError};
use crate::math::{fits_i128, tdiv};
use crate::pricing::{spec_shares_for_amount, shares_for_amount};
use crate::ledger::{
    BufferBalance, spec_lock_shares, lock_shares, spec_unlock_shares, unlock_shares,
    spec_withdraw_apply, debit_available, debit_protected, spec_get_values, get_values,
};
use crate::policy::{spec_validate_plan_request, validate_plan_request, spec_max_loan_amount};

verus! {

/// Largest number of installments a plan may carry.
pub const MAX_INSTALLMENTS: u32 = 12;

/// A plan's lifecycle state.
#[derive(Clone, Copy, Debug, PartialEq, Eq, Structural)]
pub enum PlanStatus {
    /// Installments remain pending.
    Active,
    /// Every installment was paid; terminal.
    Completed,
    /// An installment failed to collect; terminal.
    Defaulted,
}

/// One installment slot's state.
#[derive(Clone, Copy, Debug, PartialEq, Eq, Structural)]
pub enum InstallmentStatus {
    Pending,
    Paid,
    Failed,
}

/// Which pool funded a payment: 0 for available, 1 for protected.
#[derive(Clone, Copy, Debug, PartialEq, Eq, Structural)]
pub struct PaymentSource(pub u32);

impl PaymentSource {
    /// The tag of a payment funded from the available pool.
    pub fn available() -> (s: PaymentSource)
        ensures
            s.0 == 0,
    {
        PaymentSource(0)
    }

    /// The tag of a payment funded from the protected pool.
    pub fn protected() -> (s: PaymentSource)
        ensures
            s.0 == 1,
    {
        PaymentSource(1)
    }

    pub fn is_available(&self) -> (b: bool)
        ensures
            b == (self.0 == 0),
    {
        self.0 == 0
    }

    pub fn is_protected(&self) -> (b: bool)
        ensures
            b == (self.0 == 1),
    {
        self.0 == 1
    }

    pub fn to_u32(&self) -> (v: u32)
        ensures
            v == self.0,
    {
        self.0
    }
}

/// One installment of a plan; slot index is `number - 1`.
#[derive(Clone, Copy, Debug, PartialEq, Eq)]
pub struct Installment {
    /// 1-based position in the plan.
    pub number: u32,
    pub amount: i128,
    pub due_date: u64,
    /// Set only on successful collection.
    pub paid_at: Option<u64>,
    /// Set only on successful collection.
    pub payment_source: Option<PaymentSource>,
    pub status: InstallmentStatus,
}

/// An installment financing plan backed by locked shares.
#[derive(Debug, PartialEq, Eq)]
pub struct BridgePlan {
    /// Unique identifier, assigned from a monotonically increasing counter.
    pub plan_id: u64,
    /// The borrower.
    pub user: u64,
    /// The payee.
    pub merchant: u64,
    /// Sum of all installment amounts; fixed at creation.
    pub total_amount: i128,
    /// Shares locked at creation to back the plan; fixed at creation.
    pub total_shares: i128,
    /// Number of installments; fixed at creation.
    pub installments_count: u32,
    pub installments: Vec<Installment>,
    /// Shares still recorded as collateral for this plan; non-increasing
    /// after creation, zero on completion.
    pub protected_shares: i128,
    pub status: PlanStatus,
    pub created_at: u64,
}

/// The mathematical model of a plan: the installment sequence freed from
/// its container.
pub struct PlanModel {
    pub plan_id: u64,
    pub user: u64,
    pub merchant: u64,
    pub total_amount: i128,
    pub total_shares: i128,
    pub installments_count: u32,
    pub installments: Seq<Installment>,
    pub protected_shares: i128,
    pub status: PlanStatus,
    pub created_at: u64,
}

impl View for BridgePlan {
    type V = PlanModel;

    open spec fn view(&self) -> PlanModel {
        PlanModel {
            plan_id: self.plan_id,
            user: self.user,
            merchant: self.merchant,
            total_amount: self.total_amount,
            total_shares: self.total_shares,
            installments_count: self.installments_count,
            installments: self.installments@,
            protected_shares: self.protected_shares,
            status: self.status,
            created_at: self.created_at,
        }
    }
}

/// The exact sum of the amounts of a sequence of installments.
pub open spec fn sum_amounts(s: Seq<Installment>) -> int
    decreases s.len(),
{
    if s.len() == 0 {
        0
    } else {
        sum_amounts(s.drop_last()) + s.last().amount
    }
}

impl PlanModel {
    /// The stated invariant of every persisted plan: the count is in
    /// range, the slots carry their 1-based numbers, the amounts
    /// reconstruct the total exactly, and the recorded collateral is
    /// never negative.
    pub open spec fn well_formed(self) -> bool {
        &&& 1 <= self.installments_count <= MAX_INSTALLMENTS
        &&& self.installments.len() == self.installments_count
        &&& self.total_amount >= 1
        &&& self.total_shares >= 1
        &&& self.protected_shares >= 0
        &&& sum_amounts(self.installments) == self.total_amount
        &&& forall|i: int|
            0 <= i < self.installments.len() ==> (#[trigger] self.installments[i]).number == i + 1
    }
}

/// The amount of slot `i` when `total` is split into `count` equal integer
/// parts: the remainder of the division is carried entirely by the last
/// slot, so the parts reconstruct the total exactly.
pub open spec fn spec_installment_amount(total: int, count: int, i: int) -> int
    recommends
        total >= 1,
        1 <= count,
        0 <= i < count,
{
    if i == count - 1 {
        total / count + total % count
    } else {
        total / count
    }
}

/// The freshly built installment schedule of a new plan: every slot
/// Pending, unpaid, due at its given date.
pub open spec fn spec_new_installments(total: int, count: int, due_dates: Seq<u64>) -> Seq<
    Installment,
> {
    Seq::new(
        count as nat,
        |i: int|
            Installment {
                number: (i + 1) as u32,
                amount: spec_installment_amount(total, count, i) as i128,
                due_date: due_dates[i],
                paid_at: None,
                payment_source: None,
                status: InstallmentStatus::Pending,
            },
    )
}

/// Each prefix of the fresh schedule sums to the equal part times its
/// length; the full schedule sums to the total exactly.
proof fn lemma_sum_new_installments_prefix(total: int, count: int, due_dates: Seq<u64>, k: int)
    requires
        1 <= count <= MAX_INSTALLMENTS,
        1 <= total <= i128::MAX,
        due_dates.len() == count,
        0 <= k <= count,
    ensures
        sum_amounts(spec_new_installments(total, count, due_dates).take(k)) == if k == count {
            total
        } else {
            (total / count) * k
        },
    decreases k,
{
    let s = spec_new_installments(total, count, due_dates);
    let per = total / count;
    let rem = total % count;
    lemma_div_pos_is_pos(total, count);
    lemma_div_nonincreasing(total, count);
    lemma_fundamental_div_mod(total, count);
    assert(per + rem <= total) by (nonlinear_arith)
        requires
            total == count * per + rem,
            per >= 0,
            count >= 1,
            rem >= 0,
    ;
    if k == 0 {
        assert(s.take(0) =~= Seq::<Installment>::empty());
        assert(per * 0 == 0) by (nonlinear_arith);
    } else {
        lemma_sum_new_installments_prefix(total, count, due_dates, k - 1);
        assert(s.take(k).drop_last() =~= s.take(k - 1));
        assert(s.take(k).last() == s[k - 1]);
        if k == count {
            assert(s[k - 1].amount == (per + rem) as i128);
            assert(per * (k - 1) + (per + rem) == total) by (nonlinear_arith)
                requires
                    total == count * per + rem,
                    k == count,
            ;
            if k == 1 {
                assert(sum_amounts(s.take(0)) == 0);
            }
        } else {
            assert(s[k - 1].amount == per as i128);
            assert(per * (k - 1) + per == per * k) by (nonlinear_arith);
        }
    }
}

/// What [`validate_plan_inputs`] returns: the first violated basic
/// validation — non-positive amount, count out of range, date list length
/// mismatch, a date not strictly in the future — or acceptance.
pub open spec fn spec_validate_plan_inputs(
    total_amount: int,
    installments_count: u32,
    due_dates: Seq<u64>,
    now: u64,
) -> Result<(), ContractError> {
    if total_amount <= 0 {
        Err(ContractError::InvalidAmount)
    } else if installments_count == 0 || installments_count > MAX_INSTALLMENTS {
        Err(ContractError::InvalidInstallments)
    } else if due_dates.len() != installments_count {
        Err(ContractError::DatesMismatch)
    } else if exists|i: int| 0 <= i < due_dates.len() && due_dates[i] <= now {
        Err(ContractError::InvalidDueDate)
    } else {
        Ok(())
    }
}

/// The basic validations of a plan request, before any ledger call.
pub fn validate_plan_inputs(
    total_amount: i128,
    installments_count: u32,
    due_dates: &Vec<u64>,
    now: u64,
) -> (r: Result<(), ContractError>)
    ensures
        r == spec_validate_plan_inputs(total_amount as int, installments_count, due_dates@, now),
{
    if total_amount <= 0 {
        return Err(ContractError::InvalidAmount);
    }
    if installments_count == 0 || installments_count > MAX_INSTALLMENTS {
        return Err(ContractError::InvalidInstallments);
    }
    if due_dates.len() != installments_count as usize {
        return Err(ContractError::DatesMismatch);
    }
    let mut i: usize = 0;
    while i < due_dates.len()
        invariant
            0 <= i <= due_dates@.len(),
            total_amount >= 1,
            1 <= installments_count <= MAX_INSTALLMENTS,
            due_dates@.len() == installments_count,
            forall|j: int| 0 <= j < i ==> due_dates@[j] > now,
        decreases due_dates@.len() - i,
    {
        if due_dates[i] <= now {
            proof {
                assert(exists|j: int| 0 <= j < due_dates@.len() && due_dates@[j] <= now) by {
                    assert(0 <= (i as int) < due_dates@.len() && due_dates@[i as int] <= now);
                }
            }
            return Err(ContractError::InvalidDueDate);
        }
        i = i + 1;
    }
    Ok(())
}

/// Build the installment schedule of a validated request: equal integer
/// parts of the total, the remainder carried entirely by the last slot,
/// every slot Pending.
pub fn build_installments(
    total_amount: i128,
    installments_count: u32,
    due_dates: &Vec<u64>,
) -> (r: Vec<Installment>)
    requires
        total_amount >= 1,
        1 <= installments_count <= MAX_INSTALLMENTS,
        due_dates@.len() == installments_count,
    ensures
        r@ == spec_new_installments(total_amount as int, installments_count as int, due_dates@),
        sum_amounts(r@) == total_amount as int,
{
    let count = installments_count as i128;
    proof {
        lemma_div_pos_is_pos(total_amount as int, count as int);
        lemma_div_nonincreasing(total_amount as int, count as int);
        lemma_fundamental_div_mod(total_amount as int, count as int);
    }
    let per = match total_amount.checked_div(count) {
        Some(v) => v,
        None => {
            proof {
                assert(false);
            }
            0
        },
    };
    let rem = match total_amount.checked_rem(count) {
        Some(v) => v,
        None => {
            proof {
                assert(false);
            }
            0
        },
    };
    proof {
        assert(per + rem <= total_amount) by (nonlinear_arith)
            requires
                total_amount as int == (count as int) * (per as int) + rem,
                per >= 0,
                count >= 1,
                rem >= 0,
        ;
    }
    let ghost spec_insts = spec_new_installments(
        total_amount as int,
        installments_count as int,
        due_dates@,
    );
    let mut installments: Vec<Installment> = Vec::new();
    let mut slot: u32 = 0;
    while slot < installments_count
        invariant
            0 <= slot <= installments_count,
            1 <= installments_count <= MAX_INSTALLMENTS,
            due_dates@.len() == installments_count,
            total_amount >= 1,
            per == total_amount as int / installments_count as int,
            rem == total_amount as int % installments_count as int,
            per >= 0,
            rem >= 0,
            per + rem <= total_amount,
            spec_insts == spec_new_installments(
                total_amount as int,
                installments_count as int,
                due_dates@,
            ),
            installments@ == spec_insts.take(slot as int),
        decreases installments_count - slot,
    {
        let amount: i128 = if slot == installments_count - 1 {
            per + rem
        } else {
            per
        };
        let inst = Installment {
            number: slot + 1,
            amount,
            due_date: due_dates[slot as usize],
            paid_at: None,
            payment_source: None,
            status: InstallmentStatus::Pending,
        };
        proof {
            assert(spec_insts[slot as int] == inst);
            assert(spec_insts.take(slot + 1) =~= spec_insts.take(slot as int).push(
                spec_insts[slot as int],
            ));
        }
        installments.push(inst);
        slot = slot + 1;
    }
    proof {
        assert(spec_insts.take(installments_count as int) =~= spec_insts);
        lemma_sum_new_installments_prefix(
            total_amount as int,
            installments_count as int,
            due_dates@,
            installments_count as int,
        );
    }
    installments
}

/// What [`create_plan`] returns: the persisted plan and the ledger balance
/// with the collateral locked, or the specific failure. Validation order:
/// the basic input validations, the ledger valuation, the loan-to-value
/// ceiling before availability, the share quote, the collateral lock.
pub open spec fn spec_create_plan(
    bal: BufferBalance,
    paused: bool,
    plan_id: u64,
    user: u64,
    merchant: u64,
    total_amount: int,
    installments_count: u32,
    due_dates: Seq<u64>,
    now: u64,
    total_managed: int,
    vault_total_shares: int,
) -> Result<(PlanModel, BufferBalance), ContractError> {
    match spec_validate_plan_inputs(total_amount, installments_count, due_dates, now) {
        Err(e) => Err(e),
        Ok(_) => match spec_get_values(bal, total_managed, vault_total_shares) {
            Err(_) => Err(ContractError::BufferContractError),
            Ok(values) => match spec_validate_plan_request(
                total_amount,
                values.0 as int,
                values.2 as int,
            ) {
                Err(e) => Err(e),
                Ok(_) => match spec_shares_for_amount(
                    total_amount,
                    total_managed,
                    vault_total_shares,
                ) {
                    Err(_) => Err(ContractError::BufferContractError),
                    Ok(shares_needed) => if shares_needed <= 0 {
                        Err(ContractError::InvalidShares)
                    } else {
                        match spec_lock_shares(bal, shares_needed as int, paused) {
                            Err(_) => Err(ContractError::BufferContractError),
                            Ok(locked) => Ok(
                                (
                                    PlanModel {
                                        plan_id,
                                        user,
                                        merchant,
                                        total_amount: total_amount as i128,
                                        total_shares: shares_needed,
                                        installments_count,
                                        installments: spec_new_installments(
                                            total_amount,
                                            installments_count as int,
                                            due_dates,
                                        ),
                                        protected_shares: shares_needed,
                                        status: PlanStatus::Active,
                                        created_at: now,
                                    },
                                    locked.0,
                                ),
                            ),
                        }
                    },
                },
            },
        },
    }
}

/// Create an installment plan: validate the request, enforce the
/// loan-to-value ceiling and availability, quote and lock the collateral
/// shares, and split the amount into equal parts with the remainder
/// carried by the last installment.
pub fn create_plan(
    bal: &BufferBalance,
    paused: bool,
    plan_id: u64,
    user: u64,
    merchant: u64,
    total_amount: i128,
    installments_count: u32,
    due_dates: &Vec<u64>,
    now: u64,
    total_managed: i128,
    vault_total_shares: i128,
) -> (r: Result<(BridgePlan, BufferBalance), ContractError>)
    ensures
        (match (
            r,
            spec_create_plan(
                *bal,
                paused,
                plan_id,
                user,
                merchant,
                total_amount as int,
                installments_count,
                due_dates@,
                now,
                total_managed as int,
                vault_total_shares as int,
            ),
        ) {
            (Ok(p), Ok(m)) => p.0@ == m.0 && p.1 == m.1,
            (Err(e), Err(me)) => e == me,
            _ => false,
        }),
        // The parts always reconstruct the whole: a created plan's
        // installment amounts sum exactly to the requested total.
        r matches Ok(p) ==> sum_amounts(p.0@.installments) == total_amount as int,
        // A created plan observes the loan-to-value ceiling against the
        // total value the ledger reported.
        r matches Ok(p) ==> (spec_get_values(
            *bal,
            total_managed as int,
            vault_total_shares as int,
        ) matches Ok(values) && total_amount as int <= spec_max_loan_amount(values.2 as int)),
        r matches Ok(p) ==> p.0@.well_formed(),
{
    match validate_plan_inputs(total_amount, installments_count, due_dates, now) {
        Ok(_) => {},
        Err(e) => {
            return Err(e);
        },
    }
    let (available_value, total_value) = match get_values(bal, total_managed, vault_total_shares) {
        Ok(values) => (values.0, values.2),
        Err(_) => {
            return Err(ContractError::BufferContractError);
        },
    };
    match validate_plan_request(total_amount, available_value, total_value) {
        Ok(_) => {},
        Err(e) => {
            return Err(e);
        },
    }
    let shares_needed = match shares_for_amount(total_amount, total_managed, vault_total_shares) {
        Ok(s) => s,
        Err(_) => {
            return Err(ContractError::BufferContractError);
        },
    };
    if shares_needed <= 0 {
        return Err(ContractError::InvalidShares);
    }
    let new_bal = match lock_shares(bal, shares_needed, paused) {
        Ok(locked) => locked.0,
        Err(_) => {
            return Err(ContractError::BufferContractError);
        },
    };
    let installments = build_installments(total_amount, installments_count, due_dates);
    let plan = BridgePlan {
        plan_id,
        user,
        merchant,
        total_amount,
        total_shares: shares_needed,
        installments_count,
        installments,
        protected_shares: shares_needed,
        status: PlanStatus::Active,
        created_at: now,
    };
    Ok((plan, new_bal))
}

/// The proportional collateral release for a payment: the paid shares
/// scaled by the plan's original shares-per-amount ratio, floor division;
/// zero when the product leaves the i128 range, tolerating rounding drift
/// rather than failing.
pub open spec fn spec_proportional_unlock(needed: int, total_shares: int, total_amount: int) -> int
    recommends
        total_amount > 0,
{
    if !fits_i128(needed * total_shares) {
        0
    } else {
        tdiv(needed * total_shares, total_amount)
    }
}

/// Subtraction clamped to zero: the recorded collateral never goes
/// negative, and an out-of-range difference also collapses to zero.
pub open spec fn spec_clamped_sub(a: int, b: int) -> i128 {
    if a - b < 0 {
        0
    } else if a - b > i128::MAX {
        0
    } else {
        (a - b) as i128
    }
}

fn proportional_unlock(needed: i128, total_shares: i128, total_amount: i128) -> (r: i128)
    requires
        total_amount > 0,
    ensures
        r as int == spec_proportional_unlock(
            needed as int,
            total_shares as int,
            total_amount as int,
        ),
{
    let prod = match needed.checked_mul(total_shares) {
        Some(p) => p,
        None => {
            return 0;
        },
    };
    proof {
        if prod >= 0 {
            lemma_div_pos_is_pos(prod as int, total_amount as int);
            lemma_div_nonincreasing(prod as int, total_amount as int);
        } else {
            lemma_div_pos_is_pos((prod as int) * -1, total_amount as int);
            lemma_div_nonincreasing((prod as int) * -1, total_amount as int);
        }
    }
    match prod.checked_div(total_amount) {
        Some(q) => q,
        None => {
            proof {
                assert(false);
            }
            0
        },
    }
}

fn clamped_sub(a: i128, b: i128) -> (r: i128)
    ensures
        r == spec_clamped_sub(a as int, b as int),
{
    match a.checked_sub(b) {
        Some(v) => if v < 0 {
            0
        } else {
            v
        },
        None => 0,
    }
}

/// Replacing one installment with one of equal amount leaves the sum of
/// amounts unchanged.
proof fn lemma_sum_amounts_update(s: Seq<Installment>, i: int, x: Installment)
    requires
        0 <= i < s.len(),
        x.amount == s[i].amount,
    ensures
        sum_amounts(s.update(i, x)) == sum_amounts(s),
    decreases s.len(),
{
    if i == s.len() - 1 {
        assert(s.update(i, x).drop_last() =~= s.drop_last());
        assert(s.update(i, x).last() == x);
    } else {
        assert(s.update(i, x).drop_last() =~= s.drop_last().update(i, x));
        assert(s.update(i, x).last() == s.last());
        lemma_sum_amounts_update(s.drop_last(), i, x);
    }
}

/// The committed outcome of a funded collection: the slot marked Paid with
/// its source and time; if that leaves every slot Paid, the plan completes
/// and any residual recorded collateral is unlocked back to the available
/// pool and zeroed. A failure of that release aborts the whole call,
/// reverting to `orig_bal` and the unmodified plan.
pub open spec fn spec_collect_finish(
    plan: PlanModel,
    nb: BufferBalance,
    idx: int,
    now: u64,
    source: PaymentSource,
    new_protected: i128,
    orig_bal: BufferBalance,
) -> (PlanModel, BufferBalance, Result<PaymentSource, ContractError>) {
    let paid = Installment {
        paid_at: Some(now),
        payment_source: Some(source),
        status: InstallmentStatus::Paid,
        ..plan.installments[idx]
    };
    let insts = plan.installments.update(idx, paid);
    let all_paid = forall|i: int|
        0 <= i < insts.len() ==> (#[trigger] insts[i]).status is Paid;
    if all_paid {
        if new_protected > 0 {
            match spec_unlock_shares(nb, new_protected as int) {
                Err(_) => (plan, orig_bal, Err(ContractError::BufferContractError)),
                Ok(unlocked) => (
                    PlanModel {
                        installments: insts,
                        protected_shares: 0,
                        status: PlanStatus::Completed,
                        ..plan
                    },
                    unlocked.0,
                    Ok(source),
                ),
            }
        } else {
            (
                PlanModel {
                    installments: insts,
                    protected_shares: new_protected,
                    status: PlanStatus::Completed,
                    ..plan
                },
                nb,
                Ok(source),
            )
        }
    } else {
        (
            PlanModel { installments: insts, protected_shares: new_protected, ..plan },
            nb,
            Ok(source),
        )
    }
}

/// The resolution of a due, Pending installment once its share cost is
/// known: the available pool in strict priority, the protected pool as
/// fallback, and otherwise the terminal failure marking — slot Failed,
/// plan Defaulted — committed alongside the reported error.
pub open spec fn spec_collect_resolved(
    plan: PlanModel,
    bal: BufferBalance,
    idx: int,
    now: u64,
    needed: i128,
) -> (PlanModel, BufferBalance, Result<PaymentSource, ContractError>) {
    if bal.available_shares >= needed {
        match spec_withdraw_apply(bal, needed as int, false) {
            Err(_) => (plan, bal, Err(ContractError::BufferContractError)),
            Ok(nb) => {
                let new_protected = if plan.total_amount > 0 {
                    spec_clamped_sub(
                        plan.protected_shares as int,
                        spec_proportional_unlock(
                            needed as int,
                            plan.total_shares as int,
                            plan.total_amount as int,
                        ),
                    )
                } else {
                    plan.protected_shares
                };
                spec_collect_finish(plan, nb, idx, now, PaymentSource(0), new_protected, bal)
            },
        }
    } else if bal.protected_shares >= needed {
        match spec_withdraw_apply(bal, needed as int, true) {
            Err(_) => (plan, bal, Err(ContractError::BufferContractError)),
            Ok(nb) => {
                let new_protected = spec_clamped_sub(plan.protected_shares as int, needed as int);
                spec_collect_finish(plan, nb, idx, now, PaymentSource(1), new_protected, bal)
            },
        }
    } else {
        let failed = Installment { status: InstallmentStatus::Failed, ..plan.installments[idx] };
        (
            PlanModel {
                installments: plan.installments.update(idx, failed),
                status: PlanStatus::Defaulted,
                ..plan
            },
            bal,
            Err(ContractError::InsufficientFunds),
        )
    }
}

/// What [`collect_with_quote`] returns: the successor plan and balance
/// and the funding pool, or the specific failure, once the share cost of
/// the slot is quoted. Validation order: slot existence, slot still
/// Pending, slot due; then resolution against the two pools.
pub open spec fn spec_collect_with_quote(
    plan: PlanModel,
    bal: BufferBalance,
    installment_number: u32,
    now: u64,
    needed: i128,
) -> (PlanModel, BufferBalance, Result<PaymentSource, ContractError>) {
    if installment_number < 1 || installment_number > plan.installments.len() {
        (plan, bal, Err(ContractError::InstallmentNotFound))
    } else {
        let idx = installment_number - 1;
        let inst = plan.installments[idx as int];
        if !(inst.status is Pending) {
            (plan, bal, Err(ContractError::AlreadyPaid))
        } else if now < inst.due_date {
            (plan, bal, Err(ContractError::NotDueYet))
        } else {
            spec_collect_resolved(plan, bal, idx as int, now, needed)
        }
    }
}

/// What [`collect_installment`] returns: the slot's share cost is quoted
/// by the pricing adapter against the reported reserve totals, and the
/// collection is resolved with that quote.
pub open spec fn spec_collect_installment(
    plan: PlanModel,
    bal: BufferBalance,
    installment_number: u32,
    now: u64,
    total_managed: int,
    vault_total_shares: int,
) -> (PlanModel, BufferBalance, Result<PaymentSource, ContractError>) {
    if installment_number < 1 || installment_number > plan.installments.len() {
        (plan, bal, Err(ContractError::InstallmentNotFound))
    } else {
        let idx = installment_number - 1;
        let inst = plan.installments[idx as int];
        if !(inst.status is Pending) {
            (plan, bal, Err(ContractError::AlreadyPaid))
        } else if now < inst.due_date {
            (plan, bal, Err(ContractError::NotDueYet))
        } else {
            match spec_shares_for_amount(inst.amount as int, total_managed, vault_total_shares) {
                Err(_) => (plan, bal, Err(ContractError::BufferContractError)),
                Ok(needed) => spec_collect_resolved(plan, bal, idx as int, now, needed),
            }
        }
    }
}

/// Resolve the collection of a due installment given its quoted share
/// cost: debit the available pool if it suffices, fall back to the
/// protected pool, and otherwise commit the terminal default marking. On
/// success the slot is stamped Paid; paying the last Pending slot
/// completes the plan and releases any residual collateral. A host whose
/// plan engine reaches the ledger only through an opaque channel obtains
/// the quote there and hands it in.
pub fn collect_with_quote(
    plan: BridgePlan,
    bal: BufferBalance,
    installment_number: u32,
    now: u64,
    needed: i128,
) -> (r: (BridgePlan, BufferBalance, Result<PaymentSource, ContractError>))
    ensures
        (r.0@, r.1, r.2) == spec_collect_with_quote(plan@, bal, installment_number, now, needed),
        plan@.well_formed() ==> r.0@.well_formed(),
        bal.well_formed() ==> r.1.well_formed(),
{
    if installment_number < 1 || installment_number as usize > plan.installments.len() {
        return (plan, bal, Err(ContractError::InstallmentNotFound));
    }
    let idx = (installment_number - 1) as usize;
    let inst = plan.installments[idx];
    if inst.status != InstallmentStatus::Pending {
        return (plan, bal, Err(ContractError::AlreadyPaid));
    }
    if now < inst.due_date {
        return (plan, bal, Err(ContractError::NotDueYet));
    }
    let from_available = bal.available_shares >= needed;
    if !from_available && bal.protected_shares < needed {
        let mut plan2 = plan;
        let failed = Installment {
            number: inst.number,
            amount: inst.amount,
            due_date: inst.due_date,
            paid_at: inst.paid_at,
            payment_source: inst.payment_source,
            status: InstallmentStatus::Failed,
        };
        plan2.installments[idx] = failed;
        plan2.status = PlanStatus::Defaulted;
        proof {
            lemma_sum_amounts_update(plan@.installments, idx as int, failed);
        }
        return (plan2, bal, Err(ContractError::InsufficientFunds));
    }
    let nb = match (if from_available {
        debit_available(&bal, needed)
    } else {
        debit_protected(&bal, needed)
    }) {
        Ok(b) => b,
        Err(_) => {
            return (plan, bal, Err(ContractError::BufferContractError));
        },
    };
    let new_protected = if from_available {
        if plan.total_amount > 0 {
            let unlock_amt = proportional_unlock(needed, plan.total_shares, plan.total_amount);
            clamped_sub(plan.protected_shares, unlock_amt)
        } else {
            plan.protected_shares
        }
    } else {
        clamped_sub(plan.protected_shares, needed)
    };
    let source = if from_available {
        PaymentSource::available()
    } else {
        PaymentSource::protected()
    };
    let paid = Installment {
        number: inst.number,
        amount: inst.amount,
        due_date: inst.due_date,
        paid_at: Some(now),
        payment_source: Some(source),
        status: InstallmentStatus::Paid,
    };
    // Whether every other slot is already Paid, so that marking this one
    // Paid would complete the plan.
    let mut all_other_paid = true;
    let mut i: usize = 0;
    while i < plan.installments.len()
        invariant
            0 <= i <= plan@.installments.len(),
            idx < plan@.installments.len(),
            all_other_paid == (forall|j: int|
                0 <= j < i && j != idx ==> (#[trigger] plan@.installments[j]).status
                    is Paid),
        decreases plan@.installments.len() - i,
    {
        if i != idx && plan.installments[i].status != InstallmentStatus::Paid {
            all_other_paid = false;
        }
        i = i + 1;
    }
    let ghost insts2 = plan@.installments.update(idx as int, paid);
    proof {
        assert(forall|j: int|
            0 <= j < insts2.len() && j != idx ==> insts2[j] == plan@.installments[j]);
        assert(insts2[idx as int] == paid);
        lemma_sum_amounts_update(plan@.installments, idx as int, paid);
        if all_other_paid {
            assert(forall|j: int| 0 <= j < insts2.len() ==> (#[trigger] insts2[j]).status
                is Paid);
        } else {
            let ghost_insts = plan@.installments;
            let j = choose|j: int|
                0 <= j < ghost_insts.len() && j != idx && !((#[trigger] ghost_insts[j]).status
                    is Paid);
            assert(!(insts2[j].status is Paid));
        }
    }
    if all_other_paid {
        if new_protected > 0 {
            match unlock_shares(&nb, new_protected) {
                Ok(unlocked) => {
                    let mut plan2 = plan;
                    plan2.installments[idx] = paid;
                    plan2.protected_shares = 0;
                    plan2.status = PlanStatus::Completed;
                    (plan2, unlocked.0, Ok(source))
                },
                Err(_) => (plan, bal, Err(ContractError::BufferContractError)),
            }
        } else {
            let mut plan2 = plan;
            plan2.installments[idx] = paid;
            plan2.protected_shares = new_protected;
            plan2.status = PlanStatus::Completed;
            (plan2, nb, Ok(source))
        }
    } else {
        let mut plan2 = plan;
        plan2.installments[idx] = paid;
        plan2.protected_shares = new_protected;
        (plan2, nb, Ok(source))
    }
}

/// Collect a due installment: quote its share cost against the reserve's
/// reported totals and resolve the payment, falling back between the two
/// pools and detecting default and completion.
pub fn collect_installment(
    plan: BridgePlan,
    bal: BufferBalance,
    installment_number: u32,
    now: u64,
    total_managed: i128,
    vault_total_shares: i128,
) -> (r: (BridgePlan, BufferBalance, Result<PaymentSource, ContractError>))
    ensures
        (r.0@, r.1, r.2) == spec_collect_installment(
            plan@,
            bal,
            installment_number,
            now,
            total_managed as int,
            vault_total_shares as int,
        ),
        plan@.well_formed() ==> r.0@.well_formed(),
        bal.well_formed() ==> r.1.well_formed(),
{
    if installment_number < 1 || installment_number as usize > plan.installments.len() {
        return (plan, bal, Err(ContractError::InstallmentNotFound));
    }
    let idx = (installment_number - 1) as usize;
    let inst = plan.installments[idx];
    if inst.status != InstallmentStatus::Pending {
        return (plan, bal, Err(ContractError::AlreadyPaid));
    }
    if now < inst.due_date {
        return (plan, bal, Err(ContractError::NotDueYet));
    }
    let needed = match shares_for_amount(inst.amount, total_managed, vault_total_shares) {
        Ok(s) => s,
        Err(_) => {
            return (plan, bal, Err(ContractError::BufferContractError));
        },
    };
    collect_with_quote(plan, bal, installment_number, now, needed)
}

/// Law: collection from the available pool. Collecting a Pending, due
/// installment whose share cost the available pool covers debits the
/// available pool only, reduces the plan's recorded collateral by the
/// proportional release clamped at zero, marks the slot Paid, and leaves
/// the plan's status untouched while other slots remain unpaid; repeating
/// the same collection afterwards fails with AlreadyPaid and changes
/// nothing.
pub proof fn lemma_collect_from_available(
    plan: PlanModel,
    bal: BufferBalance,
    installment_number: u32,
    now: u64,
    total_managed: int,
    vault_total_shares: int,
    needed: i128,
    bal2: BufferBalance,
    now2: u64,
    total_managed2: int,
    vault_total_shares2: int,
)
    requires
        plan.well_formed(),
        bal.well_formed(),
        bal.version < u64::MAX,
        1 <= installment_number <= plan.installments.len(),
        plan.installments[installment_number - 1].status is Pending,
        plan.installments[installment_number - 1].due_date <= now,
        spec_shares_for_amount(
            plan.installments[installment_number - 1].amount as int,
            total_managed,
            vault_total_shares,
        ) == Ok::<i128, BufferError>(needed),
        needed >= 1,
        bal.available_shares >= needed,
        exists|j: int|
            0 <= j < plan.installments.len() && j != installment_number - 1 && !((
            #[trigger] plan.installments[j]).status is Paid),
    ensures
        ({
            let r = spec_collect_installment(
                plan,
                bal,
                installment_number,
                now,
                total_managed,
                vault_total_shares,
            );
            &&& r.2 == Ok::<PaymentSource, ContractError>(PaymentSource(0))
            &&& r.1.available_shares == bal.available_shares - needed
            &&& r.1.protected_shares == bal.protected_shares
            &&& r.0.protected_shares == spec_clamped_sub(
                plan.protected_shares as int,
                spec_proportional_unlock(
                    needed as int,
                    plan.total_shares as int,
                    plan.total_amount as int,
                ),
            )
            &&& r.0.installments[installment_number - 1].status is Paid
            &&& r.0.status == plan.status
            &&& spec_collect_installment(
                r.0,
                bal2,
                installment_number,
                now2,
                total_managed2,
                vault_total_shares2,
            ) == (r.0, bal2, Err::<PaymentSource, ContractError>(ContractError::AlreadyPaid))
        }),
{
    let idx = installment_number - 1;
    let insts2 = plan.installments.update(idx as int, plan.installments[idx as int]);
    assert(spec_withdraw_apply(bal, needed as int, false) is Ok);
    let j = choose|j: int|
        0 <= j < plan.installments.len() && j != idx && !((#[trigger] plan.installments[j]).status
            is Paid);
    let updated = plan.installments.update(
        idx as int,
        Installment {
            paid_at: Some(now),
            payment_source: Some(PaymentSource(0)),
            status: InstallmentStatus::Paid,
            ..plan.installments[idx as int]
        },
    );
    assert(!(updated[j].status is Paid));
    assert(!(forall|i: int| 0 <= i < updated.len() ==> (#[trigger] updated[i]).status is Paid));
}

/// Law: the protected-pool fallback. Collecting a Pending, due
/// installment whose share cost the available pool cannot cover but the
/// protected pool can debits the protected pool only and reduces the
/// plan's recorded collateral by exactly the shares needed (clamped at
/// zero), marking the slot Paid.
pub proof fn lemma_collect_from_protected(
    plan: PlanModel,
    bal: BufferBalance,
    installment_number: u32,
    now: u64,
    total_managed: int,
    vault_total_shares: int,
    needed: i128,
)
    requires
        plan.well_formed(),
        bal.well_formed(),
        bal.version < u64::MAX,
        1 <= installment_number <= plan.installments.len(),
        plan.installments[installment_number - 1].status is Pending,
        plan.installments[installment_number - 1].due_date <= now,
        spec_shares_for_amount(
            plan.installments[installment_number - 1].amount as int,
            total_managed,
            vault_total_shares,
        ) == Ok::<i128, BufferError>(needed),
        needed >= 1,
        bal.available_shares < needed,
        bal.protected_shares >= needed,
        exists|j: int|
            0 <= j < plan.installments.len() && j != installment_number - 1 && !((
            #[trigger] plan.installments[j]).status is Paid),
    ensures
        ({
            let r = spec_collect_installment(
                plan,
                bal,
                installment_number,
                now,
                total_managed,
                vault_total_shares,
            );
            &&& r.2 == Ok::<PaymentSource, ContractError>(PaymentSource(1))
            &&& r.1.protected_shares == bal.protected_shares - needed
            &&& r.1.available_shares == bal.available_shares
            &&& r.0.protected_shares == spec_clamped_sub(plan.protected_shares as int, needed as int)
            &&& plan.protected_shares >= needed ==> r.0.protected_shares == plan.protected_shares
                - needed
            &&& r.0.installments[installment_number - 1].status is Paid
            &&& r.0.status == plan.status
        }),
{
    let idx = installment_number - 1;
    assert(spec_withdraw_apply(bal, needed as int, true) is Ok);
    let j = choose|j: int|
        0 <= j < plan.installments.len() && j != idx && !((#[trigger] plan.installments[j]).status
            is Paid);
    let updated = plan.installments.update(
        idx as int,
        Installment {
            paid_at: Some(now),
            payment_source: Some(PaymentSource(1)),
            status: InstallmentStatus::Paid,
            ..plan.installments[idx as int]
        },
    );
    assert(!(updated[j].status is Paid));
    assert(!(forall|i: int| 0 <= i < updated.len() ==> (#[trigger] updated[i]).status is Paid));
}

/// Law: terminal default. Collecting a Pending, due installment that
/// neither pool can fund commits the slot as Failed and the plan as
/// Defaulted, leaves the balance untouched, reports the insufficiency,
/// and a later attempt on the same slot still fails, changing nothing.
pub proof fn lemma_collect_default(
    plan: PlanModel,
    bal: BufferBalance,
    installment_number: u32,
    now: u64,
    total_managed: int,
    vault_total_shares: int,
    needed: i128,
    bal2: BufferBalance,
    now2: u64,
    total_managed2: int,
    vault_total_shares2: int,
)
    requires
        1 <= installment_number <= plan.installments.len(),
        plan.installments[installment_number - 1].status is Pending,
        plan.installments[installment_number - 1].due_date <= now,
        spec_shares_for_amount(
            plan.installments[installment_number - 1].amount as int,
            total_managed,
            vault_total_shares,
        ) == Ok::<i128, BufferError>(needed),
        bal.available_shares < needed,
        bal.protected_shares < needed,
    ensures
        ({
            let r = spec_collect_installment(
                plan,
                bal,
                installment_number,
                now,
                total_managed,
                vault_total_shares,
            );
            &&& r.2 == Err::<PaymentSource, ContractError>(ContractError::InsufficientFunds)
            &&& r.1 == bal
            &&& r.0.status is Defaulted
            &&& r.0.installments[installment_number - 1].status is Failed
            &&& spec_collect_installment(
                r.0,
                bal2,
                installment_number,
                now2,
                total_managed2,
                vault_total_shares2,
            ) == (r.0, bal2, Err::<PaymentSource, ContractError>(ContractError::AlreadyPaid))
        }),
{
}

/// Law: completion. When collecting the last still-unpaid installment
/// succeeds, the plan's status flips to Completed, its recorded
/// collateral is zeroed, and the debit and any residual release conserve
/// the balance's two pools up to exactly the shares paid out.
pub proof fn lemma_collect_completion(
    plan: PlanModel,
    bal: BufferBalance,
    installment_number: u32,
    now: u64,
    total_managed: int,
    vault_total_shares: int,
    needed: i128,
)
    requires
        plan.well_formed(),
        1 <= installment_number <= plan.installments.len(),
        plan.installments[installment_number - 1].status is Pending,
        plan.installments[installment_number - 1].due_date <= now,
        spec_shares_for_amount(
            plan.installments[installment_number - 1].amount as int,
            total_managed,
            vault_total_shares,
        ) == Ok::<i128, BufferError>(needed),
        forall|j: int|
            0 <= j < plan.installments.len() && j != installment_number - 1 ==> (
            #[trigger] plan.installments[j]).status is Paid,
        spec_collect_installment(
            plan,
            bal,
            installment_number,
            now,
            total_managed,
            vault_total_shares,
        ).2 is Ok,
    ensures
        ({
            let r = spec_collect_installment(
                plan,
                bal,
                installment_number,
                now,
                total_managed,
                vault_total_shares,
            );
            &&& r.0.status is Completed
            &&& r.0.protected_shares == 0
            &&& r.1.available_shares + r.1.protected_shares == bal.available_shares
                + bal.protected_shares - needed
        }),
{
    let idx = installment_number - 1;
    let r = spec_collect_installment(
        plan,
        bal,
        installment_number,
        now,
        total_managed,
        vault_total_shares,
    );
    if bal.available_shares >= needed {
        let updated = plan.installments.update(
            idx as int,
            Installment {
                paid_at: Some(now),
                payment_source: Some(PaymentSource(0)),
                status: InstallmentStatus::Paid,
                ..plan.installments[idx as int]
            },
        );
        assert(forall|i: int| 0 <= i < updated.len() ==> (#[trigger] updated[i]).status is Paid);
    } else {
        assert(bal.protected_shares >= needed);
        let updated = plan.installments.update(
            idx as int,
            Installment {
                paid_at: Some(now),
                payment_source: Some(PaymentSource(1)),
                status: InstallmentStatus::Paid,
                ..plan.installments[idx as int]
            },
        );
        assert(forall|i: int| 0 <= i < updated.len() ==> (#[trigger] updated[i]).status is Paid);
    }
}

/// What [`get_next_due`] returns: the first installment in order that is
/// still Pending and already due, or nothing.
pub open spec fn spec_get_next_due(insts: Seq<Installment>, now: u64) -> Option<Installment>
    decreases insts.len(),
{
    if insts.len() == 0 {
        None
    } else if insts[0].status is Pending && insts[0].due_date <= now {
        Some(insts[0])
    } else {
        spec_get_next_due(insts.drop_first(), now)
    }
}

/// Scan the plan for the first Pending installment whose due date has
/// passed; an external scheduler uses this to decide what to collect
/// next.
pub fn get_next_due(plan: &BridgePlan, now: u64) -> (r: Option<Installment>)
    ensures
        r == spec_get_next_due(plan@.installments, now),
{
    let ghost insts = plan@.installments;
    proof {
        assert(insts.skip(0) =~= insts);
    }
    let mut i: usize = 0;
    while i < plan.installments.len()
        invariant
            0 <= i <= insts.len(),
            insts == plan@.installments,
            spec_get_next_due(insts, now) == spec_get_next_due(insts.skip(i as int), now),
        decreases insts.len() - i,
    {
        let inst = plan.installments[i];
        proof {
            assert(insts.skip(i as int)[0] == insts[i as int]);
            assert(insts.skip(i as int).drop_first() =~= insts.skip(i + 1));
        }
        if inst.status == InstallmentStatus::Pending && inst.due_date <= now {
            return Some(inst);
        }
        i = i + 1;
    }
    proof {
        assert(insts.skip(insts.len() as int).len() == 0);
    }
    None
}

} // verus!
