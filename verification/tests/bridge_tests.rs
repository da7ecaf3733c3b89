//! Plan engine tests: creation, the loan-to-value gate, collection through
//! both pools, default, completion, and the next-due scan.
//!
//! The reserve is stubbed by passing fixed reported totals, mirroring a
//! deterministic mock reserve: with (total_managed, total_shares) =
//! (10000, 10000) one share prices at one unit of value.

use buffer_bridge::errors::ContractError;
use buffer_bridge::ledger::BufferBalance;
use buffer_bridge::plan::{
    create_plan, collect_installment, get_next_due, BridgePlan, Installment, InstallmentStatus,
    PlanStatus, PaymentSource,
};

const TM: i128 = 10000;
const TS: i128 = 10000;

fn rich_user_balance() -> BufferBalance {
    BufferBalance {
        available_shares: 10000,
        protected_shares: 0,
        total_deposited: 10000,
        last_deposit_ts: 500,
        version: 1,
    }
}

#[test]
fn test_create_plan_basic() {
    let bal = rich_user_balance();
    let due_dates: Vec<u64> = vec![2000, 3000, 4000];
    let (plan, _new_bal) =
        create_plan(&bal, false, 0, 1, 2, 3000, 3, &due_dates, 1000, TM, TS).unwrap();

    assert_eq!(plan.user, 1);
    assert_eq!(plan.merchant, 2);
    assert_eq!(plan.total_amount, 3000);
    assert_eq!(plan.installments.len(), 3);
}

#[test]
fn test_full_lifecycle() {
    let bal = rich_user_balance();
    let due_dates: Vec<u64> = vec![2000, 3000, 4000];
    let (plan, bal) = create_plan(&bal, false, 0, 1, 2, 3000, 3, &due_dates, 1000, TM, TS).unwrap();

    let (plan, bal, res) = collect_installment(plan, bal, 1, 2500, TM, TS);
    assert_eq!(res.unwrap().to_u32(), 0);

    let (plan, bal, res) = collect_installment(plan, bal, 2, 3500, TM, TS);
    assert!(res.is_ok());

    let (final_plan, _bal, res) = collect_installment(plan, bal, 3, 4500, TM, TS);
    assert!(res.is_ok());

    assert_eq!(final_plan.status, PlanStatus::Completed);
}

#[test]
fn test_ltv_max_allowed() {
    let bal = rich_user_balance();
    // Total value 10000, so the 80% ceiling allows exactly 8000.
    let due_dates: Vec<u64> = vec![2000, 3000, 4000];
    let (plan, _new_bal) =
        create_plan(&bal, false, 0, 1, 2, 8000, 3, &due_dates, 1000, TM, TS).unwrap();

    assert_eq!(plan.total_amount, 8000);
    assert_eq!(plan.status, PlanStatus::Active);
}

#[test]
fn test_ltv_exceeds_maximum() {
    let bal = rich_user_balance();
    // Requesting 9000 when the ceiling is 8000 (80% of 10000) must fail.
    let due_dates: Vec<u64> = vec![2000, 3000, 4000];
    let r = create_plan(&bal, false, 0, 1, 2, 9000, 3, &due_dates, 1000, TM, TS);
    assert_eq!(r.unwrap_err(), ContractError::ExceedsMaxLTV);
}

#[test]
fn test_ltv_at_100_percent_fails() {
    let bal = rich_user_balance();
    // Using 100% of the value (10000) must fail the ceiling.
    let due_dates: Vec<u64> = vec![2000, 3000, 4000];
    let r = create_plan(&bal, false, 0, 1, 2, 10000, 3, &due_dates, 1000, TM, TS);
    assert_eq!(r.unwrap_err(), ContractError::ExceedsMaxLTV);
}

#[test]
fn ltv_one_unit_above_boundary_fails() {
    let bal = rich_user_balance();
    let due_dates: Vec<u64> = vec![2000, 3000, 4000];
    let r = create_plan(&bal, false, 0, 1, 2, 8001, 3, &due_dates, 1000, TM, TS);
    assert_eq!(r.unwrap_err(), ContractError::ExceedsMaxLTV);
}

#[test]
fn end_to_end_scenario_locks_and_collects() {
    // Reserve reports (10000, 10000); user holds 10000 available value.
    let bal = rich_user_balance();
    let due_dates: Vec<u64> = vec![2000, 3000, 4000];
    let (plan, bal) = create_plan(&bal, false, 7, 1, 2, 3000, 3, &due_dates, 1000, TM, TS).unwrap();

    // 3000 shares locked; three equal installments of 1000.
    assert_eq!(plan.total_shares, 3000);
    assert_eq!(bal.available_shares, 7000);
    assert_eq!(bal.protected_shares, 3000);
    assert_eq!(plan.installments[0].amount, 1000);
    assert_eq!(plan.installments[1].amount, 1000);
    assert_eq!(plan.installments[2].amount, 1000);
    assert_eq!(plan.installments[0].number, 1);
    assert_eq!(plan.installments[2].number, 3);

    // Too early: the first installment is due at 2000.
    let (plan, bal, res) = collect_installment(plan, bal, 1, 1500, TM, TS);
    assert_eq!(res.unwrap_err(), ContractError::NotDueYet);
    assert_eq!(plan.installments[0].status, InstallmentStatus::Pending);

    // Exactly at the due date it succeeds from the available pool.
    let (plan, bal, res) = collect_installment(plan, bal, 1, 2000, TM, TS);
    let source = res.unwrap();
    assert!(source.is_available());
    assert_eq!(bal.available_shares, 6000);
    assert_eq!(bal.protected_shares, 3000);
    assert_eq!(plan.installments[0].status, InstallmentStatus::Paid);
    assert_eq!(plan.installments[0].paid_at, Some(2000));
    assert_eq!(plan.installments[0].payment_source, Some(PaymentSource::available()));
    // Proportional release: 1000 * 3000 / 3000 shares come off the plan's record.
    assert_eq!(plan.protected_shares, 2000);
    assert_eq!(plan.status, PlanStatus::Active);
}

#[test]
fn remainder_goes_to_last_installment() {
    let bal = rich_user_balance();
    let due_dates: Vec<u64> = vec![2000, 3000, 4000];
    let (plan, _bal) =
        create_plan(&bal, false, 0, 1, 2, 1000, 3, &due_dates, 1000, TM, TS).unwrap();
    assert_eq!(plan.installments[0].amount, 333);
    assert_eq!(plan.installments[1].amount, 333);
    assert_eq!(plan.installments[2].amount, 334);
    let total: i128 = plan.installments.iter().map(|i| i.amount).sum();
    assert_eq!(total, plan.total_amount);
}

#[test]
fn create_plan_validation_errors() {
    let bal = rich_user_balance();
    let due_dates: Vec<u64> = vec![2000, 3000, 4000];

    let r = create_plan(&bal, false, 0, 1, 2, 0, 3, &due_dates, 1000, TM, TS);
    assert_eq!(r.unwrap_err(), ContractError::InvalidAmount);

    let r = create_plan(&bal, false, 0, 1, 2, 3000, 0, &due_dates, 1000, TM, TS);
    assert_eq!(r.unwrap_err(), ContractError::InvalidInstallments);

    let r = create_plan(&bal, false, 0, 1, 2, 3000, 13, &due_dates, 1000, TM, TS);
    assert_eq!(r.unwrap_err(), ContractError::InvalidInstallments);

    let r = create_plan(&bal, false, 0, 1, 2, 3000, 2, &due_dates, 1000, TM, TS);
    assert_eq!(r.unwrap_err(), ContractError::DatesMismatch);

    // A date not strictly in the future is rejected.
    let stale_dates: Vec<u64> = vec![2000, 1000, 4000];
    let r = create_plan(&bal, false, 0, 1, 2, 3000, 3, &stale_dates, 1000, TM, TS);
    assert_eq!(r.unwrap_err(), ContractError::InvalidDueDate);

    // More is requested than the user's available value.
    let poor = BufferBalance {
        available_shares: 2000,
        protected_shares: 6000,
        total_deposited: 8000,
        last_deposit_ts: 500,
        version: 1,
    };
    let r = create_plan(&poor, false, 0, 1, 2, 3000, 3, &due_dates, 1000, TM, TS);
    assert_eq!(r.unwrap_err(), ContractError::InsufficientAvailable);

    // A paused ledger refuses the collateral lock.
    let r = create_plan(&bal, true, 0, 1, 2, 3000, 3, &due_dates, 1000, TM, TS);
    assert_eq!(r.unwrap_err(), ContractError::BufferContractError);
}

fn mid_life_plan(protected: i128) -> BridgePlan {
    BridgePlan {
        plan_id: 9,
        user: 1,
        merchant: 2,
        total_amount: 3000,
        total_shares: 3000,
        installments_count: 3,
        installments: vec![
            Installment {
                number: 1,
                amount: 1000,
                due_date: 2000,
                paid_at: Some(2000),
                payment_source: Some(PaymentSource::available()),
                status: InstallmentStatus::Paid,
            },
            Installment {
                number: 2,
                amount: 1000,
                due_date: 3000,
                paid_at: None,
                payment_source: None,
                status: InstallmentStatus::Pending,
            },
            Installment {
                number: 3,
                amount: 1000,
                due_date: 4000,
                paid_at: None,
                payment_source: None,
                status: InstallmentStatus::Pending,
            },
        ],
        protected_shares: protected,
        status: PlanStatus::Active,
        created_at: 1000,
    }
}

#[test]
fn collect_falls_back_to_protected_pool() {
    // Available cannot cover the installment but protected can.
    let plan = mid_life_plan(2000);
    let bal = BufferBalance {
        available_shares: 100,
        protected_shares: 5000,
        total_deposited: 10000,
        last_deposit_ts: 500,
        version: 4,
    };
    let (plan, bal, res) = collect_installment(plan, bal, 2, 3000, TM, TS);
    let source = res.unwrap();
    assert!(source.is_protected());
    assert_eq!(source.to_u32(), 1);
    // The ledger debited the protected pool only.
    assert_eq!(bal.available_shares, 100);
    assert_eq!(bal.protected_shares, 4000);
    // The plan's record dropped by exactly the shares needed.
    assert_eq!(plan.protected_shares, 1000);
    assert_eq!(plan.installments[1].status, InstallmentStatus::Paid);
    assert_eq!(plan.installments[1].payment_source, Some(PaymentSource::protected()));
    assert_eq!(plan.status, PlanStatus::Active);
}

#[test]
fn collect_with_no_funds_defaults_plan() {
    let plan = mid_life_plan(2000);
    let bal = BufferBalance {
        available_shares: 100,
        protected_shares: 200,
        total_deposited: 10000,
        last_deposit_ts: 500,
        version: 4,
    };
    let (plan, bal, res) = collect_installment(plan, bal, 2, 3000, TM, TS);
    assert_eq!(res.unwrap_err(), ContractError::InsufficientFunds);
    // The terminal marking committed; the balance is untouched.
    assert_eq!(plan.status, PlanStatus::Defaulted);
    assert_eq!(plan.installments[1].status, InstallmentStatus::Failed);
    assert_eq!(bal.available_shares, 100);
    assert_eq!(bal.protected_shares, 200);

    // The failure is terminal: a retry on the same slot still fails.
    let (plan, _bal, res) = collect_installment(plan, bal, 2, 9000, TM, TS);
    assert_eq!(res.unwrap_err(), ContractError::AlreadyPaid);
    assert_eq!(plan.installments[1].status, InstallmentStatus::Failed);
    assert_eq!(plan.status, PlanStatus::Defaulted);
}

#[test]
fn collect_twice_reports_already_paid() {
    let plan = mid_life_plan(2000);
    let bal = rich_user_balance();
    let (plan, bal, res) = collect_installment(plan, bal, 2, 3000, TM, TS);
    assert!(res.is_ok());
    let (_plan, _bal, res) = collect_installment(plan, bal, 2, 3000, TM, TS);
    assert_eq!(res.unwrap_err(), ContractError::AlreadyPaid);
}

#[test]
fn collect_validation_errors() {
    let plan = mid_life_plan(2000);
    let bal = rich_user_balance();
    let (plan, bal, res) = collect_installment(plan, bal, 0, 3000, TM, TS);
    assert_eq!(res.unwrap_err(), ContractError::InstallmentNotFound);
    let (plan, bal, res) = collect_installment(plan, bal, 4, 3000, TM, TS);
    assert_eq!(res.unwrap_err(), ContractError::InstallmentNotFound);
    let (plan, bal, res) = collect_installment(plan, bal, 1, 3000, TM, TS);
    assert_eq!(res.unwrap_err(), ContractError::AlreadyPaid);
    let (_plan, _bal, res) = collect_installment(plan, bal, 3, 3500, TM, TS);
    assert_eq!(res.unwrap_err(), ContractError::NotDueYet);
}

#[test]
fn completion_releases_residual_collateral() {
    // Pricing at 3 shares per 10000 units leaves the proportional release
    // rounding to zero, so collateral lingers on the plan until completion.
    let tm: i128 = 10000;
    let ts: i128 = 3;
    let bal = rich_user_balance();
    let due_dates: Vec<u64> = vec![2000, 3000, 4000];
    let (plan, bal) = create_plan(&bal, false, 0, 1, 2, 1000, 3, &due_dates, 1000, tm, ts).unwrap();
    // ceil(1000 * 3 / 10000) = 1 share locked.
    assert_eq!(plan.total_shares, 1);
    assert_eq!(plan.protected_shares, 1);
    assert_eq!(bal.available_shares, 9999);
    assert_eq!(bal.protected_shares, 1);

    let (plan, bal, res) = collect_installment(plan, bal, 1, 2000, tm, ts);
    assert!(res.is_ok());
    // Floor division 1 * 1 / 1000 releases nothing yet.
    assert_eq!(plan.protected_shares, 1);
    let (plan, bal, res) = collect_installment(plan, bal, 2, 3000, tm, ts);
    assert!(res.is_ok());
    assert_eq!(plan.protected_shares, 1);

    let (plan, bal, res) = collect_installment(plan, bal, 3, 4000, tm, ts);
    assert!(res.is_ok());
    // The last payment completes the plan: the residual share is unlocked
    // back to the available pool and the record zeroed.
    assert_eq!(plan.status, PlanStatus::Completed);
    assert_eq!(plan.protected_shares, 0);
    assert_eq!(bal.protected_shares, 0);
    assert_eq!(bal.available_shares, 9997);
}

#[test]
fn next_due_finds_first_pending_due_installment() {
    let plan = mid_life_plan(2000);
    // Slot 1 is paid; slot 2 is due at 3000, slot 3 at 4000.
    let next = get_next_due(&plan, 3500).unwrap();
    assert_eq!(next.number, 2);
    let next = get_next_due(&plan, 3000).unwrap();
    assert_eq!(next.number, 2);
    assert!(get_next_due(&plan, 2500).is_none());
    let bal = rich_user_balance();
    let (plan, _bal, res) = collect_installment(plan, bal, 2, 3000, TM, TS);
    assert!(res.is_ok());
    assert!(get_next_due(&plan, 3500).is_none());
    let next = get_next_due(&plan, 4000).unwrap();
    assert_eq!(next.number, 3);
}

#[test]
fn payment_source_tags() {
    assert_eq!(PaymentSource::available().to_u32(), 0);
    assert_eq!(PaymentSource::protected().to_u32(), 1);
    assert!(PaymentSource::available().is_available());
    assert!(!PaymentSource::available().is_protected());
    assert!(PaymentSource::protected().is_protected());
    assert!(!PaymentSource::protected().is_available());
}
