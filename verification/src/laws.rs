use vstd::prelude::*;

use crate::engine::assignment_count;
use crate::engine::lemma_total_paid_bound;
use crate::engine::lemma_total_paid_bound_except;
use crate::engine::total_days_paid;
use crate::engine::DlmsState;
use crate::ledger::lemma_balance_nonneg;
use crate::ledger::TokenHolder;
use crate::states::ProjectStatus;

verus! {

/// Capacity is a hard bound: in every reachable state the assigned count
/// of every project stays within its capacity, a project is `InProgress`
/// exactly when its capacity is full, and an `Open` project still has
/// room. Together with the contract of `approve_application` — which
/// moves the status to `InProgress` precisely on the approval that makes
/// the count reach the capacity — the status flips to `InProgress` once,
/// on that approval, and never again.
pub proof fn lemma_capacity_bound(s: DlmsState, project_id: u32)
    requires
        s.wf(),
        s.valid_project(project_id),
    ensures
        s.project(project_id).labour_count <= s.project(project_id).max_labourers,
        s.project(project_id).status == ProjectStatus::InProgress ==> s.project(
            project_id,
        ).labour_count == s.project(project_id).max_labourers,
        s.project(project_id).status == ProjectStatus::Open ==> s.project(project_id).labour_count
            < s.project(project_id).max_labourers,
        s.project(project_id).labour_count == assignment_count(s.assignments@, project_id as int),
{
    assert(s.project_wf(project_id as int));
}

/// Payroll progress is ordered: in every reachable state, every
/// assignment has been paid for at most as many days as were worked, and
/// has worked at most the project's duration.
pub proof fn lemma_payroll_progress(s: DlmsState, i: int)
    requires
        s.wf(),
        0 <= i < s.assignments@.len(),
    ensures
        s.assignments@[i].days_paid <= s.assignments@[i].days_worked,
        s.assignments@[i].days_worked <= s.projects@[s.assignments@[i].project as int].duration_days,
{
    assert(s.assignment_wf(i));
}

/// Payment presupposes dual attestation: in every reachable state, a work
/// day marked paid carries both the labourer's and the manager's
/// attestation, and every recorded day carries the labourer's.
pub proof fn lemma_payment_implies_dual_attestation(s: DlmsState, i: int)
    requires
        s.wf(),
        0 <= i < s.work_verifications@.len(),
    ensures
        s.work_verifications@[i].payment_processed ==> s.work_verifications@[i].manager_verified
            && s.work_verifications@[i].labour_verified,
        s.work_verifications@[i].labour_verified,
{
    assert(s.verification_wf(i));
}

/// Escrow conservation: while a project runs, its escrow pool holds
/// exactly `daily_rate * max_labourers * duration_days` minus one
/// `daily_rate` for every paid labourer-day, and never goes negative;
/// once the project is closed the pool is empty.
pub proof fn lemma_escrow_conservation(s: DlmsState, project_id: u32)
    requires
        s.wf(),
        s.valid_project(project_id),
    ensures
        (s.project(project_id).status == ProjectStatus::Open || s.project(project_id).status
            == ProjectStatus::InProgress) ==> s.escrow_balance(project_id) == s.project(
            project_id,
        ).daily_rate * (s.project(project_id).max_labourers as int) * (s.project(
            project_id,
        ).duration_days as int) - s.project(project_id).daily_rate * total_days_paid(
            s.assignments@,
            project_id as int,
        ),
        (s.project(project_id).status == ProjectStatus::Completed || s.project(project_id).status
            == ProjectStatus::Cancelled) ==> s.escrow_balance(project_id) == 0,
        s.escrow_balance(project_id) >= 0,
        total_days_paid(s.assignments@, project_id as int) >= 0,
{
    assert(s.escrow_ok(project_id as int));
    lemma_balance_nonneg(s.ledger.accounts@, TokenHolder::ProjectEscrow(project_id));
    let pidx = project_id as int;
    let dmax = s.projects@[pidx].duration_days as int;
    assert forall|j: int|
        0 <= j < s.assignments@.len() && (#[trigger] s.assignments@[j]).project == pidx
        implies s.assignments@[j].days_paid <= dmax by {
        assert(s.assignment_wf(j));
    }
    lemma_total_paid_bound(s.assignments@, pidx, dmax);
}

/// Funds are always there for work done in sequence: while a project
/// runs, an assignment that has not yet worked through the whole duration
/// can have its next day paid — the escrow covers at least one more
/// `daily_rate`. Approving the next due day therefore never fails for
/// lack of funds before closure.
pub proof fn lemma_escrow_covers_due_payment(s: DlmsState, project_id: u32, labour_id: u64)
    requires
        s.wf(),
        s.valid_project(project_id),
        s.project(project_id).status == ProjectStatus::Open || s.project(project_id).status
            == ProjectStatus::InProgress,
        s.has_assignment(labour_id, project_id),
        s.assignment(labour_id, project_id).days_worked < s.project(project_id).duration_days,
    ensures
        s.escrow_balance(project_id) >= s.project(project_id).daily_rate,
{
    let pidx = project_id as int;
    let p = s.projects@[pidx];
    let i = s.assignment_index(labour_id, project_id);
    assert(s.assignments@[i].labour == labour_id);
    assert(s.assignment_wf(i));
    let dmax = p.duration_days as int;
    let rate = p.daily_rate as int;
    let m = p.max_labourers as int;
    let c = p.labour_count as int;
    assert forall|j: int|
        0 <= j < s.assignments@.len() && (#[trigger] s.assignments@[j]).project == pidx
        implies s.assignments@[j].days_paid <= dmax by {
        assert(s.assignment_wf(j));
    }
    lemma_total_paid_bound_except(s.assignments@, pidx, dmax, i);
    let paid = total_days_paid(s.assignments@, pidx);
    assert(s.project_wf(pidx));
    assert(assignment_count(s.assignments@, pidx) == c);
    assert(s.assignments@[i].days_paid <= dmax - 1);
    assert(paid <= c * dmax - 1);
    assert(c * dmax <= m * dmax) by (nonlinear_arith)
        requires
            c <= m,
            dmax >= 0,
    ;
    assert(s.escrow_ok(pidx));
    assert((rate * m) * dmax - rate * paid >= rate) by (nonlinear_arith)
        requires
            rate >= 1,
            paid <= m * dmax - 1,
    ;
}

/// Submission is gated by strict sequencing: whenever `verify_work_day`
/// is owed success, the submitted day is exactly the day after the days
/// already worked, and still within the project's duration. Any other day
/// number is rejected, and the rejection leaves no record behind.
pub proof fn lemma_submission_is_sequential(
    s: DlmsState,
    authority: u64,
    project_id: u32,
    day_number: u16,
)
    requires
        s.wf(),
        s.verify_work_day_error(authority, project_id, day_number) is None,
    ensures
        day_number == s.assignment(authority, project_id).days_worked + 1,
        day_number <= s.project(project_id).duration_days,
        !s.has_verification(project_id, authority, day_number as int),
{
}

/// Payment is gated by the manager's one attestation: whenever
/// `approve_work_day` is owed success, the addressed day does not yet
/// carry the manager's attestation and is exactly the next due day. Since
/// a successful approval sets that attestation, a second approval of the
/// same day is never owed success again: it fails already-verified and
/// moves no funds.
pub proof fn lemma_payment_at_most_once(
    s: DlmsState,
    caller: u64,
    project_id: u32,
    labour_id: u64,
    day_number: u16,
)
    requires
        s.wf(),
        s.approve_work_day_error(caller, project_id, labour_id, day_number) is None,
    ensures
        !s.verification(project_id, labour_id, day_number as int).manager_verified,
        !s.verification(project_id, labour_id, day_number as int).payment_processed,
        day_number == s.assignment(labour_id, project_id).days_worked + 1,
        s.escrow_balance(project_id) >= s.project(project_id).daily_rate,
{
    assert(s.verification_wf(s.verification_index(project_id, labour_id, day_number as int)));
}

/// Before closure the escrow never comes up short: while a project is
/// `Open` or `InProgress`, approving a day can fail for many reasons, but
/// never for lack of funds. Only draining the pool at closure can leave a
/// pending day unpayable.
pub proof fn lemma_no_funds_failure_while_running(
    s: DlmsState,
    caller: u64,
    project_id: u32,
    labour_id: u64,
    day_number: u16,
)
    requires
        s.wf(),
        s.valid_project(project_id),
        s.project(project_id).status == ProjectStatus::Open || s.project(project_id).status
            == ProjectStatus::InProgress,
    ensures
        s.approve_work_day_error(caller, project_id, labour_id, day_number) != Some(
            crate::error::ErrorCode::InsufficientFunds,
        ),
{
    if s.approve_work_day_error(caller, project_id, labour_id, day_number) == Some(
        crate::error::ErrorCode::InsufficientFunds,
    ) {
        let vi = s.verification_index(project_id, labour_id, day_number as int);
        assert(s.verification_wf(vi));
        assert(day_number <= s.project(project_id).duration_days);
        assert(s.assignment(labour_id, project_id).days_worked < s.project(
            project_id,
        ).duration_days);
        lemma_escrow_covers_due_payment(s, project_id, labour_id);
        assert(false);
    }
}

} // verus!
