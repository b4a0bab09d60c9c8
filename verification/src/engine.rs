use vstd::prelude::*;

use crate::error::ErrorCode;
use crate::ledger::TokenHolder;
use crate::ledger::TokenLedger;
use crate::states::Application;
use crate::states::Assignment;
use crate::states::Project;
use crate::states::ProjectStatus;
use crate::states::Review;
use crate::states::ReviewType;
use crate::states::SystemState;
use crate::states::UserAccount;
use crate::states::UserRole;
use crate::states::WorkVerification;

verus! {

/// How many paid days `a` contributes to project `pid`.
pub open spec fn paid_for(a: Assignment, pid: int) -> int {
    if a.project == pid {
        a.days_paid as int
    } else {
        0
    }
}

/// Total number of paid labourer-days across the assignments of project
/// `pid`; each one was released for exactly one `daily_rate` transfer.
pub open spec fn total_days_paid(s: Seq<Assignment>, pid: int) -> int
    decreases s.len(),
{
    if s.len() == 0 {
        0
    } else {
        total_days_paid(s.drop_last(), pid) + paid_for(s.last(), pid)
    }
}

/// One when `a` is assigned to project `pid`, else zero.
pub open spec fn assigned_for(a: Assignment, pid: int) -> int {
    if a.project == pid {
        1
    } else {
        0
    }
}

/// Number of assignments bound to project `pid`.
pub open spec fn assignment_count(s: Seq<Assignment>, pid: int) -> int
    decreases s.len(),
{
    if s.len() == 0 {
        0
    } else {
        assignment_count(s.drop_last(), pid) + assigned_for(s.last(), pid)
    }
}

/// The whole marketplace: the record store and the token ledger, advanced
/// one all-or-nothing operation at a time.
pub struct DlmsState {
    pub system: SystemState,
    pub users: Vec<UserAccount>,
    pub projects: Vec<Project>,
    pub applications: Vec<Application>,
    pub assignments: Vec<Assignment>,
    pub work_verifications: Vec<WorkVerification>,
    pub reviews: Vec<Review>,
    pub ledger: TokenLedger,
}

// ---- frame lemmas ------------------------------------------------------
//
// Each operation rewrites a few fields of the state and leaves the rest
// alone; these lemmas carry the untouched parts of the invariant across.

pub proof fn lemma_projects_wf_frame(pre: DlmsState, post: DlmsState)
    requires
        pre.projects_wf(),
        post.projects@ == pre.projects@,
        post.assignments@ == pre.assignments@,
        post.system.project_count == pre.system.project_count,
    ensures
        post.projects_wf(),
{
    assert forall|i: int| 0 <= i < post.projects@.len() implies #[trigger] post.project_wf(i) by {
        assert(pre.project_wf(i));
    }
}

pub proof fn lemma_applications_wf_frame(pre: DlmsState, post: DlmsState)
    requires
        pre.applications_wf(),
        post.applications@ == pre.applications@,
        post.projects@.len() >= pre.projects@.len(),
    ensures
        post.applications_wf(),
{
    assert forall|i: int| 0 <= i < post.applications@.len() implies #[trigger] post.application_wf(
        i,
    ) by {
        assert(pre.application_wf(i));
    }
}

pub proof fn lemma_assignments_wf_frame(pre: DlmsState, post: DlmsState)
    requires
        pre.assignments_wf(),
        post.assignments@ == pre.assignments@,
        post.projects@.len() >= pre.projects@.len(),
        forall|k: int|
            0 <= k < pre.projects@.len() ==> (#[trigger] post.projects@[k]).duration_days
                == pre.projects@[k].duration_days,
    ensures
        post.assignments_wf(),
{
    assert forall|i: int| 0 <= i < post.assignments@.len() implies #[trigger] post.assignment_wf(
        i,
    ) by {
        assert(pre.assignment_wf(i));
    }
}

pub proof fn lemma_verifications_wf_frame(pre: DlmsState, post: DlmsState)
    requires
        pre.verifications_wf(),
        post.work_verifications@ == pre.work_verifications@,
        post.projects@.len() >= pre.projects@.len(),
        forall|k: int|
            0 <= k < pre.projects@.len() ==> (#[trigger] post.projects@[k]).duration_days
                == pre.projects@[k].duration_days,
    ensures
        post.verifications_wf(),
{
    assert forall|i: int|
        0 <= i < post.work_verifications@.len() implies #[trigger] post.verification_wf(i) by {
        assert(pre.verification_wf(i));
    }
}

// ---- payroll counting lemmas -------------------------------------------

/// Appending an assignment moves the paid-day total and the assignment
/// count of every project by exactly that assignment's contribution.
pub proof fn lemma_payroll_push(s: Seq<Assignment>, a: Assignment)
    ensures
        forall|pid: int| #[trigger] total_days_paid(s.push(a), pid) == total_days_paid(s, pid)
            + paid_for(a, pid),
        forall|pid: int| #[trigger] assignment_count(s.push(a), pid) == assignment_count(s, pid)
            + assigned_for(a, pid),
{
    assert(s.push(a).drop_last() =~= s);
    assert(s.push(a).last() == a);
}

proof fn lemma_payroll_update_one(s: Seq<Assignment>, i: int, a: Assignment, pid: int)
    requires
        0 <= i < s.len(),
    ensures
        total_days_paid(s.update(i, a), pid) == total_days_paid(s, pid) - paid_for(s[i], pid)
            + paid_for(a, pid),
        assignment_count(s.update(i, a), pid) == assignment_count(s, pid) - assigned_for(s[i], pid)
            + assigned_for(a, pid),
    decreases s.len(),
{
    let t = s.update(i, a);
    if i == s.len() - 1 {
        assert(t.drop_last() =~= s.drop_last());
        assert(t.last() == a);
    } else {
        assert(t.drop_last() =~= s.drop_last().update(i, a));
        assert(t.last() == s.last());
        lemma_payroll_update_one(s.drop_last(), i, a, pid);
    }
}

/// Rewriting one assignment in place moves the paid-day total and the
/// assignment count of every project by the difference it makes.
pub proof fn lemma_payroll_update(s: Seq<Assignment>, i: int, a: Assignment)
    requires
        0 <= i < s.len(),
    ensures
        forall|pid: int| #[trigger] total_days_paid(s.update(i, a), pid) == total_days_paid(s, pid)
            - paid_for(s[i], pid) + paid_for(a, pid),
        forall|pid: int| #[trigger] assignment_count(s.update(i, a), pid) == assignment_count(
            s,
            pid,
        ) - assigned_for(s[i], pid) + assigned_for(a, pid),
{
    assert forall|pid: int| #[trigger] total_days_paid(s.update(i, a), pid) == total_days_paid(
        s,
        pid,
    ) - paid_for(s[i], pid) + paid_for(a, pid) by {
        lemma_payroll_update_one(s, i, a, pid);
    }
    assert forall|pid: int| #[trigger] assignment_count(s.update(i, a), pid) == assignment_count(
        s,
        pid,
    ) - assigned_for(s[i], pid) + assigned_for(a, pid) by {
        lemma_payroll_update_one(s, i, a, pid);
    }
}

/// A project no assignment names has a zero count and a zero paid total.
pub proof fn lemma_payroll_absent(s: Seq<Assignment>, pid: int)
    requires
        forall|j: int| 0 <= j < s.len() ==> (#[trigger] s[j]).project != pid,
    ensures
        total_days_paid(s, pid) == 0,
        assignment_count(s, pid) == 0,
    decreases s.len(),
{
    if s.len() > 0 {
        lemma_payroll_absent(s.drop_last(), pid);
    }
}

/// When every assignment of a project has at most `dmax` paid days, the
/// paid total stays within the count times `dmax`; the stronger bound
/// additionally credits one distinguished assignment only for what it was
/// actually paid.
pub proof fn lemma_total_paid_bound(s: Seq<Assignment>, pid: int, dmax: int)
    requires
        dmax >= 0,
        forall|j: int|
            0 <= j < s.len() && (#[trigger] s[j]).project == pid ==> s[j].days_paid <= dmax,
    ensures
        total_days_paid(s, pid) <= assignment_count(s, pid) * dmax,
        assignment_count(s, pid) >= 0,
        total_days_paid(s, pid) >= 0,
    decreases s.len(),
{
    if s.len() > 0 {
        lemma_total_paid_bound(s.drop_last(), pid, dmax);
        let c0 = assignment_count(s.drop_last(), pid);
        let c = assignment_count(s, pid);
        if s.last().project == pid {
            assert(s[s.len() - 1].days_paid <= dmax);
            assert(c * dmax == c0 * dmax + dmax) by (nonlinear_arith)
                requires
                    c == c0 + 1,
            ;
        }
    }
}

pub proof fn lemma_total_paid_bound_except(s: Seq<Assignment>, pid: int, dmax: int, i: int)
    requires
        dmax >= 0,
        forall|j: int|
            0 <= j < s.len() && (#[trigger] s[j]).project == pid ==> s[j].days_paid <= dmax,
        0 <= i < s.len(),
        s[i].project == pid,
    ensures
        total_days_paid(s, pid) <= assignment_count(s, pid) * dmax - dmax + s[i].days_paid,
    decreases s.len(),
{
    let c0 = assignment_count(s.drop_last(), pid);
    let c = assignment_count(s, pid);
    if i == s.len() - 1 {
        lemma_total_paid_bound(s.drop_last(), pid, dmax);
        assert(c * dmax == c0 * dmax + dmax) by (nonlinear_arith)
            requires
                c == c0 + 1,
        ;
    } else {
        lemma_total_paid_bound_except(s.drop_last(), pid, dmax, i);
        assert(s.drop_last()[i] == s[i]);
        if s.last().project == pid {
            assert(s[s.len() - 1].days_paid <= dmax);
            assert(c * dmax == c0 * dmax + dmax) by (nonlinear_arith)
                requires
                    c == c0 + 1,
            ;
        }
    }
}

pub proof fn lemma_escrows_wf_frame(pre: DlmsState, post: DlmsState)
    requires
        pre.escrows_wf(),
        post.projects@ == pre.projects@,
        post.assignments@ == pre.assignments@,
        post.ledger == pre.ledger,
    ensures
        post.escrows_wf(),
{
    assert forall|i: int| 0 <= i < post.projects@.len() implies #[trigger] post.escrow_ok(i) by {
        assert(pre.escrow_ok(i));
    }
    assert forall|pid: u32| pid >= post.projects@.len() implies #[trigger] post.escrow_balance(pid)
        == 0 by {
        assert(pre.escrow_balance(pid) == 0);
    }
}

/// Appending an identity with a fresh authority keeps the store keyed.
pub proof fn lemma_users_wf_push(pre: DlmsState, post: DlmsState, u: UserAccount)
    requires
        pre.users_wf(),
        !pre.has_user(u.authority),
        post.users@ == pre.users@.push(u),
    ensures
        post.users_wf(),
{
    assert forall|i: int, j: int|
        0 <= i < j < post.users@.len() implies (#[trigger] post.users@[i]).authority != (
    #[trigger] post.users@[j]).authority by {
        if j == pre.users@.len() {
            assert(post.users@[i] == pre.users@[i]);
        }
    }
}

/// Removing an identity keeps the store keyed.
pub proof fn lemma_users_wf_remove(pre: DlmsState, post: DlmsState, idx: int)
    requires
        pre.users_wf(),
        0 <= idx < pre.users@.len(),
        post.users@ == pre.users@.remove(idx),
    ensures
        post.users_wf(),
{
    assert forall|i: int, j: int|
        0 <= i < j < post.users@.len() implies (#[trigger] post.users@[i]).authority != (
    #[trigger] post.users@[j]).authority by {
        let i0 = if i < idx {
            i
        } else {
            i + 1
        };
        let j0 = if j < idx {
            j
        } else {
            j + 1
        };
        assert(post.users@[i] == pre.users@[i0]);
        assert(post.users@[j] == pre.users@[j0]);
    }
}

/// Rewriting an identity in place, keeping its authority, keeps the store
/// keyed.
pub proof fn lemma_users_wf_update(pre: DlmsState, post: DlmsState, idx: int, u: UserAccount)
    requires
        pre.users_wf(),
        0 <= idx < pre.users@.len(),
        u.authority == pre.users@[idx].authority,
        post.users@ == pre.users@.update(idx, u),
    ensures
        post.users_wf(),
{
    assert forall|i: int, j: int|
        0 <= i < j < post.users@.len() implies (#[trigger] post.users@[i]).authority != (
    #[trigger] post.users@[j]).authority by {
        assert(pre.users@[i].authority != pre.users@[j].authority);
    }
}

impl DlmsState {
    // ---- record lookup, spec side -------------------------------------

    pub open spec fn has_user(self, authority: u64) -> bool {
        exists|i: int|
            0 <= i < self.users@.len() && (#[trigger] self.users@[i]).authority == authority
    }

    pub open spec fn user_index(self, authority: u64) -> int {
        choose|i: int|
            0 <= i < self.users@.len() && (#[trigger] self.users@[i]).authority == authority
    }

    /// The unique identity record registered under `authority`.
    pub open spec fn user(self, authority: u64) -> UserAccount {
        self.users@[self.user_index(authority)]
    }

    pub open spec fn valid_project(self, project_id: u32) -> bool {
        project_id < self.projects@.len()
    }

    /// The project with sequence index `project_id`.
    pub open spec fn project(self, project_id: u32) -> Project {
        self.projects@[project_id as int]
    }

    pub open spec fn has_application(self, labour: u64, project_id: u32) -> bool {
        exists|i: int|
            0 <= i < self.applications@.len() && (#[trigger] self.applications@[i]).labour
                == labour && self.applications@[i].project == project_id
    }

    pub open spec fn application_index(self, labour: u64, project_id: u32) -> int {
        choose|i: int|
            0 <= i < self.applications@.len() && (#[trigger] self.applications@[i]).labour
                == labour && self.applications@[i].project == project_id
    }

    /// The unique application of `labour` to `project_id`.
    pub open spec fn application(self, labour: u64, project_id: u32) -> Application {
        self.applications@[self.application_index(labour, project_id)]
    }

    pub open spec fn has_assignment(self, labour: u64, project_id: u32) -> bool {
        exists|i: int|
            0 <= i < self.assignments@.len() && (#[trigger] self.assignments@[i]).labour == labour
                && self.assignments@[i].project == project_id
    }

    pub open spec fn assignment_index(self, labour: u64, project_id: u32) -> int {
        choose|i: int|
            0 <= i < self.assignments@.len() && (#[trigger] self.assignments@[i]).labour == labour
                && self.assignments@[i].project == project_id
    }

    /// The unique assignment binding `labour` to `project_id`.
    pub open spec fn assignment(self, labour: u64, project_id: u32) -> Assignment {
        self.assignments@[self.assignment_index(labour, project_id)]
    }

    pub open spec fn has_verification(self, project_id: u32, labour: u64, day: int) -> bool {
        exists|i: int|
            0 <= i < self.work_verifications@.len() && (#[trigger] self.work_verifications@[i]).project
                == project_id && self.work_verifications@[i].labour == labour
                && self.work_verifications@[i].day_number == day
    }

    pub open spec fn verification_index(self, project_id: u32, labour: u64, day: int) -> int {
        choose|i: int|
            0 <= i < self.work_verifications@.len() && (#[trigger] self.work_verifications@[i]).project
                == project_id && self.work_verifications@[i].labour == labour
                && self.work_verifications@[i].day_number == day
    }

    /// The unique attestation record of `labour` on `project_id` for `day`.
    pub open spec fn verification(self, project_id: u32, labour: u64, day: int) -> WorkVerification {
        self.work_verifications@[self.verification_index(project_id, labour, day)]
    }

    pub open spec fn has_review(self, reviewer: u64, reviewee: u64) -> bool {
        exists|i: int|
            0 <= i < self.reviews@.len() && (#[trigger] self.reviews@[i]).reviewer == reviewer
                && self.reviews@[i].reviewee == reviewee
    }

    pub open spec fn is_admin(self, authority: u64) -> bool {
        self.system.admins@.contains(authority)
    }

    /// The funding balance of the identity `authority`.
    pub open spec fn user_balance(self, authority: u64) -> int {
        self.ledger.balance_of(TokenHolder::User(authority))
    }

    /// The escrow pool balance of the project with index `project_id`.
    pub open spec fn escrow_balance(self, project_id: u32) -> int {
        self.ledger.balance_of(TokenHolder::ProjectEscrow(project_id))
    }

    // ---- the invariant -------------------------------------------------

    pub open spec fn users_wf(self) -> bool {
        forall|i: int, j: int|
            0 <= i < j < self.users@.len() ==> (#[trigger] self.users@[i]).authority != (
            #[trigger] self.users@[j]).authority
    }

    pub open spec fn admins_wf(self) -> bool {
        &&& self.system.admins@.len() <= 10
        &&& forall|i: int, j: int|
            0 <= i < j < self.system.admins@.len() ==> self.system.admins@[i]
                != self.system.admins@[j]
    }

    /// The per-project part of the invariant: a positive rate, duration and
    /// capacity, the count within the capacity, a status that agrees with
    /// the count, and a count that equals the number of assignments.
    pub open spec fn project_wf(self, i: int) -> bool {
        let p = self.projects@[i];
        &&& p.index == i
        &&& p.daily_rate >= 1
        &&& p.duration_days >= 1
        &&& p.max_labourers >= 1
        &&& p.labour_count <= p.max_labourers
        &&& (p.status == ProjectStatus::Open ==> p.labour_count < p.max_labourers)
        &&& (p.status == ProjectStatus::InProgress ==> p.labour_count == p.max_labourers)
        &&& p.labour_count == assignment_count(self.assignments@, i)
    }

    pub open spec fn projects_wf(self) -> bool {
        &&& self.system.project_count == self.projects@.len()
        &&& forall|i: int| 0 <= i < self.projects@.len() ==> #[trigger] self.project_wf(i)
    }

    pub open spec fn application_wf(self, i: int) -> bool {
        self.applications@[i].project < self.projects@.len()
    }

    pub open spec fn applications_wf(self) -> bool {
        &&& forall|i: int|
            0 <= i < self.applications@.len() ==> #[trigger] self.application_wf(i)
        &&& forall|i: int, j: int|
            0 <= i < j < self.applications@.len() ==> !((#[trigger] self.applications@[i]).labour
                == (#[trigger] self.applications@[j]).labour && self.applications@[i].project
                == self.applications@[j].project)
    }

    /// The per-assignment part: a real project, and payroll progress that
    /// never outruns the work or the project duration.
    pub open spec fn assignment_wf(self, i: int) -> bool {
        let a = self.assignments@[i];
        &&& a.project < self.projects@.len()
        &&& a.days_paid <= a.days_worked
        &&& a.days_worked <= self.projects@[a.project as int].duration_days
    }

    pub open spec fn assignments_wf(self) -> bool {
        &&& forall|i: int| 0 <= i < self.assignments@.len() ==> #[trigger] self.assignment_wf(i)
        &&& forall|i: int, j: int|
            0 <= i < j < self.assignments@.len() ==> !((#[trigger] self.assignments@[i]).labour
                == (#[trigger] self.assignments@[j]).labour && self.assignments@[i].project
                == self.assignments@[j].project)
    }

    /// The per-attestation part: a real project, a day within the project's
    /// duration, the labourer's attestation captured at creation, and
    /// payment only after both attestations.
    pub open spec fn verification_wf(self, i: int) -> bool {
        let v = self.work_verifications@[i];
        &&& v.project < self.projects@.len()
        &&& 1 <= v.day_number
        &&& v.day_number <= self.projects@[v.project as int].duration_days
        &&& v.labour_verified
        &&& (v.payment_processed ==> v.manager_verified)
    }

    pub open spec fn verifications_wf(self) -> bool {
        &&& forall|i: int|
            0 <= i < self.work_verifications@.len() ==> #[trigger] self.verification_wf(i)
        &&& forall|i: int, j: int|
            0 <= i < j < self.work_verifications@.len() ==> !((
            #[trigger] self.work_verifications@[i]).project == (
            #[trigger] self.work_verifications@[j]).project
                && self.work_verifications@[i].labour == self.work_verifications@[j].labour
                && self.work_verifications@[i].day_number
                == self.work_verifications@[j].day_number)
    }

    pub open spec fn reviews_wf(self) -> bool {
        forall|i: int, j: int|
            0 <= i < j < self.reviews@.len() ==> !((#[trigger] self.reviews@[i]).reviewer == (
            #[trigger] self.reviews@[j]).reviewer && self.reviews@[i].reviewee
                == self.reviews@[j].reviewee)
    }

    /// Escrow conservation for one project: while the project runs, its
    /// pool holds exactly the initial funding minus one daily rate for each
    /// paid labourer-day; once closed, the pool is empty.
    pub open spec fn escrow_ok(self, i: int) -> bool {
        let p = self.projects@[i];
        if p.status == ProjectStatus::Open || p.status == ProjectStatus::InProgress {
            self.escrow_balance(i as u32) == p.daily_rate * (p.max_labourers as int)
                * (p.duration_days as int) - p.daily_rate * total_days_paid(self.assignments@, i)
        } else {
            self.escrow_balance(i as u32) == 0
        }
    }

    pub open spec fn escrows_wf(self) -> bool {
        &&& forall|i: int| 0 <= i < self.projects@.len() ==> #[trigger] self.escrow_ok(i)
        &&& forall|pid: u32|
            pid >= self.projects@.len() ==> #[trigger] self.escrow_balance(pid) == 0
    }

    /// The invariant that every operation preserves.
    pub open spec fn wf(self) -> bool {
        &&& self.users_wf()
        &&& self.admins_wf()
        &&& self.projects_wf()
        &&& self.applications_wf()
        &&& self.assignments_wf()
        &&& self.verifications_wf()
        &&& self.reviews_wf()
        &&& self.escrows_wf()
        &&& self.ledger.wf()
    }

    // ---- record lookup, exec side -------------------------------------

    pub fn find_user(&self, authority: u64) -> (r: Option<usize>)
        requires
            self.users_wf(),
        ensures
            match r {
                Some(i) => self.has_user(authority) && i == self.user_index(authority),
                None => !self.has_user(authority),
            },
    {
        let n = self.users.len();
        let mut i: usize = 0;
        while i < n
            invariant
                i <= n,
                n == self.users@.len(),
                self.users_wf(),
                forall|j: int| 0 <= j < i ==> (#[trigger] self.users@[j]).authority != authority,
            decreases n - i,
        {
            if self.users[i].authority == authority {
                proof {
                    assert(self.has_user(authority));
                    let k = self.user_index(authority);
                    assert(self.users@[k].authority == authority);
                }
                return Some(i);
            }
            i = i + 1;
        }
        None
    }

    pub fn find_application(&self, labour: u64, project_id: u32) -> (r: Option<usize>)
        requires
            self.applications_wf(),
        ensures
            match r {
                Some(i) => self.has_application(labour, project_id) && i
                    == self.application_index(labour, project_id),
                None => !self.has_application(labour, project_id),
            },
    {
        let n = self.applications.len();
        let mut i: usize = 0;
        while i < n
            invariant
                i <= n,
                n == self.applications@.len(),
                self.applications_wf(),
                forall|j: int|
                    0 <= j < i ==> !((#[trigger] self.applications@[j]).labour == labour
                        && self.applications@[j].project == project_id),
            decreases n - i,
        {
            if self.applications[i].labour == labour && self.applications[i].project == project_id {
                proof {
                    assert(self.has_application(labour, project_id));
                    let k = self.application_index(labour, project_id);
                    assert(self.applications@[k].labour == labour);
                }
                return Some(i);
            }
            i = i + 1;
        }
        None
    }

    pub fn find_assignment(&self, labour: u64, project_id: u32) -> (r: Option<usize>)
        requires
            self.assignments_wf(),
        ensures
            match r {
                Some(i) => self.has_assignment(labour, project_id) && i
                    == self.assignment_index(labour, project_id),
                None => !self.has_assignment(labour, project_id),
            },
    {
        let n = self.assignments.len();
        let mut i: usize = 0;
        while i < n
            invariant
                i <= n,
                n == self.assignments@.len(),
                self.assignments_wf(),
                forall|j: int|
                    0 <= j < i ==> !((#[trigger] self.assignments@[j]).labour == labour
                        && self.assignments@[j].project == project_id),
            decreases n - i,
        {
            if self.assignments[i].labour == labour && self.assignments[i].project == project_id {
                proof {
                    assert(self.has_assignment(labour, project_id));
                    let k = self.assignment_index(labour, project_id);
                    assert(self.assignments@[k].labour == labour);
                }
                return Some(i);
            }
            i = i + 1;
        }
        None
    }

    /// Looks the attestation record up by its full composite key; the day
    /// is widened so that the day after the last one can be asked about.
    pub fn find_verification(&self, project_id: u32, labour: u64, day: u32) -> (r: Option<usize>)
        requires
            self.verifications_wf(),
        ensures
            match r {
                Some(i) => self.has_verification(project_id, labour, day as int) && i
                    == self.verification_index(project_id, labour, day as int),
                None => !self.has_verification(project_id, labour, day as int),
            },
    {
        let n = self.work_verifications.len();
        let mut i: usize = 0;
        while i < n
            invariant
                i <= n,
                n == self.work_verifications@.len(),
                self.verifications_wf(),
                forall|j: int|
                    0 <= j < i ==> !((#[trigger] self.work_verifications@[j]).project == project_id
                        && self.work_verifications@[j].labour == labour
                        && self.work_verifications@[j].day_number == day),
            decreases n - i,
        {
            if self.work_verifications[i].project == project_id && self.work_verifications[i].labour
                == labour && self.work_verifications[i].day_number as u32 == day {
                proof {
                    assert(self.has_verification(project_id, labour, day as int));
                    let k = self.verification_index(project_id, labour, day as int);
                    assert(self.work_verifications@[k].labour == labour);
                }
                return Some(i);
            }
            i = i + 1;
        }
        None
    }

    pub fn find_review(&self, reviewer: u64, reviewee: u64) -> (r: Option<usize>)
        ensures
            match r {
                Some(i) => i < self.reviews@.len() && self.reviews@[i as int].reviewer == reviewer
                    && self.reviews@[i as int].reviewee == reviewee && self.has_review(
                    reviewer,
                    reviewee,
                ),
                None => !self.has_review(reviewer, reviewee),
            },
    {
        let n = self.reviews.len();
        let mut i: usize = 0;
        while i < n
            invariant
                i <= n,
                n == self.reviews@.len(),
                forall|j: int|
                    0 <= j < i ==> !((#[trigger] self.reviews@[j]).reviewer == reviewer
                        && self.reviews@[j].reviewee == reviewee),
            decreases n - i,
        {
            if self.reviews[i].reviewer == reviewer && self.reviews[i].reviewee == reviewee {
                return Some(i);
            }
            i = i + 1;
        }
        None
    }

    // ---- operations outside the project lifecycle ---------------------

    /// Sets the system up: the maintaining authority, the funding asset,
    /// zeroed counters, no admins, no records, an empty ledger.
    pub fn initialize_system(authority: u64, mint: u64) -> (s: DlmsState)
        ensures
            s.wf(),
            s.system.authority == authority,
            s.system.mint == mint,
            s.system.labour_count == 0,
            s.system.manager_count == 0,
            s.system.project_count == 0,
            s.system.admins@ == Seq::<u64>::empty(),
            s.users@ == Seq::<UserAccount>::empty(),
            s.projects@ == Seq::<Project>::empty(),
            s.applications@ == Seq::<Application>::empty(),
            s.assignments@ == Seq::<Assignment>::empty(),
            s.work_verifications@ == Seq::<WorkVerification>::empty(),
            s.reviews@ == Seq::<Review>::empty(),
            s.ledger.supply == 0,
            forall|h: TokenHolder| s.ledger.balance_of(h) == 0,
    {
        let s = DlmsState {
            system: SystemState {
                authority,
                mint,
                labour_count: 0,
                manager_count: 0,
                project_count: 0,
                admins: Vec::new(),
            },
            users: Vec::new(),
            projects: Vec::new(),
            applications: Vec::new(),
            assignments: Vec::new(),
            work_verifications: Vec::new(),
            reviews: Vec::new(),
            ledger: TokenLedger::empty(),
        };
        s
    }

    /// The first precondition of `register_user` that `authority` and
    /// `role` violate in this state, if any.
    pub open spec fn register_user_error(self, authority: u64, role: UserRole) -> Option<
        ErrorCode,
    > {
        if self.has_user(authority) {
            Some(ErrorCode::DuplicateRecord)
        } else if self.system.labour_count + self.system.manager_count > u32::MAX {
            Some(ErrorCode::CalculationError)
        } else if role == UserRole::Labour && self.system.labour_count + 1 > u32::MAX {
            Some(ErrorCode::CalculationError)
        } else if role == UserRole::Manager && self.system.manager_count + 1 > u32::MAX {
            Some(ErrorCode::CalculationError)
        } else {
            None
        }
    }

    /// Registers a new identity under `authority`, active and unverified,
    /// and counts it under its role.
    pub fn register_user(
        &mut self,
        authority: u64,
        name: String,
        metadata_uri: String,
        role: UserRole,
        now: i64,
    ) -> (r: Result<(), ErrorCode>)
        requires
            old(self).wf(),
        ensures
            final(self).wf(),
            match old(self).register_user_error(authority, role) {
                Some(e) => r == Err::<(), ErrorCode>(e) && *final(self) == *old(self),
                None => {
                    &&& r == Ok::<(), ErrorCode>(())
                    &&& final(self).users@ == old(self).users@.push(
                        UserAccount {
                            authority,
                            name,
                            metadata_uri,
                            active: true,
                            verified: false,
                            rating: 0,
                            rating_count: 0,
                            timestamp: now,
                            index: (old(self).system.labour_count + old(
                                self,
                            ).system.manager_count) as u32,
                            role,
                            spam: false,
                        },
                    )
                    &&& (role == UserRole::Labour ==> final(self).system.labour_count == old(
                        self,
                    ).system.labour_count + 1 && final(self).system.manager_count == old(
                        self,
                    ).system.manager_count)
                    &&& (role == UserRole::Manager ==> final(self).system.manager_count == old(
                        self,
                    ).system.manager_count + 1 && final(self).system.labour_count == old(
                        self,
                    ).system.labour_count)
                    &&& final(self).system.authority == old(self).system.authority
                    &&& final(self).system.mint == old(self).system.mint
                    &&& final(self).system.project_count == old(self).system.project_count
                    &&& final(self).system.admins@ == old(self).system.admins@
                    &&& final(self).projects@ == old(self).projects@
                    &&& final(self).applications@ == old(self).applications@
                    &&& final(self).assignments@ == old(self).assignments@
                    &&& final(self).work_verifications@ == old(self).work_verifications@
                    &&& final(self).reviews@ == old(self).reviews@
                    &&& final(self).ledger == old(self).ledger
                },
            },
    {
        if self.find_user(authority).is_some() {
            return Err(ErrorCode::DuplicateRecord);
        }
        let index = match self.system.labour_count.checked_add(self.system.manager_count) {
            None => {
                return Err(ErrorCode::CalculationError);
            },
            Some(s) => s,
        };
        match role {
            UserRole::Labour => {
                match self.system.labour_count.checked_add(1) {
                    None => {
                        return Err(ErrorCode::CalculationError);
                    },
                    Some(c) => {
                        self.system.labour_count = c;
                    },
                }
            },
            UserRole::Manager => {
                match self.system.manager_count.checked_add(1) {
                    None => {
                        return Err(ErrorCode::CalculationError);
                    },
                    Some(c) => {
                        self.system.manager_count = c;
                    },
                }
            },
        }
        self.users.push(
            UserAccount {
                authority,
                name,
                metadata_uri,
                active: true,
                verified: false,
                rating: 0,
                rating_count: 0,
                timestamp: now,
                index,
                role,
                spam: false,
            },
        );
        proof {
            lemma_users_wf_push(*old(self), *self, self.users@.last());
            lemma_projects_wf_frame(*old(self), *self);
            lemma_applications_wf_frame(*old(self), *self);
            lemma_assignments_wf_frame(*old(self), *self);
            lemma_verifications_wf_frame(*old(self), *self);
            lemma_escrows_wf_frame(*old(self), *self);
        }
        Ok(())
    }

    /// The first precondition of `update_user` that `authority` violates in
    /// this state, if any.
    pub open spec fn update_user_error(self, authority: u64) -> Option<ErrorCode> {
        if !self.has_user(authority) {
            Some(ErrorCode::NotAuthorized)
        } else {
            None
        }
    }

    /// Rewrites the caller's own profile fields; the active flag only when
    /// one is supplied.
    pub fn update_user(
        &mut self,
        authority: u64,
        name: String,
        metadata_uri: String,
        active: Option<bool>,
        now: i64,
    ) -> (r: Result<(), ErrorCode>)
        requires
            old(self).wf(),
        ensures
            final(self).wf(),
            match old(self).update_user_error(authority) {
                Some(e) => r == Err::<(), ErrorCode>(e) && *final(self) == *old(self),
                None => {
                    &&& r == Ok::<(), ErrorCode>(())
                    &&& final(self).users@ == old(self).users@.update(
                        old(self).user_index(authority),
                        UserAccount {
                            name,
                            metadata_uri,
                            active: match active {
                                Some(a) => a,
                                None => old(self).user(authority).active,
                            },
                            timestamp: now,
                            ..old(self).user(authority)
                        },
                    )
                    &&& final(self).system == old(self).system
                    &&& final(self).projects@ == old(self).projects@
                    &&& final(self).applications@ == old(self).applications@
                    &&& final(self).assignments@ == old(self).assignments@
                    &&& final(self).work_verifications@ == old(self).work_verifications@
                    &&& final(self).reviews@ == old(self).reviews@
                    &&& final(self).ledger == old(self).ledger
                },
            },
    {
        let i = match self.find_user(authority) {
            None => {
                return Err(ErrorCode::NotAuthorized);
            },
            Some(i) => i,
        };
        let was_active = self.users[i].active;
        let u = &self.users[i];
        let updated = UserAccount {
            authority: u.authority,
            name,
            metadata_uri,
            active: match active {
                Some(a) => a,
                None => was_active,
            },
            verified: u.verified,
            rating: u.rating,
            rating_count: u.rating_count,
            timestamp: now,
            index: u.index,
            role: u.role,
            spam: u.spam,
        };
        self.users.set(i, updated);
        proof {
            lemma_users_wf_update(*old(self), *self, i as int, self.users@[i as int]);
            lemma_projects_wf_frame(*old(self), *self);
            lemma_applications_wf_frame(*old(self), *self);
            lemma_assignments_wf_frame(*old(self), *self);
            lemma_verifications_wf_frame(*old(self), *self);
            lemma_escrows_wf_frame(*old(self), *self);
        }
        Ok(())
    }

    /// The first precondition of `delete_user` that `authority` violates
    /// in this state, if any.
    pub open spec fn delete_user_error(self, authority: u64) -> Option<ErrorCode> {
        if !self.has_user(authority) {
            Some(ErrorCode::NotAuthorized)
        } else {
            None
        }
    }

    /// Removes the caller's own identity record and releases its slot in
    /// the role counter, which never drops below zero.
    pub fn delete_user(&mut self, authority: u64) -> (r: Result<(), ErrorCode>)
        requires
            old(self).wf(),
        ensures
            final(self).wf(),
            match old(self).delete_user_error(authority) {
                Some(e) => r == Err::<(), ErrorCode>(e) && *final(self) == *old(self),
                None => {
                    &&& r == Ok::<(), ErrorCode>(())
                    &&& final(self).users@ == old(self).users@.remove(
                        old(self).user_index(authority),
                    )
                    &&& (old(self).user(authority).role == UserRole::Labour ==> {
                        &&& final(self).system.labour_count == (if old(self).system.labour_count
                            > 0 {
                            old(self).system.labour_count - 1
                        } else {
                            0
                        })
                        &&& final(self).system.manager_count == old(self).system.manager_count
                    })
                    &&& (old(self).user(authority).role == UserRole::Manager ==> {
                        &&& final(self).system.manager_count == (if old(self).system.manager_count
                            > 0 {
                            old(self).system.manager_count - 1
                        } else {
                            0
                        })
                        &&& final(self).system.labour_count == old(self).system.labour_count
                    })
                    &&& final(self).system.authority == old(self).system.authority
                    &&& final(self).system.mint == old(self).system.mint
                    &&& final(self).system.project_count == old(self).system.project_count
                    &&& final(self).system.admins@ == old(self).system.admins@
                    &&& final(self).projects@ == old(self).projects@
                    &&& final(self).applications@ == old(self).applications@
                    &&& final(self).assignments@ == old(self).assignments@
                    &&& final(self).work_verifications@ == old(self).work_verifications@
                    &&& final(self).reviews@ == old(self).reviews@
                    &&& final(self).ledger == old(self).ledger
                },
            },
    {
        let i = match self.find_user(authority) {
            None => {
                return Err(ErrorCode::NotAuthorized);
            },
            Some(i) => i,
        };
        let role = self.users[i].role;
        self.users.remove(i);
        match role {
            UserRole::Labour => {
                if self.system.labour_count > 0 {
                    self.system.labour_count = self.system.labour_count - 1;
                }
            },
            UserRole::Manager => {
                if self.system.manager_count > 0 {
                    self.system.manager_count = self.system.manager_count - 1;
                }
            },
        }
        proof {
            lemma_users_wf_remove(*old(self), *self, old(self).user_index(authority));
            lemma_projects_wf_frame(*old(self), *self);
            lemma_applications_wf_frame(*old(self), *self);
            lemma_assignments_wf_frame(*old(self), *self);
            lemma_verifications_wf_frame(*old(self), *self);
            lemma_escrows_wf_frame(*old(self), *self);
        }
        Ok(())
    }

    /// The first precondition of `add_admin` that the caller and candidate
    /// violate in this state, if any.
    pub open spec fn add_admin_error(self, caller: u64, new_admin: u64) -> Option<ErrorCode> {
        if self.system.authority != caller {
            Some(ErrorCode::NotAuthorized)
        } else if self.is_admin(new_admin) {
            Some(ErrorCode::AdminAlreadyExists)
        } else if self.system.admins@.len() >= 10 {
            Some(ErrorCode::AdminLimitReached)
        } else {
            None
        }
    }

    /// Appends a new administrator, for the system authority only; the
    /// list never holds a duplicate and never grows past ten.
    pub fn add_admin(&mut self, caller: u64, new_admin: u64) -> (r: Result<(), ErrorCode>)
        requires
            old(self).wf(),
        ensures
            final(self).wf(),
            match old(self).add_admin_error(caller, new_admin) {
                Some(e) => r == Err::<(), ErrorCode>(e) && *final(self) == *old(self),
                None => {
                    &&& r == Ok::<(), ErrorCode>(())
                    &&& final(self).system.admins@ == old(self).system.admins@.push(new_admin)
                    &&& final(self).system.authority == old(self).system.authority
                    &&& final(self).system.mint == old(self).system.mint
                    &&& final(self).system.labour_count == old(self).system.labour_count
                    &&& final(self).system.manager_count == old(self).system.manager_count
                    &&& final(self).system.project_count == old(self).system.project_count
                    &&& final(self).users@ == old(self).users@
                    &&& final(self).projects@ == old(self).projects@
                    &&& final(self).applications@ == old(self).applications@
                    &&& final(self).assignments@ == old(self).assignments@
                    &&& final(self).work_verifications@ == old(self).work_verifications@
                    &&& final(self).reviews@ == old(self).reviews@
                    &&& final(self).ledger == old(self).ledger
                },
            },
    {
        if self.system.authority != caller {
            return Err(ErrorCode::NotAuthorized);
        }
        if self.contains_admin(new_admin) {
            return Err(ErrorCode::AdminAlreadyExists);
        }
        if self.system.admins.len() >= 10 {
            return Err(ErrorCode::AdminLimitReached);
        }
        self.system.admins.push(new_admin);
        proof {
            let pre = *old(self);
            assert forall|i: int, j: int|
                0 <= i < j < self.system.admins@.len() implies self.system.admins@[i]
                != self.system.admins@[j] by {
                if j == pre.system.admins@.len() {
                    assert(self.system.admins@[i] == pre.system.admins@[i]);
                    assert(pre.system.admins@.contains(pre.system.admins@[i]));
                }
            }
            lemma_projects_wf_frame(pre, *self);
            lemma_applications_wf_frame(pre, *self);
            lemma_assignments_wf_frame(pre, *self);
            lemma_verifications_wf_frame(pre, *self);
            lemma_escrows_wf_frame(pre, *self);
        }
        Ok(())
    }

    pub open spec fn admin_index(self, admin: u64) -> int {
        choose|i: int| 0 <= i < self.system.admins@.len() && self.system.admins@[i] == admin
    }

    /// The first precondition of `remove_admin` that the caller and
    /// candidate violate in this state, if any.
    pub open spec fn remove_admin_error(self, caller: u64, admin: u64) -> Option<ErrorCode> {
        if self.system.authority != caller {
            Some(ErrorCode::NotAuthorized)
        } else if !self.is_admin(admin) {
            Some(ErrorCode::AdminNotFound)
        } else {
            None
        }
    }

    /// Removes an administrator, for the system authority only.
    pub fn remove_admin(&mut self, caller: u64, admin: u64) -> (r: Result<(), ErrorCode>)
        requires
            old(self).wf(),
        ensures
            final(self).wf(),
            match old(self).remove_admin_error(caller, admin) {
                Some(e) => r == Err::<(), ErrorCode>(e) && *final(self) == *old(self),
                None => {
                    &&& r == Ok::<(), ErrorCode>(())
                    &&& final(self).system.admins@ == old(self).system.admins@.remove(
                        old(self).admin_index(admin),
                    )
                    &&& !final(self).is_admin(admin)
                    &&& final(self).system.authority == old(self).system.authority
                    &&& final(self).system.mint == old(self).system.mint
                    &&& final(self).system.labour_count == old(self).system.labour_count
                    &&& final(self).system.manager_count == old(self).system.manager_count
                    &&& final(self).system.project_count == old(self).system.project_count
                    &&& final(self).users@ == old(self).users@
                    &&& final(self).projects@ == old(self).projects@
                    &&& final(self).applications@ == old(self).applications@
                    &&& final(self).assignments@ == old(self).assignments@
                    &&& final(self).work_verifications@ == old(self).work_verifications@
                    &&& final(self).reviews@ == old(self).reviews@
                    &&& final(self).ledger == old(self).ledger
                },
            },
    {
        if self.system.authority != caller {
            return Err(ErrorCode::NotAuthorized);
        }
        let n = self.system.admins.len();
        let mut i: usize = 0;
        while i < n
            invariant
                i <= n,
                n == self.system.admins@.len(),
                *self == *old(self),
                old(self).wf(),
                old(self).system.authority == caller,
                forall|j: int| 0 <= j < i ==> self.system.admins@[j] != admin,
            decreases n - i,
        {
            if self.system.admins[i] == admin {
                proof {
                    assert(self.is_admin(admin));
                    let k = self.admin_index(admin);
                    assert(self.system.admins@[k] == admin);
                    if k != i as int {
                        assert(false);
                    }
                }
                self.system.admins.remove(i);
                proof {
                    let pre = *old(self);
                    assert forall|a: int, b: int|
                        0 <= a < b < self.system.admins@.len() implies self.system.admins@[a]
                        != self.system.admins@[b] by {
                        let a0 = if a < i as int {
                            a
                        } else {
                            a + 1
                        };
                        let b0 = if b < i as int {
                            b
                        } else {
                            b + 1
                        };
                        assert(self.system.admins@[a] == pre.system.admins@[a0]);
                        assert(self.system.admins@[b] == pre.system.admins@[b0]);
                    }
                    assert forall|j: int|
                        0 <= j < self.system.admins@.len() implies self.system.admins@[j]
                        != admin by {
                        let j0 = if j < i as int {
                            j
                        } else {
                            j + 1
                        };
                        assert(self.system.admins@[j] == pre.system.admins@[j0]);
                        assert(pre.system.admins@[j0] != admin);
                    }
                    lemma_projects_wf_frame(pre, *self);
                    lemma_applications_wf_frame(pre, *self);
                    lemma_assignments_wf_frame(pre, *self);
                    lemma_verifications_wf_frame(pre, *self);
                    lemma_escrows_wf_frame(pre, *self);
                }
                return Ok(());
            }
            i = i + 1;
        }
        Err(ErrorCode::AdminNotFound)
    }

    /// The first precondition of `mark_user_as_spam` that the caller and
    /// subject violate in this state, if any.
    pub open spec fn mark_user_as_spam_error(self, caller: u64, user_authority: u64) -> Option<
        ErrorCode,
    > {
        if self.system.authority != caller {
            Some(ErrorCode::NotAuthorized)
        } else if !self.has_user(user_authority) {
            Some(ErrorCode::RecordNotFound)
        } else if !self.is_admin(caller) {
            Some(ErrorCode::NotAuthorized)
        } else {
            None
        }
    }

    /// Sets or clears the spam flag on an identity, for an administrator
    /// who is also the system authority.
    pub fn mark_user_as_spam(&mut self, caller: u64, user_authority: u64, is_spam: bool) -> (r:
        Result<(), ErrorCode>)
        requires
            old(self).wf(),
        ensures
            final(self).wf(),
            match old(self).mark_user_as_spam_error(caller, user_authority) {
                Some(e) => r == Err::<(), ErrorCode>(e) && *final(self) == *old(self),
                None => {
                    &&& r == Ok::<(), ErrorCode>(())
                    &&& final(self).users@ == old(self).users@.update(
                        old(self).user_index(user_authority),
                        UserAccount { spam: is_spam, ..old(self).user(user_authority) },
                    )
                    &&& final(self).system == old(self).system
                    &&& final(self).projects@ == old(self).projects@
                    &&& final(self).applications@ == old(self).applications@
                    &&& final(self).assignments@ == old(self).assignments@
                    &&& final(self).work_verifications@ == old(self).work_verifications@
                    &&& final(self).reviews@ == old(self).reviews@
                    &&& final(self).ledger == old(self).ledger
                },
            },
    {
        if self.system.authority != caller {
            return Err(ErrorCode::NotAuthorized);
        }
        let i = match self.find_user(user_authority) {
            None => {
                return Err(ErrorCode::RecordNotFound);
            },
            Some(i) => i,
        };
        if !self.contains_admin(caller) {
            return Err(ErrorCode::NotAuthorized);
        }
        let u = &self.users[i];
        let updated = UserAccount {
            authority: u.authority,
            name: u.name.clone(),
            metadata_uri: u.metadata_uri.clone(),
            active: u.active,
            verified: u.verified,
            rating: u.rating,
            rating_count: u.rating_count,
            timestamp: u.timestamp,
            index: u.index,
            role: u.role,
            spam: is_spam,
        };
        self.users.set(i, updated);
        proof {
            lemma_users_wf_update(*old(self), *self, i as int, self.users@[i as int]);
            lemma_projects_wf_frame(*old(self), *self);
            lemma_applications_wf_frame(*old(self), *self);
            lemma_assignments_wf_frame(*old(self), *self);
            lemma_verifications_wf_frame(*old(self), *self);
            lemma_escrows_wf_frame(*old(self), *self);
        }
        Ok(())
    }

    /// The first precondition of `verify_user` that the caller and subject
    /// violate in this state, if any.
    pub open spec fn verify_user_error(self, caller: u64, user_authority: u64) -> Option<
        ErrorCode,
    > {
        if !self.has_user(user_authority) {
            Some(ErrorCode::RecordNotFound)
        } else if !self.is_admin(caller) {
            Some(ErrorCode::NotAuthorized)
        } else {
            None
        }
    }

    /// Marks an identity as verified, for an administrator.
    pub fn verify_user(&mut self, caller: u64, user_authority: u64) -> (r: Result<(), ErrorCode>)
        requires
            old(self).wf(),
        ensures
            final(self).wf(),
            match old(self).verify_user_error(caller, user_authority) {
                Some(e) => r == Err::<(), ErrorCode>(e) && *final(self) == *old(self),
                None => {
                    &&& r == Ok::<(), ErrorCode>(())
                    &&& final(self).users@ == old(self).users@.update(
                        old(self).user_index(user_authority),
                        UserAccount { verified: true, ..old(self).user(user_authority) },
                    )
                    &&& final(self).system == old(self).system
                    &&& final(self).projects@ == old(self).projects@
                    &&& final(self).applications@ == old(self).applications@
                    &&& final(self).assignments@ == old(self).assignments@
                    &&& final(self).work_verifications@ == old(self).work_verifications@
                    &&& final(self).reviews@ == old(self).reviews@
                    &&& final(self).ledger == old(self).ledger
                },
            },
    {
        let i = match self.find_user(user_authority) {
            None => {
                return Err(ErrorCode::RecordNotFound);
            },
            Some(i) => i,
        };
        if !self.contains_admin(caller) {
            return Err(ErrorCode::NotAuthorized);
        }
        let u = &self.users[i];
        let updated = UserAccount {
            authority: u.authority,
            name: u.name.clone(),
            metadata_uri: u.metadata_uri.clone(),
            active: u.active,
            verified: true,
            rating: u.rating,
            rating_count: u.rating_count,
            timestamp: u.timestamp,
            index: u.index,
            role: u.role,
            spam: u.spam,
        };
        self.users.set(i, updated);
        proof {
            lemma_users_wf_update(*old(self), *self, i as int, self.users@[i as int]);
            lemma_projects_wf_frame(*old(self), *self);
            lemma_applications_wf_frame(*old(self), *self);
            lemma_assignments_wf_frame(*old(self), *self);
            lemma_verifications_wf_frame(*old(self), *self);
            lemma_escrows_wf_frame(*old(self), *self);
        }
        Ok(())
    }

    /// The first precondition of `rate_user` that the arguments violate in
    /// this state, if any. The rating aggregation is overflow-checked.
    pub open spec fn rate_user_error(self, caller: u64, user_authority: u64, rating: u8) -> Option<
        ErrorCode,
    > {
        let u = self.user(user_authority);
        if !self.has_user(user_authority) {
            Some(ErrorCode::RecordNotFound)
        } else if self.has_review(caller, user_authority) {
            Some(ErrorCode::DuplicateRecord)
        } else if !(1 <= rating <= 5) {
            Some(ErrorCode::InvalidRating)
        } else if u.rating * u.rating_count > u32::MAX {
            Some(ErrorCode::CalculationError)
        } else if u.rating * u.rating_count + rating > u32::MAX {
            Some(ErrorCode::CalculationError)
        } else if u.rating_count + 1 > u32::MAX {
            Some(ErrorCode::CalculationError)
        } else {
            None
        }
    }

    /// Files a review of `user_authority` by `caller`, one per pair, and
    /// folds the new rating into the subject's running average.
    pub fn rate_user(
        &mut self,
        caller: u64,
        user_authority: u64,
        rating: u8,
        context: String,
        now: i64,
    ) -> (r: Result<(), ErrorCode>)
        requires
            old(self).wf(),
        ensures
            final(self).wf(),
            match old(self).rate_user_error(caller, user_authority, rating) {
                Some(e) => r == Err::<(), ErrorCode>(e) && *final(self) == *old(self),
                None => {
                    &&& r == Ok::<(), ErrorCode>(())
                    &&& final(self).users@ == old(self).users@.update(
                        old(self).user_index(user_authority),
                        UserAccount {
                            rating: (
                            (old(self).user(user_authority).rating * old(self).user(
                                user_authority,
                            ).rating_count + rating) / (old(self).user(user_authority).rating_count
                                + 1)) as u32,
                            rating_count: (old(self).user(user_authority).rating_count + 1) as u32,
                            ..old(self).user(user_authority)
                        },
                    )
                    &&& final(self).reviews@ == old(self).reviews@.push(
                        Review {
                            reviewer: caller,
                            reviewee: user_authority,
                            rating,
                            context,
                            timestamp: now,
                            review_type: (if old(self).user(user_authority).role
                                == UserRole::Labour {
                                ReviewType::LabourReview
                            } else {
                                ReviewType::ManagerReview
                            }),
                        },
                    )
                    &&& final(self).system == old(self).system
                    &&& final(self).projects@ == old(self).projects@
                    &&& final(self).applications@ == old(self).applications@
                    &&& final(self).assignments@ == old(self).assignments@
                    &&& final(self).work_verifications@ == old(self).work_verifications@
                    &&& final(self).ledger == old(self).ledger
                },
            },
    {
        let i = match self.find_user(user_authority) {
            None => {
                return Err(ErrorCode::RecordNotFound);
            },
            Some(i) => i,
        };
        if self.find_review(caller, user_authority).is_some() {
            return Err(ErrorCode::DuplicateRecord);
        }
        if !(1 <= rating && rating <= 5) {
            return Err(ErrorCode::InvalidRating);
        }
        let u_rating = self.users[i].rating;
        let u_count = self.users[i].rating_count;
        let product = match u_rating.checked_mul(u_count) {
            None => {
                return Err(ErrorCode::CalculationError);
            },
            Some(p) => p,
        };
        let total = match product.checked_add(rating as u32) {
            None => {
                return Err(ErrorCode::CalculationError);
            },
            Some(t) => t,
        };
        let new_count = match u_count.checked_add(1) {
            None => {
                return Err(ErrorCode::CalculationError);
            },
            Some(c) => c,
        };
        let u = &self.users[i];
        let review_type = match u.role {
            UserRole::Labour => ReviewType::LabourReview,
            UserRole::Manager => ReviewType::ManagerReview,
        };
        let updated = UserAccount {
            authority: u.authority,
            name: u.name.clone(),
            metadata_uri: u.metadata_uri.clone(),
            active: u.active,
            verified: u.verified,
            rating: total / new_count,
            rating_count: new_count,
            timestamp: u.timestamp,
            index: u.index,
            role: u.role,
            spam: u.spam,
        };
        self.users.set(i, updated);
        self.reviews.push(
            Review {
                reviewer: caller,
                reviewee: user_authority,
                rating,
                context,
                timestamp: now,
                review_type,
            },
        );
        proof {
            let pre = *old(self);
            lemma_users_wf_update(pre, *self, i as int, self.users@[i as int]);
            assert forall|a: int, b: int|
                0 <= a < b < self.reviews@.len() implies !((#[trigger] self.reviews@[a]).reviewer
                == (#[trigger] self.reviews@[b]).reviewer && self.reviews@[a].reviewee
                == self.reviews@[b].reviewee) by {
                if b == pre.reviews@.len() {
                    assert(self.reviews@[a] == pre.reviews@[a]);
                }
            }
            lemma_projects_wf_frame(pre, *self);
            lemma_applications_wf_frame(pre, *self);
            lemma_assignments_wf_frame(pre, *self);
            lemma_verifications_wf_frame(pre, *self);
            lemma_escrows_wf_frame(pre, *self);
        }
        Ok(())
    }

    /// The first precondition of `mint_token` that `amount` violates in
    /// this state, if any.
    pub open spec fn mint_token_error(self, amount: u64) -> Option<ErrorCode> {
        if self.ledger.supply + amount > u64::MAX {
            Some(ErrorCode::CalculationError)
        } else {
            None
        }
    }

    /// Creates `amount` tokens of the funding asset on the balance of
    /// `to`, growing the supply by the same amount.
    pub fn mint_token(&mut self, to: u64, amount: u64) -> (r: Result<(), ErrorCode>)
        requires
            old(self).wf(),
        ensures
            final(self).wf(),
            match old(self).mint_token_error(amount) {
                Some(e) => r == Err::<(), ErrorCode>(e) && *final(self) == *old(self),
                None => {
                    &&& r == Ok::<(), ErrorCode>(())
                    &&& final(self).ledger.supply == old(self).ledger.supply + amount
                    &&& final(self).user_balance(to) == old(self).user_balance(to) + amount
                    &&& forall|h: TokenHolder|
                        h != TokenHolder::User(to) ==> final(self).ledger.balance_of(h) == old(
                            self,
                        ).ledger.balance_of(h)
                    &&& final(self).system == old(self).system
                    &&& final(self).users@ == old(self).users@
                    &&& final(self).projects@ == old(self).projects@
                    &&& final(self).applications@ == old(self).applications@
                    &&& final(self).assignments@ == old(self).assignments@
                    &&& final(self).work_verifications@ == old(self).work_verifications@
                    &&& final(self).reviews@ == old(self).reviews@
                },
            },
    {
        match self.ledger.mint(TokenHolder::User(to), amount) {
            Err(e) => Err(e),
            Ok(()) => {
                proof {
                    let pre = *old(self);
                    lemma_projects_wf_frame(pre, *self);
                    lemma_applications_wf_frame(pre, *self);
                    lemma_assignments_wf_frame(pre, *self);
                    lemma_verifications_wf_frame(pre, *self);
                    assert forall|i: int| 0 <= i < self.projects@.len() implies
                        #[trigger] self.escrow_ok(i) by {
                        assert(pre.escrow_ok(i));
                        assert(self.ledger.balance_of(TokenHolder::ProjectEscrow(i as u32))
                            == pre.ledger.balance_of(TokenHolder::ProjectEscrow(i as u32)));
                    }
                    assert forall|pid: u32| pid >= self.projects@.len() implies
                        #[trigger] self.escrow_balance(pid) == 0 by {
                        assert(pre.escrow_balance(pid) == 0);
                        assert(self.ledger.balance_of(TokenHolder::ProjectEscrow(pid))
                            == pre.ledger.balance_of(TokenHolder::ProjectEscrow(pid)));
                    }
                }
                Ok(())
            },
        }
    }

    pub fn contains_admin(&self, authority: u64) -> (r: bool)
        ensures
            r == self.is_admin(authority),
    {
        let n = self.system.admins.len();
        let mut i: usize = 0;
        while i < n
            invariant
                i <= n,
                n == self.system.admins@.len(),
                forall|j: int| 0 <= j < i ==> self.system.admins@[j] != authority,
            decreases n - i,
        {
            if self.system.admins[i] == authority {
                return true;
            }
            i = i + 1;
        }
        proof {
            assert(forall|j: int|
                0 <= j < self.system.admins@.len() ==> self.system.admins@[j] != authority);
        }
        false
    }
}

} // verus!
