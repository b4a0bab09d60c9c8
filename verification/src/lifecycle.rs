use vstd::prelude::*;

use crate::engine::lemma_applications_wf_frame;
use crate::engine::lemma_assignments_wf_frame;
use crate::engine::lemma_escrows_wf_frame;
use crate::engine::lemma_payroll_absent;
use crate::engine::lemma_payroll_push;
use crate::engine::lemma_projects_wf_frame;
use crate::engine::lemma_verifications_wf_frame;
use crate::engine::DlmsState;
use crate::error::ErrorCode;
use crate::ledger::TokenHolder;
use crate::states::Application;
use crate::states::ApplicationStatus;
use crate::states::Assignment;
use crate::states::Project;
use crate::states::ProjectStatus;
use crate::states::UserRole;

verus! {

impl DlmsState {
    /// The first precondition of `create_project` that the arguments
    /// violate in this state, if any. The escrow is sized in two checked
    /// steps: rate times capacity, then times duration.
    pub open spec fn create_project_error(
        self,
        authority: u64,
        daily_rate: u64,
        duration_days: u16,
        max_labourers: u8,
    ) -> Option<ErrorCode> {
        if !self.has_user(authority) {
            Some(ErrorCode::NotAuthorized)
        } else if self.user(authority).role != UserRole::Manager {
            Some(ErrorCode::NotAuthorized)
        } else if daily_rate < 1 {
            Some(ErrorCode::InvalidDailyRate)
        } else if duration_days < 1 {
            Some(ErrorCode::InvalidDuration)
        } else if max_labourers < 1 {
            Some(ErrorCode::InvalidLabourerCount)
        } else if daily_rate * max_labourers > u64::MAX {
            Some(ErrorCode::CalculationError)
        } else if daily_rate * max_labourers * duration_days > u64::MAX {
            Some(ErrorCode::CalculationError)
        } else if self.user_balance(authority) < daily_rate * max_labourers * duration_days {
            Some(ErrorCode::InsufficientFunds)
        } else if self.system.project_count + 1 > u32::MAX {
            Some(ErrorCode::CalculationError)
        } else {
            None
        }
    }

    /// Creates a project for a manager, moving the full wage pool
    /// `daily_rate * max_labourers * duration_days` from the manager's
    /// funding balance into a fresh escrow pool bound to the new project.
    ///
    /// When the escrow sizing overflows, the operation fails with a
    /// calculation error, no funds move and no project record is created.
    pub fn create_project(
        &mut self,
        authority: u64,
        title: String,
        metadata_uri: String,
        daily_rate: u64,
        duration_days: u16,
        max_labourers: u8,
        now: i64,
    ) -> (r: Result<u32, ErrorCode>)
        requires
            old(self).wf(),
        ensures
            final(self).wf(),
            match old(self).create_project_error(authority, daily_rate, duration_days,
                max_labourers,
            ) {
                Some(e) => r == Err::<u32, ErrorCode>(e) && *final(self) == *old(self),
                None => {
                    let pid = old(self).system.project_count;
                    let amount = daily_rate * max_labourers * duration_days;
                    &&& r == Ok::<u32, ErrorCode>(pid)
                    &&& final(self).projects@ == old(self).projects@.push(
                        Project {
                            manager: authority,
                            title,
                            metadata_uri,
                            daily_rate,
                            duration_days,
                            max_labourers,
                            labour_count: 0,
                            status: ProjectStatus::Open,
                            timestamp: now,
                            index: pid,
                        },
                    )
                    &&& final(self).system.project_count == pid + 1
                    &&& final(self).escrow_balance(pid) == amount
                    &&& final(self).user_balance(authority) == old(self).user_balance(authority)
                        - amount
                    &&& forall|h: TokenHolder|
                        h != TokenHolder::User(authority) && h != TokenHolder::ProjectEscrow(pid)
                            ==> final(self).ledger.balance_of(h) == old(self).ledger.balance_of(h)
                    &&& final(self).ledger.supply == old(self).ledger.supply
                    &&& final(self).system.authority == old(self).system.authority
                    &&& final(self).system.mint == old(self).system.mint
                    &&& final(self).system.labour_count == old(self).system.labour_count
                    &&& final(self).system.manager_count == old(self).system.manager_count
                    &&& final(self).system.admins@ == old(self).system.admins@
                    &&& final(self).users@ == old(self).users@
                    &&& final(self).applications@ == old(self).applications@
                    &&& final(self).assignments@ == old(self).assignments@
                    &&& final(self).work_verifications@ == old(self).work_verifications@
                    &&& final(self).reviews@ == old(self).reviews@
                },
            },
    {
        let ui = match self.find_user(authority) {
            None => {
                return Err(ErrorCode::NotAuthorized);
            },
            Some(i) => i,
        };
        if self.users[ui].role != UserRole::Manager {
            return Err(ErrorCode::NotAuthorized);
        }
        if daily_rate < 1 {
            return Err(ErrorCode::InvalidDailyRate);
        }
        if duration_days < 1 {
            return Err(ErrorCode::InvalidDuration);
        }
        if max_labourers < 1 {
            return Err(ErrorCode::InvalidLabourerCount);
        }
        let rate_by_capacity = match daily_rate.checked_mul(max_labourers as u64) {
            None => {
                return Err(ErrorCode::CalculationError);
            },
            Some(m) => m,
        };
        let escrow_amount = match rate_by_capacity.checked_mul(duration_days as u64) {
            None => {
                return Err(ErrorCode::CalculationError);
            },
            Some(m) => m,
        };
        let funding = self.ledger.balance(TokenHolder::User(authority));
        if funding < escrow_amount {
            return Err(ErrorCode::InsufficientFunds);
        }
        let pid = self.system.project_count;
        let next_count = match pid.checked_add(1) {
            None => {
                return Err(ErrorCode::CalculationError);
            },
            Some(c) => c,
        };
        match self.ledger.transfer(
            TokenHolder::User(authority),
            TokenHolder::ProjectEscrow(pid),
            escrow_amount,
        ) {
            Err(e) => {
                // The balance was checked above, so the transfer cannot
                // come up short; the proof confirms this arm is dead.
                proof {
                    assert(false);
                }
                return Err(e);
            },
            Ok(()) => {},
        }
        self.projects.push(
            Project {
                manager: authority,
                title,
                metadata_uri,
                daily_rate,
                duration_days,
                max_labourers,
                labour_count: 0,
                status: ProjectStatus::Open,
                timestamp: now,
                index: pid,
            },
        );
        self.system.project_count = next_count;
        proof {
            let pre = *old(self);
            let pidx = pid as int;
            assert(pre.escrow_balance(pid) == 0);
            assert forall|j: int|
                0 <= j < self.assignments@.len() implies (#[trigger] self.assignments@[j]).project
                != pidx by {
                assert(pre.assignment_wf(j));
            }
            lemma_payroll_absent(self.assignments@, pidx);
            assert forall|i: int| 0 <= i < self.projects@.len() implies #[trigger] self.project_wf(
                i,
            ) by {
                if i < pre.projects@.len() {
                    assert(pre.project_wf(i));
                    assert(self.projects@[i] == pre.projects@[i]);
                }
            }
            lemma_applications_wf_frame(pre, *self);
            lemma_assignments_wf_frame(pre, *self);
            lemma_verifications_wf_frame(pre, *self);
            assert forall|i: int| 0 <= i < self.projects@.len() implies #[trigger] self.escrow_ok(
                i,
            ) by {
                if i < pre.projects@.len() {
                    assert(pre.escrow_ok(i));
                    assert(self.projects@[i] == pre.projects@[i]);
                    assert(TokenHolder::ProjectEscrow(i as u32) != TokenHolder::ProjectEscrow(pid));
                    assert(self.ledger.balance_of(TokenHolder::ProjectEscrow(i as u32))
                        == pre.ledger.balance_of(TokenHolder::ProjectEscrow(i as u32)));
                } else {
                    assert(self.escrow_balance(pid) == escrow_amount);
                }
            }
            assert forall|p: u32| p >= self.projects@.len() implies #[trigger] self.escrow_balance(
                p,
            ) == 0 by {
                assert(pre.escrow_balance(p) == 0);
                assert(TokenHolder::ProjectEscrow(p) != TokenHolder::ProjectEscrow(pid));
            }
        }
        Ok(pid)
    }

    /// The first precondition of `apply_to_project` that the arguments
    /// violate in this state, if any.
    pub open spec fn apply_to_project_error(self, authority: u64, project_id: u32) -> Option<
        ErrorCode,
    > {
        if !self.has_user(authority) {
            Some(ErrorCode::NotAuthorized)
        } else if self.user(authority).role != UserRole::Labour {
            Some(ErrorCode::NotAuthorized)
        } else if !self.user(authority).active {
            Some(ErrorCode::LabourNotActive)
        } else if !self.valid_project(project_id) {
            Some(ErrorCode::RecordNotFound)
        } else if self.project(project_id).status != ProjectStatus::Open {
            Some(ErrorCode::ProjectNotOpen)
        } else if self.has_application(authority, project_id) {
            Some(ErrorCode::DuplicateRecord)
        } else if self.project(project_id).labour_count >= self.project(
            project_id,
        ).max_labourers {
            Some(ErrorCode::ProjectFull)
        } else {
            None
        }
    }

    /// Files a pending application of an active labourer to an open
    /// project that still has room; one application per pair.
    pub fn apply_to_project(
        &mut self,
        authority: u64,
        project_id: u32,
        description: String,
        now: i64,
    ) -> (r: Result<(), ErrorCode>)
        requires
            old(self).wf(),
        ensures
            final(self).wf(),
            match old(self).apply_to_project_error(authority, project_id) {
                Some(e) => r == Err::<(), ErrorCode>(e) && *final(self) == *old(self),
                None => {
                    &&& r == Ok::<(), ErrorCode>(())
                    &&& final(self).applications@ == old(self).applications@.push(
                        Application {
                            labour: authority,
                            project: project_id,
                            description,
                            status: ApplicationStatus::Pending,
                            timestamp: now,
                        },
                    )
                    &&& final(self).system == old(self).system
                    &&& final(self).users@ == old(self).users@
                    &&& final(self).projects@ == old(self).projects@
                    &&& final(self).assignments@ == old(self).assignments@
                    &&& final(self).work_verifications@ == old(self).work_verifications@
                    &&& final(self).reviews@ == old(self).reviews@
                    &&& final(self).ledger == old(self).ledger
                },
            },
    {
        let ui = match self.find_user(authority) {
            None => {
                return Err(ErrorCode::NotAuthorized);
            },
            Some(i) => i,
        };
        if self.users[ui].role != UserRole::Labour {
            return Err(ErrorCode::NotAuthorized);
        }
        if !self.users[ui].active {
            return Err(ErrorCode::LabourNotActive);
        }
        if !(project_id < self.projects.len() as u32) {
            return Err(ErrorCode::RecordNotFound);
        }
        let p = &self.projects[project_id as usize];
        if p.status != ProjectStatus::Open {
            return Err(ErrorCode::ProjectNotOpen);
        }
        if self.find_application(authority, project_id).is_some() {
            return Err(ErrorCode::DuplicateRecord);
        }
        if self.projects[project_id as usize].labour_count
            >= self.projects[project_id as usize].max_labourers {
            return Err(ErrorCode::ProjectFull);
        }
        self.applications.push(
            Application {
                labour: authority,
                project: project_id,
                description,
                status: ApplicationStatus::Pending,
                timestamp: now,
            },
        );
        proof {
            let pre = *old(self);
            assert forall|i: int|
                0 <= i < self.applications@.len() implies #[trigger] self.application_wf(i) by {
                if i < pre.applications@.len() {
                    assert(pre.application_wf(i));
                    assert(self.applications@[i] == pre.applications@[i]);
                }
            }
            assert forall|a: int, b: int|
                0 <= a < b < self.applications@.len() implies !((
            #[trigger] self.applications@[a]).labour == (#[trigger] self.applications@[b]).labour
                && self.applications@[a].project == self.applications@[b].project) by {
                if b == pre.applications@.len() {
                    assert(self.applications@[a] == pre.applications@[a]);
                }
            }
            lemma_projects_wf_frame(pre, *self);
            lemma_assignments_wf_frame(pre, *self);
            lemma_verifications_wf_frame(pre, *self);
            lemma_escrows_wf_frame(pre, *self);
        }
        Ok(())
    }

    /// The first precondition of `approve_application` that the arguments
    /// violate in this state, if any.
    pub open spec fn approve_application_error(
        self,
        caller: u64,
        labour_id: u64,
        project_id: u32,
    ) -> Option<ErrorCode> {
        if !self.has_application(labour_id, project_id) {
            Some(ErrorCode::RecordNotFound)
        } else if self.application(labour_id, project_id).status != ApplicationStatus::Pending {
            Some(ErrorCode::ApplicationNotPending)
        } else if !self.has_user(labour_id) {
            Some(ErrorCode::RecordNotFound)
        } else if !self.has_user(caller) {
            Some(ErrorCode::NotAuthorized)
        } else if self.project(project_id).manager != caller {
            Some(ErrorCode::InvalidManager)
        } else if self.has_assignment(labour_id, project_id) {
            Some(ErrorCode::DuplicateRecord)
        } else if self.project(project_id).status != ProjectStatus::Open {
            Some(ErrorCode::ProjectNotOpen)
        } else if self.project(project_id).labour_count >= self.project(
            project_id,
        ).max_labourers {
            Some(ErrorCode::ProjectFull)
        } else {
            None
        }
    }

    /// Approves a pending application, for the project's manager: creates
    /// the one assignment for the pair with no days worked or paid yet,
    /// counts the labourer against the capacity, and moves the project to
    /// `InProgress` exactly when the capacity is reached. The application
    /// record itself stays `Pending`; only its timestamp is refreshed.
    pub fn approve_application(
        &mut self,
        caller: u64,
        labour_id: u64,
        project_id: u32,
        now: i64,
    ) -> (r: Result<(), ErrorCode>)
        requires
            old(self).wf(),
        ensures
            final(self).wf(),
            match old(self).approve_application_error(caller, labour_id, project_id) {
                Some(e) => r == Err::<(), ErrorCode>(e) && *final(self) == *old(self),
                None => {
                    let p = old(self).project(project_id);
                    &&& r == Ok::<(), ErrorCode>(())
                    &&& final(self).applications@ == old(self).applications@.update(
                        old(self).application_index(labour_id, project_id),
                        Application {
                            timestamp: now,
                            ..old(self).application(labour_id, project_id)
                        },
                    )
                    &&& final(self).assignments@ == old(self).assignments@.push(
                        Assignment {
                            labour: labour_id,
                            project: project_id,
                            days_worked: 0,
                            days_paid: 0,
                            active: true,
                            timestamp: now,
                        },
                    )
                    &&& final(self).projects@ == old(self).projects@.update(
                        project_id as int,
                        Project {
                            labour_count: (p.labour_count + 1) as u8,
                            status: (if p.labour_count + 1 == p.max_labourers {
                                ProjectStatus::InProgress
                            } else {
                                ProjectStatus::Open
                            }),
                            ..p
                        },
                    )
                    &&& final(self).system == old(self).system
                    &&& final(self).users@ == old(self).users@
                    &&& final(self).work_verifications@ == old(self).work_verifications@
                    &&& final(self).reviews@ == old(self).reviews@
                    &&& final(self).ledger == old(self).ledger
                },
            },
    {
        let ai = match self.find_application(labour_id, project_id) {
            None => {
                return Err(ErrorCode::RecordNotFound);
            },
            Some(i) => i,
        };
        if self.applications[ai].status != ApplicationStatus::Pending {
            return Err(ErrorCode::ApplicationNotPending);
        }
        if self.find_user(labour_id).is_none() {
            return Err(ErrorCode::RecordNotFound);
        }
        if self.find_user(caller).is_none() {
            return Err(ErrorCode::NotAuthorized);
        }
        proof {
            assert(self.application_wf(ai as int));
        }
        if self.projects[project_id as usize].manager != caller {
            return Err(ErrorCode::InvalidManager);
        }
        if self.find_assignment(labour_id, project_id).is_some() {
            return Err(ErrorCode::DuplicateRecord);
        }
        if self.projects[project_id as usize].status != ProjectStatus::Open {
            return Err(ErrorCode::ProjectNotOpen);
        }
        if self.projects[project_id as usize].labour_count
            >= self.projects[project_id as usize].max_labourers {
            return Err(ErrorCode::ProjectFull);
        }
        let app = &self.applications[ai];
        let refreshed = Application {
            labour: app.labour,
            project: app.project,
            description: app.description.clone(),
            status: app.status,
            timestamp: now,
        };
        self.applications.set(ai, refreshed);
        self.assignments.push(
            Assignment {
                labour: labour_id,
                project: project_id,
                days_worked: 0,
                days_paid: 0,
                active: true,
                timestamp: now,
            },
        );
        let p = &self.projects[project_id as usize];
        let new_count = p.labour_count + 1;
        let updated = Project {
            manager: p.manager,
            title: p.title.clone(),
            metadata_uri: p.metadata_uri.clone(),
            daily_rate: p.daily_rate,
            duration_days: p.duration_days,
            max_labourers: p.max_labourers,
            labour_count: new_count,
            status: (if new_count == p.max_labourers {
                ProjectStatus::InProgress
            } else {
                ProjectStatus::Open
            }),
            timestamp: p.timestamp,
            index: p.index,
        };
        self.projects.set(project_id as usize, updated);
        proof {
            let pre = *old(self);
            let pidx = project_id as int;
            lemma_payroll_push(
                pre.assignments@,
                Assignment {
                    labour: labour_id,
                    project: project_id,
                    days_worked: 0,
                    days_paid: 0,
                    active: true,
                    timestamp: now,
                },
            );
            assert forall|a: int, b: int|
                0 <= a < b < self.applications@.len() implies !((
            #[trigger] self.applications@[a]).labour == (#[trigger] self.applications@[b]).labour
                && self.applications@[a].project == self.applications@[b].project) by {
                assert(!(pre.applications@[a].labour == pre.applications@[b].labour
                    && pre.applications@[a].project == pre.applications@[b].project));
            }
            assert forall|i: int|
                0 <= i < self.applications@.len() implies #[trigger] self.application_wf(i) by {
                assert(pre.application_wf(i));
            }
            assert forall|i: int|
                0 <= i < self.assignments@.len() implies #[trigger] self.assignment_wf(i) by {
                if i < pre.assignments@.len() {
                    assert(pre.assignment_wf(i));
                    assert(self.assignments@[i] == pre.assignments@[i]);
                    if pre.assignments@[i].project == pidx {
                        assert(self.projects@[pidx].duration_days
                            == pre.projects@[pidx].duration_days);
                    }
                }
            }
            assert forall|a: int, b: int|
                0 <= a < b < self.assignments@.len() implies !((
            #[trigger] self.assignments@[a]).labour == (#[trigger] self.assignments@[b]).labour
                && self.assignments@[a].project == self.assignments@[b].project) by {
                if b == pre.assignments@.len() {
                    assert(self.assignments@[a] == pre.assignments@[a]);
                }
            }
            assert forall|i: int|
                0 <= i < self.work_verifications@.len() implies #[trigger] self.verification_wf(
                i,
            ) by {
                assert(pre.verification_wf(i));
                let v = pre.work_verifications@[i];
                if v.project == pidx {
                    assert(self.projects@[pidx].duration_days == pre.projects@[pidx].duration_days);
                }
            }
            assert forall|i: int| 0 <= i < self.projects@.len() implies #[trigger] self.project_wf(
                i,
            ) by {
                assert(pre.project_wf(i));
            }
            assert forall|i: int| 0 <= i < self.projects@.len() implies #[trigger] self.escrow_ok(
                i,
            ) by {
                assert(pre.escrow_ok(i));
            }
            assert forall|p2: u32|
                p2 >= self.projects@.len() implies #[trigger] self.escrow_balance(p2) == 0 by {
                assert(pre.escrow_balance(p2) == 0);
            }
        }
        Ok(())
    }

    /// The first precondition of `close_project` that the arguments
    /// violate in this state, if any.
    pub open spec fn close_project_error(
        self,
        caller: u64,
        project_id: u32,
        target_status: ProjectStatus,
    ) -> Option<ErrorCode> {
        if !self.has_user(caller) {
            Some(ErrorCode::NotAuthorized)
        } else if !self.valid_project(project_id) {
            Some(ErrorCode::RecordNotFound)
        } else if self.project(project_id).manager != caller {
            Some(ErrorCode::InvalidManager)
        } else if target_status != ProjectStatus::Completed && target_status
            != ProjectStatus::Cancelled {
            Some(ErrorCode::WrongProjectStatus)
        } else if self.project(project_id).status != ProjectStatus::Open && self.project(
            project_id,
        ).status != ProjectStatus::InProgress {
            Some(ErrorCode::ProjectNotActive)
        } else {
            None
        }
    }

    /// Closes a running project to `Completed` or `Cancelled`, for its
    /// manager: the whole remaining escrow balance, possibly zero, returns
    /// to the manager's funding balance, and the pool reaches zero. A
    /// project already closed cannot be closed again.
    pub fn close_project(
        &mut self,
        caller: u64,
        project_id: u32,
        target_status: ProjectStatus,
    ) -> (r: Result<u64, ErrorCode>)
        requires
            old(self).wf(),
        ensures
            final(self).wf(),
            match old(self).close_project_error(caller, project_id, target_status) {
                Some(e) => r == Err::<u64, ErrorCode>(e) && *final(self) == *old(self),
                None => {
                    let refund = old(self).escrow_balance(project_id);
                    &&& r == Ok::<u64, ErrorCode>(refund as u64)
                    &&& final(self).projects@ == old(self).projects@.update(
                        project_id as int,
                        Project { status: target_status, ..old(self).project(project_id) },
                    )
                    &&& final(self).escrow_balance(project_id) == 0
                    &&& final(self).user_balance(caller) == old(self).user_balance(caller)
                        + refund
                    &&& forall|h: TokenHolder|
                        h != TokenHolder::User(caller) && h != TokenHolder::ProjectEscrow(
                            project_id,
                        ) ==> final(self).ledger.balance_of(h) == old(self).ledger.balance_of(h)
                    &&& final(self).ledger.supply == old(self).ledger.supply
                    &&& final(self).system == old(self).system
                    &&& final(self).users@ == old(self).users@
                    &&& final(self).applications@ == old(self).applications@
                    &&& final(self).assignments@ == old(self).assignments@
                    &&& final(self).work_verifications@ == old(self).work_verifications@
                    &&& final(self).reviews@ == old(self).reviews@
                },
            },
    {
        if self.find_user(caller).is_none() {
            return Err(ErrorCode::NotAuthorized);
        }
        if !(project_id < self.projects.len() as u32) {
            return Err(ErrorCode::RecordNotFound);
        }
        if self.projects[project_id as usize].manager != caller {
            return Err(ErrorCode::InvalidManager);
        }
        if target_status != ProjectStatus::Completed && target_status != ProjectStatus::Cancelled {
            return Err(ErrorCode::WrongProjectStatus);
        }
        let current = self.projects[project_id as usize].status;
        if current != ProjectStatus::Open && current != ProjectStatus::InProgress {
            return Err(ErrorCode::ProjectNotActive);
        }
        let refund = self.ledger.balance(TokenHolder::ProjectEscrow(project_id));
        if refund > 0 {
            match self.ledger.transfer(
                TokenHolder::ProjectEscrow(project_id),
                TokenHolder::User(caller),
                refund,
            ) {
                Err(e) => {
                    proof {
                        assert(false);
                    }
                    return Err(e);
                },
                Ok(()) => {},
            }
        }
        let p = &self.projects[project_id as usize];
        let updated = Project {
            manager: p.manager,
            title: p.title.clone(),
            metadata_uri: p.metadata_uri.clone(),
            daily_rate: p.daily_rate,
            duration_days: p.duration_days,
            max_labourers: p.max_labourers,
            labour_count: p.labour_count,
            status: target_status,
            timestamp: p.timestamp,
            index: p.index,
        };
        self.projects.set(project_id as usize, updated);
        proof {
            let pre = *old(self);
            let pidx = project_id as int;
            assert forall|i: int| 0 <= i < self.projects@.len() implies #[trigger] self.project_wf(
                i,
            ) by {
                assert(pre.project_wf(i));
            }
            assert forall|i: int|
                0 <= i < self.applications@.len() implies #[trigger] self.application_wf(i) by {
                assert(pre.application_wf(i));
            }
            assert forall|i: int|
                0 <= i < self.assignments@.len() implies #[trigger] self.assignment_wf(i) by {
                assert(pre.assignment_wf(i));
                let a = pre.assignments@[i];
                if a.project == pidx {
                    assert(self.projects@[pidx].duration_days == pre.projects@[pidx].duration_days);
                }
            }
            assert forall|i: int|
                0 <= i < self.work_verifications@.len() implies #[trigger] self.verification_wf(
                i,
            ) by {
                assert(pre.verification_wf(i));
                let v = pre.work_verifications@[i];
                if v.project == pidx {
                    assert(self.projects@[pidx].duration_days == pre.projects@[pidx].duration_days);
                }
            }
            assert forall|i: int| 0 <= i < self.projects@.len() implies #[trigger] self.escrow_ok(
                i,
            ) by {
                assert(pre.escrow_ok(i));
                if i != pidx {
                    assert(self.projects@[i] == pre.projects@[i]);
                    assert(TokenHolder::ProjectEscrow(i as u32) != TokenHolder::ProjectEscrow(
                        project_id,
                    ));
                    assert(self.ledger.balance_of(TokenHolder::ProjectEscrow(i as u32))
                        == pre.ledger.balance_of(TokenHolder::ProjectEscrow(i as u32)));
                }
            }
            assert forall|p2: u32|
                p2 >= self.projects@.len() implies #[trigger] self.escrow_balance(p2) == 0 by {
                assert(pre.escrow_balance(p2) == 0);
                assert(TokenHolder::ProjectEscrow(p2) != TokenHolder::ProjectEscrow(project_id));
            }
        }
        Ok(refund)
    }
}

} // verus!
