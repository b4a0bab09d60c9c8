use vstd::prelude::*;

use crate::engine::lemma_applications_wf_frame;
use crate::engine::lemma_assignments_wf_frame;
use crate::engine::lemma_escrows_wf_frame;
use crate::engine::lemma_payroll_update;
use crate::engine::lemma_projects_wf_frame;
use crate::engine::total_days_paid;
use crate::engine::DlmsState;
use crate::error::ErrorCode;
use crate::ledger::TokenHolder;
use crate::states::Assignment;
use crate::states::ProjectStatus;
use crate::states::WorkVerification;

verus! {

impl DlmsState {
    /// The first precondition of `verify_work_day` that the arguments
    /// violate in this state, if any. A day can be submitted only once,
    /// only in strict sequence, and only within the project's duration.
    pub open spec fn verify_work_day_error(
        self,
        authority: u64,
        project_id: u32,
        day_number: u16,
    ) -> Option<ErrorCode> {
        if !self.has_user(authority) {
            Some(ErrorCode::NotAuthorized)
        } else if !self.user(authority).active {
            Some(ErrorCode::LabourNotActive)
        } else if !self.valid_project(project_id) {
            Some(ErrorCode::RecordNotFound)
        } else if self.project(project_id).status != ProjectStatus::Open && self.project(
            project_id,
        ).status != ProjectStatus::InProgress {
            Some(ErrorCode::ProjectNotActive)
        } else if !self.has_assignment(authority, project_id) {
            Some(ErrorCode::RecordNotFound)
        } else if !self.assignment(authority, project_id).active {
            Some(ErrorCode::AssignmentNotActive)
        } else if self.has_verification(
            project_id,
            authority,
            self.assignment(authority, project_id).days_worked + 1,
        ) {
            Some(ErrorCode::DuplicateRecord)
        } else if day_number != self.assignment(authority, project_id).days_worked + 1 {
            Some(ErrorCode::InvalidDayNumber)
        } else if day_number > self.project(project_id).duration_days {
            Some(ErrorCode::InvalidDayNumber)
        } else {
            None
        }
    }

    /// Submits one day of work on the labourer's own assignment: creates
    /// the day's attestation record with the labourer's side already
    /// attested and the manager's side still open.
    ///
    /// With `days_worked = d`, only `day_number = d + 1` is accepted;
    /// skipping or repeating a day creates no record.
    pub fn verify_work_day(
        &mut self,
        authority: u64,
        project_id: u32,
        day_number: u16,
        work_metadata_uri: String,
        now: i64,
    ) -> (r: Result<(), ErrorCode>)
        requires
            old(self).wf(),
        ensures
            final(self).wf(),
            match old(self).verify_work_day_error(authority, project_id, day_number) {
                Some(e) => r == Err::<(), ErrorCode>(e) && *final(self) == *old(self),
                None => {
                    &&& r == Ok::<(), ErrorCode>(())
                    &&& final(self).work_verifications@ == old(self).work_verifications@.push(
                        WorkVerification {
                            project: project_id,
                            labour: authority,
                            day_number,
                            manager_verified: false,
                            labour_verified: true,
                            metadata_uri: work_metadata_uri,
                            timestamp: now,
                            payment_processed: false,
                        },
                    )
                    &&& final(self).system == old(self).system
                    &&& final(self).users@ == old(self).users@
                    &&& final(self).projects@ == old(self).projects@
                    &&& final(self).applications@ == old(self).applications@
                    &&& final(self).assignments@ == old(self).assignments@
                    &&& final(self).reviews@ == old(self).reviews@
                    &&& final(self).ledger == old(self).ledger
                },
            },
    {
        let ui = match self.find_user(authority) {
            None => {
                return Err(ErrorCode::NotAuthorized);
            },
            Some(i) => i,
        };
        if !self.users[ui].active {
            return Err(ErrorCode::LabourNotActive);
        }
        if !(project_id < self.projects.len() as u32) {
            return Err(ErrorCode::RecordNotFound);
        }
        let status = self.projects[project_id as usize].status;
        if status != ProjectStatus::Open && status != ProjectStatus::InProgress {
            return Err(ErrorCode::ProjectNotActive);
        }
        let ai = match self.find_assignment(authority, project_id) {
            None => {
                return Err(ErrorCode::RecordNotFound);
            },
            Some(i) => i,
        };
        if !self.assignments[ai].active {
            return Err(ErrorCode::AssignmentNotActive);
        }
        let next: u32 = self.assignments[ai].days_worked as u32 + 1;
        if self.find_verification(project_id, authority, next).is_some() {
            return Err(ErrorCode::DuplicateRecord);
        }
        if day_number as u32 != next {
            return Err(ErrorCode::InvalidDayNumber);
        }
        if day_number > self.projects[project_id as usize].duration_days {
            return Err(ErrorCode::InvalidDayNumber);
        }
        self.work_verifications.push(
            WorkVerification {
                project: project_id,
                labour: authority,
                day_number,
                manager_verified: false,
                labour_verified: true,
                metadata_uri: work_metadata_uri,
                timestamp: now,
                payment_processed: false,
            },
        );
        proof {
            let pre = *old(self);
            assert forall|i: int|
                0 <= i < self.work_verifications@.len() implies #[trigger] self.verification_wf(
                i,
            ) by {
                if i < pre.work_verifications@.len() {
                    assert(pre.verification_wf(i));
                    assert(self.work_verifications@[i] == pre.work_verifications@[i]);
                }
            }
            assert forall|a: int, b: int|
                0 <= a < b < self.work_verifications@.len() implies !((
            #[trigger] self.work_verifications@[a]).project == (
            #[trigger] self.work_verifications@[b]).project && self.work_verifications@[a].labour
                == self.work_verifications@[b].labour && self.work_verifications@[a].day_number
                == self.work_verifications@[b].day_number) by {
                if b == pre.work_verifications@.len() {
                    assert(self.work_verifications@[a] == pre.work_verifications@[a]);
                }
            }
            lemma_projects_wf_frame(pre, *self);
            lemma_applications_wf_frame(pre, *self);
            lemma_assignments_wf_frame(pre, *self);
            lemma_escrows_wf_frame(pre, *self);
        }
        Ok(())
    }

    /// The first precondition of `approve_work_day` that the arguments
    /// violate in this state, if any. A day already carrying the manager's
    /// attestation is rejected outright: that is the guard that makes the
    /// payment happen at most once per day.
    pub open spec fn approve_work_day_error(
        self,
        caller: u64,
        project_id: u32,
        labour_id: u64,
        day_number: u16,
    ) -> Option<ErrorCode> {
        if !self.has_user(caller) {
            Some(ErrorCode::NotAuthorized)
        } else if !self.valid_project(project_id) {
            Some(ErrorCode::RecordNotFound)
        } else if self.project(project_id).manager != caller {
            Some(ErrorCode::InvalidManager)
        } else if !self.has_user(labour_id) {
            Some(ErrorCode::RecordNotFound)
        } else if !self.has_assignment(labour_id, project_id) {
            Some(ErrorCode::RecordNotFound)
        } else if !self.has_verification(project_id, labour_id, day_number as int) {
            Some(ErrorCode::RecordNotFound)
        } else if self.verification(project_id, labour_id, day_number as int).manager_verified {
            Some(ErrorCode::AlreadyVerified)
        } else if day_number != self.assignment(labour_id, project_id).days_worked + 1 {
            Some(ErrorCode::InvalidDaySequence)
        } else if self.escrow_balance(project_id) < self.project(project_id).daily_rate {
            Some(ErrorCode::InsufficientFunds)
        } else {
            None
        }
    }

    /// Approves one submitted day, for the project's manager. The
    /// labourer's attestation was captured at submission, so the approval
    /// completes the dual attestation and releases exactly one
    /// `daily_rate` from the project's escrow to the labourer, marking the
    /// day paid and advancing the assignment's worked and paid counters
    /// together.
    ///
    /// Approving the same day again fails with an already-verified error
    /// and moves no funds.
    pub fn approve_work_day(
        &mut self,
        caller: u64,
        project_id: u32,
        labour_id: u64,
        day_number: u16,
        now: i64,
    ) -> (r: Result<bool, ErrorCode>)
        requires
            old(self).wf(),
        ensures
            final(self).wf(),
            match old(self).approve_work_day_error(caller, project_id, labour_id, day_number) {
                Some(e) => r == Err::<bool, ErrorCode>(e) && *final(self) == *old(self),
                None => {
                    let a = old(self).assignment(labour_id, project_id);
                    &&& r == Ok::<bool, ErrorCode>(true)
                    &&& final(self).work_verifications@ == old(self).work_verifications@.update(
                        old(self).verification_index(project_id, labour_id, day_number as int),
                        WorkVerification {
                            manager_verified: true,
                            payment_processed: true,
                            timestamp: now,
                            ..old(self).verification(project_id, labour_id, day_number as int)
                        },
                    )
                    &&& final(self).assignments@ == old(self).assignments@.update(
                        old(self).assignment_index(labour_id, project_id),
                        Assignment {
                            days_worked: (a.days_worked + 1) as u16,
                            days_paid: (a.days_paid + 1) as u16,
                            ..a
                        },
                    )
                    &&& final(self).escrow_balance(project_id) == old(self).escrow_balance(
                        project_id,
                    ) - old(self).project(project_id).daily_rate
                    &&& final(self).user_balance(labour_id) == old(self).user_balance(labour_id)
                        + old(self).project(project_id).daily_rate
                    &&& forall|h: TokenHolder|
                        h != TokenHolder::ProjectEscrow(project_id) && h != TokenHolder::User(
                            labour_id,
                        ) ==> final(self).ledger.balance_of(h) == old(self).ledger.balance_of(h)
                    &&& final(self).ledger.supply == old(self).ledger.supply
                    &&& final(self).system == old(self).system
                    &&& final(self).users@ == old(self).users@
                    &&& final(self).projects@ == old(self).projects@
                    &&& final(self).applications@ == old(self).applications@
                    &&& final(self).reviews@ == old(self).reviews@
                },
            },
    {
        if self.find_user(caller).is_none() {
            return Err(ErrorCode::NotAuthorized);
        }
        if !(project_id < self.projects.len() as u32) {
            return Err(ErrorCode::RecordNotFound);
        }
        if self.projects[project_id as usize].manager != caller {
            return Err(ErrorCode::InvalidManager);
        }
        if self.find_user(labour_id).is_none() {
            return Err(ErrorCode::RecordNotFound);
        }
        let ai = match self.find_assignment(labour_id, project_id) {
            None => {
                return Err(ErrorCode::RecordNotFound);
            },
            Some(i) => i,
        };
        let vi = match self.find_verification(project_id, labour_id, day_number as u32) {
            None => {
                return Err(ErrorCode::RecordNotFound);
            },
            Some(i) => i,
        };
        if self.work_verifications[vi].manager_verified {
            return Err(ErrorCode::AlreadyVerified);
        }
        if day_number as u32 != self.assignments[ai].days_worked as u32 + 1 {
            return Err(ErrorCode::InvalidDaySequence);
        }
        let daily_rate = self.projects[project_id as usize].daily_rate;
        let escrow = self.ledger.balance(TokenHolder::ProjectEscrow(project_id));
        if escrow < daily_rate {
            return Err(ErrorCode::InsufficientFunds);
        }
        proof {
            assert(self.verification_wf(vi as int));
            assert(self.assignment_wf(ai as int));
        }
        let v = &self.work_verifications[vi];
        let approved = WorkVerification {
            project: v.project,
            labour: v.labour,
            day_number: v.day_number,
            manager_verified: true,
            labour_verified: v.labour_verified,
            metadata_uri: v.metadata_uri.clone(),
            timestamp: now,
            payment_processed: true,
        };
        self.work_verifications.set(vi, approved);
        let a = &self.assignments[ai];
        let advanced = Assignment {
            labour: a.labour,
            project: a.project,
            days_worked: a.days_worked + 1,
            days_paid: a.days_paid + 1,
            active: a.active,
            timestamp: a.timestamp,
        };
        self.assignments.set(ai, advanced);
        match self.ledger.transfer(
            TokenHolder::ProjectEscrow(project_id),
            TokenHolder::User(labour_id),
            daily_rate,
        ) {
            Err(e) => {
                // The balance was checked above, so the transfer cannot
                // come up short; the proof confirms this arm is dead.
                proof {
                    assert(false);
                }
                return Err(e);
            },
            Ok(()) => {},
        }
        proof {
            let pre = *old(self);
            let pidx = project_id as int;
            let aidx = pre.assignment_index(labour_id, project_id);
            lemma_payroll_update(pre.assignments@, aidx, self.assignments@[aidx]);
            assert forall|i: int|
                0 <= i < self.work_verifications@.len() implies #[trigger] self.verification_wf(
                i,
            ) by {
                assert(pre.verification_wf(i));
            }
            assert forall|a2: int, b: int|
                0 <= a2 < b < self.work_verifications@.len() implies !((
            #[trigger] self.work_verifications@[a2]).project == (
            #[trigger] self.work_verifications@[b]).project && self.work_verifications@[a2].labour
                == self.work_verifications@[b].labour && self.work_verifications@[a2].day_number
                == self.work_verifications@[b].day_number) by {
                assert(!(pre.work_verifications@[a2].project == pre.work_verifications@[b].project
                    && pre.work_verifications@[a2].labour == pre.work_verifications@[b].labour
                    && pre.work_verifications@[a2].day_number
                    == pre.work_verifications@[b].day_number));
            }
            assert forall|i: int|
                0 <= i < self.assignments@.len() implies #[trigger] self.assignment_wf(i) by {
                assert(pre.assignment_wf(i));
            }
            assert forall|a2: int, b: int|
                0 <= a2 < b < self.assignments@.len() implies !((
            #[trigger] self.assignments@[a2]).labour == (#[trigger] self.assignments@[b]).labour
                && self.assignments@[a2].project == self.assignments@[b].project) by {
                assert(!(pre.assignments@[a2].labour == pre.assignments@[b].labour
                    && pre.assignments@[a2].project == pre.assignments@[b].project));
            }
            assert forall|i: int| 0 <= i < self.projects@.len() implies #[trigger] self.project_wf(
                i,
            ) by {
                assert(pre.project_wf(i));
            }
            lemma_applications_wf_frame(pre, *self);
            let rate = pre.projects@[pidx].daily_rate as int;
            assert forall|i: int| 0 <= i < self.projects@.len() implies #[trigger] self.escrow_ok(
                i,
            ) by {
                assert(pre.escrow_ok(i));
                if i == pidx {
                    let t0 = total_days_paid(pre.assignments@, i);
                    assert(total_days_paid(self.assignments@, i) == t0 + 1);
                    assert(rate * (t0 + 1) == rate * t0 + rate) by (nonlinear_arith);
                } else {
                    assert(self.projects@[i] == pre.projects@[i]);
                    assert(total_days_paid(self.assignments@, i) == total_days_paid(
                        pre.assignments@,
                        i,
                    ));
                    assert(TokenHolder::ProjectEscrow(i as u32) != TokenHolder::ProjectEscrow(
                        project_id,
                    ));
                    assert(self.ledger.balance_of(TokenHolder::ProjectEscrow(i as u32))
                        == pre.ledger.balance_of(TokenHolder::ProjectEscrow(i as u32)));
                }
            }
            assert forall|p2: u32|
                p2 >= self.projects@.len() implies #[trigger] self.escrow_balance(p2) == 0 by {
                assert(pre.escrow_balance(p2) == 0);
                assert(TokenHolder::ProjectEscrow(p2) != TokenHolder::ProjectEscrow(project_id));
            }
        }
        Ok(true)
    }
}

} // verus!
