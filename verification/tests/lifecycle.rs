use dlms_contract::engine::DlmsState;
use dlms_contract::error::ErrorCode;
use dlms_contract::ledger::TokenHolder;
use dlms_contract::states::ProjectStatus;
use dlms_contract::states::UserRole;

fn setup_manager_and_labourers(funding: u64) -> DlmsState {
    let mut s = DlmsState::initialize_system(1, 7);
    s.register_user(10, "mgr".to_string(), "uri://m".to_string(), UserRole::Manager, 0)
        .unwrap();
    s.register_user(20, "alice".to_string(), "uri://a".to_string(), UserRole::Labour, 0)
        .unwrap();
    s.register_user(21, "bob".to_string(), "uri://b".to_string(), UserRole::Labour, 0)
        .unwrap();
    s.register_user(22, "carol".to_string(), "uri://c".to_string(), UserRole::Labour, 0)
        .unwrap();
    s.mint_token(10, funding).unwrap();
    s
}

fn balance(s: &DlmsState, user: u64) -> u64 {
    s.ledger.balance(TokenHolder::User(user))
}

fn escrow(s: &DlmsState, pid: u32) -> u64 {
    s.ledger.balance(TokenHolder::ProjectEscrow(pid))
}

#[test]
fn end_to_end_scenario() {
    // dailyRate=100, maxLabourers=2, durationDays=5: creation locks 1000.
    let mut s = setup_manager_and_labourers(1000);
    let pid = s
        .create_project(10, "well".to_string(), "uri://p".to_string(), 100, 5, 2, 1)
        .unwrap();
    assert_eq!(pid, 0);
    assert_eq!(balance(&s, 10), 0);
    assert_eq!(escrow(&s, 0), 1000);

    // Two labourers apply and are approved: capacity reached, InProgress.
    s.apply_to_project(20, 0, "hi".to_string(), 2).unwrap();
    s.apply_to_project(21, 0, "hi".to_string(), 2).unwrap();
    s.approve_application(10, 20, 0, 3).unwrap();
    assert_eq!(s.projects[0].labour_count, 1);
    assert_eq!(s.projects[0].status, ProjectStatus::Open);
    s.approve_application(10, 21, 0, 3).unwrap();
    assert_eq!(s.projects[0].labour_count, 2);
    assert_eq!(s.projects[0].status, ProjectStatus::InProgress);

    // Labourer A submits day 1, the manager approves: 100 released.
    s.verify_work_day(20, 0, 1, "uri://d1".to_string(), 4).unwrap();
    assert_eq!(s.approve_work_day(10, 0, 20, 1, 5), Ok(true));
    assert_eq!(escrow(&s, 0), 900);
    assert_eq!(balance(&s, 20), 100);
    assert_eq!(s.assignments[0].days_worked, 1);
    assert_eq!(s.assignments[0].days_paid, 1);

    // Re-approving day 1 fails and moves nothing.
    assert_eq!(
        s.approve_work_day(10, 0, 20, 1, 6),
        Err(ErrorCode::AlreadyVerified)
    );
    assert_eq!(escrow(&s, 0), 900);
    assert_eq!(balance(&s, 20), 100);

    // Closing returns the remaining 900 to the manager.
    assert_eq!(s.close_project(10, 0, ProjectStatus::Completed), Ok(900));
    assert_eq!(escrow(&s, 0), 0);
    assert_eq!(balance(&s, 10), 900);
    assert_eq!(s.projects[0].status, ProjectStatus::Completed);
}

#[test]
fn escrow_overflow_fails_with_calculation_error() {
    let mut s = setup_manager_and_labourers(1000);
    // u64::MAX * 2 overflows in the first checked step.
    let r = s.create_project(10, "t".to_string(), "u".to_string(), u64::MAX, 5, 2, 1);
    assert_eq!(r, Err(ErrorCode::CalculationError));
    // (u64::MAX / 2) * 2 fits, times 5 overflows in the second step.
    let r2 = s.create_project(10, "t".to_string(), "u".to_string(), u64::MAX / 2, 5, 2, 1);
    assert_eq!(r2, Err(ErrorCode::CalculationError));
    // No funds moved, no project created.
    assert_eq!(balance(&s, 10), 1000);
    assert_eq!(s.projects.len(), 0);
    assert_eq!(s.system.project_count, 0);
}

#[test]
fn create_project_validates_inputs() {
    let mut s = setup_manager_and_labourers(1000);
    assert_eq!(
        s.create_project(10, "t".to_string(), "u".to_string(), 0, 5, 2, 1),
        Err(ErrorCode::InvalidDailyRate)
    );
    assert_eq!(
        s.create_project(10, "t".to_string(), "u".to_string(), 100, 0, 2, 1),
        Err(ErrorCode::InvalidDuration)
    );
    assert_eq!(
        s.create_project(10, "t".to_string(), "u".to_string(), 100, 5, 0, 1),
        Err(ErrorCode::InvalidLabourerCount)
    );
    // 100 * 2 * 5 = 1000 needed, 999 available.
    let mut poor = DlmsState::initialize_system(1, 7);
    poor.register_user(10, "m".to_string(), "u".to_string(), UserRole::Manager, 0)
        .unwrap();
    poor.mint_token(10, 999).unwrap();
    assert_eq!(
        poor.create_project(10, "t".to_string(), "u".to_string(), 100, 5, 2, 1),
        Err(ErrorCode::InsufficientFunds)
    );
    // A labourer cannot create a project.
    assert_eq!(
        s.create_project(20, "t".to_string(), "u".to_string(), 100, 5, 2, 1),
        Err(ErrorCode::NotAuthorized)
    );
}

#[test]
fn capacity_fills_exactly_once() {
    let mut s = setup_manager_and_labourers(1000);
    s.create_project(10, "t".to_string(), "u".to_string(), 100, 5, 2, 1)
        .unwrap();
    s.apply_to_project(20, 0, "a".to_string(), 2).unwrap();
    s.apply_to_project(21, 0, "b".to_string(), 2).unwrap();
    s.apply_to_project(22, 0, "c".to_string(), 2).unwrap();
    s.approve_application(10, 20, 0, 3).unwrap();
    assert_eq!(s.projects[0].status, ProjectStatus::Open);
    s.approve_application(10, 21, 0, 3).unwrap();
    // The status flips to InProgress on the approval that fills capacity.
    assert_eq!(s.projects[0].status, ProjectStatus::InProgress);
    assert_eq!(s.projects[0].labour_count, 2);
    // A third approval is rejected: the project no longer accepts anyone.
    assert_eq!(
        s.approve_application(10, 22, 0, 4),
        Err(ErrorCode::ProjectNotOpen)
    );
    assert_eq!(s.projects[0].labour_count, 2);
}

#[test]
fn applications_are_unique_and_gated() {
    let mut s = setup_manager_and_labourers(1000);
    s.create_project(10, "t".to_string(), "u".to_string(), 100, 5, 2, 1)
        .unwrap();
    s.apply_to_project(20, 0, "a".to_string(), 2).unwrap();
    // One application per (labourer, project) pair.
    assert_eq!(
        s.apply_to_project(20, 0, "again".to_string(), 3),
        Err(ErrorCode::DuplicateRecord)
    );
    // A manager identity cannot apply.
    assert_eq!(
        s.apply_to_project(10, 0, "x".to_string(), 3),
        Err(ErrorCode::NotAuthorized)
    );
    // An inactive labourer cannot apply.
    s.update_user(21, "bob".to_string(), "u".to_string(), Some(false), 4)
        .unwrap();
    assert_eq!(
        s.apply_to_project(21, 0, "x".to_string(), 5),
        Err(ErrorCode::LabourNotActive)
    );
    // A project that does not exist.
    assert_eq!(
        s.apply_to_project(22, 9, "x".to_string(), 5),
        Err(ErrorCode::RecordNotFound)
    );
}

#[test]
fn approve_application_is_gated() {
    let mut s = setup_manager_and_labourers(2000);
    s.create_project(10, "t".to_string(), "u".to_string(), 100, 5, 2, 1)
        .unwrap();
    // No application on file yet.
    assert_eq!(
        s.approve_application(10, 20, 0, 2),
        Err(ErrorCode::RecordNotFound)
    );
    s.apply_to_project(20, 0, "a".to_string(), 2).unwrap();
    // Only the project's manager may approve.
    s.register_user(11, "m2".to_string(), "u".to_string(), UserRole::Manager, 0)
        .unwrap();
    assert_eq!(
        s.approve_application(11, 20, 0, 3),
        Err(ErrorCode::InvalidManager)
    );
    s.approve_application(10, 20, 0, 3).unwrap();
    // Approving the same pair again hits the one-assignment-per-pair key.
    assert_eq!(
        s.approve_application(10, 20, 0, 4),
        Err(ErrorCode::DuplicateRecord)
    );
}

#[test]
fn close_project_returns_residual_and_gates_reentry() {
    let mut s = setup_manager_and_labourers(1000);
    s.create_project(10, "t".to_string(), "u".to_string(), 100, 5, 2, 1)
        .unwrap();
    // Only a closed status may be requested.
    assert_eq!(
        s.close_project(10, 0, ProjectStatus::Open),
        Err(ErrorCode::WrongProjectStatus)
    );
    // Only the manager may close.
    assert_eq!(
        s.close_project(20, 0, ProjectStatus::Completed),
        Err(ErrorCode::InvalidManager)
    );
    // Closing an untouched project refunds the whole pool.
    assert_eq!(s.close_project(10, 0, ProjectStatus::Cancelled), Ok(1000));
    assert_eq!(balance(&s, 10), 1000);
    assert_eq!(escrow(&s, 0), 0);
    assert_eq!(s.projects[0].status, ProjectStatus::Cancelled);
    // A second close is a caller error, not a second refund.
    assert_eq!(
        s.close_project(10, 0, ProjectStatus::Completed),
        Err(ErrorCode::ProjectNotActive)
    );
    assert_eq!(balance(&s, 10), 1000);
}

#[test]
fn project_indices_are_sequential() {
    let mut s = setup_manager_and_labourers(3000);
    let a = s
        .create_project(10, "p0".to_string(), "u".to_string(), 100, 5, 2, 1)
        .unwrap();
    let b = s
        .create_project(10, "p1".to_string(), "u".to_string(), 10, 10, 2, 2)
        .unwrap();
    assert_eq!(a, 0);
    assert_eq!(b, 1);
    assert_eq!(s.system.project_count, 2);
    assert_eq!(s.projects[0].index, 0);
    assert_eq!(s.projects[1].index, 1);
    assert_eq!(escrow(&s, 0), 1000);
    assert_eq!(escrow(&s, 1), 200);
    assert_eq!(balance(&s, 10), 1800);
}
