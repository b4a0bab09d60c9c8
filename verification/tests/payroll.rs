use dlms_contract::engine::DlmsState;
use dlms_contract::error::ErrorCode;
use dlms_contract::ledger::TokenHolder;
use dlms_contract::states::ProjectStatus;
use dlms_contract::states::UserRole;

fn running_project(daily_rate: u64, duration_days: u16, max_labourers: u8) -> DlmsState {
    let mut s = DlmsState::initialize_system(1, 7);
    s.register_user(10, "mgr".to_string(), "u".to_string(), UserRole::Manager, 0)
        .unwrap();
    s.register_user(20, "alice".to_string(), "u".to_string(), UserRole::Labour, 0)
        .unwrap();
    let need = daily_rate * max_labourers as u64 * duration_days as u64;
    s.mint_token(10, need).unwrap();
    s.create_project(10, "t".to_string(), "u".to_string(), daily_rate, duration_days, max_labourers, 1)
        .unwrap();
    s.apply_to_project(20, 0, "a".to_string(), 2).unwrap();
    s.approve_application(10, 20, 0, 3).unwrap();
    s
}

fn escrow(s: &DlmsState, pid: u32) -> u64 {
    s.ledger.balance(TokenHolder::ProjectEscrow(pid))
}

#[test]
fn submission_is_strictly_sequential() {
    let mut s = running_project(100, 5, 2);
    // days_worked = 0: only day 1 is accepted.
    assert_eq!(
        s.verify_work_day(20, 0, 2, "u".to_string(), 4),
        Err(ErrorCode::InvalidDayNumber)
    );
    assert_eq!(s.work_verifications.len(), 0);
    s.verify_work_day(20, 0, 1, "u".to_string(), 4).unwrap();
    assert_eq!(s.work_verifications.len(), 1);
    // The day-1 record exists already; resubmitting hits the key.
    assert_eq!(
        s.verify_work_day(20, 0, 1, "u".to_string(), 5),
        Err(ErrorCode::DuplicateRecord)
    );
    // After approval, days_worked = 1: day 3 is out of sequence.
    s.approve_work_day(10, 0, 20, 1, 6).unwrap();
    assert_eq!(
        s.verify_work_day(20, 0, 3, "u".to_string(), 7),
        Err(ErrorCode::InvalidDayNumber)
    );
    s.verify_work_day(20, 0, 2, "u".to_string(), 7).unwrap();
    assert_eq!(s.work_verifications.len(), 2);
}

#[test]
fn no_day_beyond_project_duration() {
    let mut s = running_project(100, 1, 1);
    s.verify_work_day(20, 0, 1, "u".to_string(), 4).unwrap();
    assert_eq!(s.approve_work_day(10, 0, 20, 1, 5), Ok(true));
    // The one paid day exhausted the duration: day 2 is rejected.
    assert_eq!(
        s.verify_work_day(20, 0, 2, "u".to_string(), 6),
        Err(ErrorCode::InvalidDayNumber)
    );
    assert_eq!(s.assignments[0].days_worked, 1);
    assert_eq!(s.assignments[0].days_paid, 1);
}

#[test]
fn payment_happens_exactly_once() {
    let mut s = running_project(100, 5, 2);
    s.verify_work_day(20, 0, 1, "u".to_string(), 4).unwrap();
    assert_eq!(s.approve_work_day(10, 0, 20, 1, 5), Ok(true));
    assert_eq!(escrow(&s, 0), 900);
    assert_eq!(s.ledger.balance(TokenHolder::User(20)), 100);
    assert!(s.work_verifications[0].payment_processed);
    assert!(s.work_verifications[0].manager_verified);
    assert!(s.work_verifications[0].labour_verified);
    // However often the approval is retried, no further transfer happens.
    for attempt in 0..3 {
        assert_eq!(
            s.approve_work_day(10, 0, 20, 1, 6 + attempt),
            Err(ErrorCode::AlreadyVerified)
        );
        assert_eq!(escrow(&s, 0), 900);
        assert_eq!(s.ledger.balance(TokenHolder::User(20)), 100);
    }
}

#[test]
fn escrow_is_conserved_across_the_whole_run() {
    let mut s = running_project(100, 3, 1);
    // Initial pool: 100 * 1 * 3.
    assert_eq!(escrow(&s, 0), 300);
    for day in 1..=3u16 {
        s.verify_work_day(20, 0, day, "u".to_string(), day as i64)
            .unwrap();
        s.approve_work_day(10, 0, 20, day, day as i64).unwrap();
        assert_eq!(escrow(&s, 0), 300 - 100 * day as u64);
        assert_eq!(s.ledger.balance(TokenHolder::User(20)), 100 * day as u64);
    }
    // Everything was paid out; closing refunds exactly zero.
    assert_eq!(s.close_project(10, 0, ProjectStatus::Completed), Ok(0));
    assert_eq!(s.ledger.balance(TokenHolder::User(10)), 0);
    assert_eq!(s.ledger.balance(TokenHolder::User(20)), 300);
}

#[test]
fn submission_requires_running_project_and_own_assignment() {
    let mut s = running_project(100, 5, 2);
    // An identity without an assignment cannot submit.
    s.register_user(21, "bob".to_string(), "u".to_string(), UserRole::Labour, 0)
        .unwrap();
    assert_eq!(
        s.verify_work_day(21, 0, 1, "u".to_string(), 4),
        Err(ErrorCode::RecordNotFound)
    );
    // An unknown identity cannot submit.
    assert_eq!(
        s.verify_work_day(99, 0, 1, "u".to_string(), 4),
        Err(ErrorCode::NotAuthorized)
    );
    // After closure nothing can be submitted.
    s.close_project(10, 0, ProjectStatus::Cancelled).unwrap();
    assert_eq!(
        s.verify_work_day(20, 0, 1, "u".to_string(), 5),
        Err(ErrorCode::ProjectNotActive)
    );
}

#[test]
fn approval_after_closure_finds_no_funds() {
    let mut s = running_project(100, 5, 2);
    s.verify_work_day(20, 0, 1, "u".to_string(), 4).unwrap();
    // The manager closes before approving; the pool drains to the manager.
    assert_eq!(s.close_project(10, 0, ProjectStatus::Cancelled), Ok(1000));
    // The pending day can no longer be paid: the pool is empty.
    assert_eq!(
        s.approve_work_day(10, 0, 20, 1, 5),
        Err(ErrorCode::InsufficientFunds)
    );
    assert_eq!(s.ledger.balance(TokenHolder::User(20)), 0);
    assert_eq!(s.assignments[0].days_paid, 0);
}

#[test]
fn approval_is_gated_by_manager_and_record() {
    let mut s = running_project(100, 5, 2);
    // Nothing submitted yet.
    assert_eq!(
        s.approve_work_day(10, 0, 20, 1, 4),
        Err(ErrorCode::RecordNotFound)
    );
    s.verify_work_day(20, 0, 1, "u".to_string(), 4).unwrap();
    // Only the project's manager approves.
    assert_eq!(
        s.approve_work_day(20, 0, 20, 1, 5),
        Err(ErrorCode::InvalidManager)
    );
    // The labourer's own attestation is captured at submission.
    assert!(s.work_verifications[0].labour_verified);
    assert!(!s.work_verifications[0].manager_verified);
    assert!(!s.work_verifications[0].payment_processed);
}
