use dlms_contract::engine::DlmsState;
use dlms_contract::error::ErrorCode;
use dlms_contract::ledger::TokenHolder;
use dlms_contract::states::ReviewType;
use dlms_contract::states::UserRole;

#[test]
fn registration_is_unique_and_counted() {
    let mut s = DlmsState::initialize_system(1, 7);
    s.register_user(10, "m".to_string(), "u".to_string(), UserRole::Manager, 5)
        .unwrap();
    s.register_user(20, "a".to_string(), "u".to_string(), UserRole::Labour, 6)
        .unwrap();
    assert_eq!(s.system.manager_count, 1);
    assert_eq!(s.system.labour_count, 1);
    assert_eq!(s.users.len(), 2);
    assert_eq!(s.users[0].index, 0);
    assert_eq!(s.users[1].index, 1);
    assert!(s.users[1].active);
    assert!(!s.users[1].verified);
    assert_eq!(s.users[1].rating, 0);
    // One record per authority.
    assert_eq!(
        s.register_user(10, "m2".to_string(), "u".to_string(), UserRole::Labour, 7),
        Err(ErrorCode::DuplicateRecord)
    );
    assert_eq!(s.users.len(), 2);
}

#[test]
fn update_user_rewrites_profile() {
    let mut s = DlmsState::initialize_system(1, 7);
    s.register_user(20, "a".to_string(), "u1".to_string(), UserRole::Labour, 0)
        .unwrap();
    s.update_user(20, "anne".to_string(), "u2".to_string(), None, 9)
        .unwrap();
    assert_eq!(s.users[0].name, "anne");
    assert_eq!(s.users[0].metadata_uri, "u2");
    assert!(s.users[0].active);
    assert_eq!(s.users[0].timestamp, 9);
    s.update_user(20, "anne".to_string(), "u2".to_string(), Some(false), 10)
        .unwrap();
    assert!(!s.users[0].active);
    // An unknown caller cannot update anything.
    assert_eq!(
        s.update_user(99, "x".to_string(), "u".to_string(), None, 11),
        Err(ErrorCode::NotAuthorized)
    );
}

#[test]
fn delete_user_releases_record_and_count() {
    let mut s = DlmsState::initialize_system(1, 7);
    s.register_user(20, "a".to_string(), "u".to_string(), UserRole::Labour, 0)
        .unwrap();
    s.delete_user(20).unwrap();
    assert_eq!(s.users.len(), 0);
    assert_eq!(s.system.labour_count, 0);
    assert_eq!(s.delete_user(20), Err(ErrorCode::NotAuthorized));
    // The authority can register again after deletion.
    s.register_user(20, "a".to_string(), "u".to_string(), UserRole::Manager, 1)
        .unwrap();
    assert_eq!(s.system.manager_count, 1);
}

#[test]
fn admin_list_is_gated_unique_and_capped() {
    let mut s = DlmsState::initialize_system(1, 7);
    // Only the system authority maintains the list.
    assert_eq!(s.add_admin(2, 100), Err(ErrorCode::NotAuthorized));
    s.add_admin(1, 100).unwrap();
    assert_eq!(s.add_admin(1, 100), Err(ErrorCode::AdminAlreadyExists));
    for k in 1..10u64 {
        s.add_admin(1, 100 + k).unwrap();
    }
    assert_eq!(s.system.admins.len(), 10);
    assert_eq!(s.add_admin(1, 500), Err(ErrorCode::AdminLimitReached));
    // Removal, once, by the authority only.
    assert_eq!(s.remove_admin(2, 100), Err(ErrorCode::NotAuthorized));
    s.remove_admin(1, 100).unwrap();
    assert_eq!(s.system.admins.len(), 9);
    assert_eq!(s.remove_admin(1, 100), Err(ErrorCode::AdminNotFound));
}

#[test]
fn spam_flag_needs_authority_who_is_admin() {
    let mut s = DlmsState::initialize_system(1, 7);
    s.register_user(20, "a".to_string(), "u".to_string(), UserRole::Labour, 0)
        .unwrap();
    // The system authority alone is not enough: it must be on the admin list.
    assert_eq!(
        s.mark_user_as_spam(1, 20, true),
        Err(ErrorCode::NotAuthorized)
    );
    s.add_admin(1, 1).unwrap();
    s.mark_user_as_spam(1, 20, true).unwrap();
    assert!(s.users[0].spam);
    s.mark_user_as_spam(1, 20, false).unwrap();
    assert!(!s.users[0].spam);
    // Someone who is not the system authority is rejected outright.
    assert_eq!(
        s.mark_user_as_spam(2, 20, true),
        Err(ErrorCode::NotAuthorized)
    );
    // A missing subject is reported.
    assert_eq!(s.mark_user_as_spam(1, 99, true), Err(ErrorCode::RecordNotFound));
}

#[test]
fn verify_user_needs_admin() {
    let mut s = DlmsState::initialize_system(1, 7);
    s.register_user(20, "a".to_string(), "u".to_string(), UserRole::Labour, 0)
        .unwrap();
    s.add_admin(1, 50).unwrap();
    assert_eq!(s.verify_user(60, 20), Err(ErrorCode::NotAuthorized));
    s.verify_user(50, 20).unwrap();
    assert!(s.users[0].verified);
    assert_eq!(s.verify_user(50, 99), Err(ErrorCode::RecordNotFound));
}

#[test]
fn rating_averages_and_is_one_per_pair() {
    let mut s = DlmsState::initialize_system(1, 7);
    s.register_user(20, "a".to_string(), "u".to_string(), UserRole::Labour, 0)
        .unwrap();
    assert_eq!(
        s.rate_user(30, 20, 0, "bad".to_string(), 1),
        Err(ErrorCode::InvalidRating)
    );
    assert_eq!(
        s.rate_user(30, 20, 6, "too nice".to_string(), 1),
        Err(ErrorCode::InvalidRating)
    );
    s.rate_user(30, 20, 4, "good".to_string(), 1).unwrap();
    assert_eq!(s.users[0].rating, 4);
    assert_eq!(s.users[0].rating_count, 1);
    // Only one rating per pair of identities.
    assert_eq!(
        s.rate_user(30, 20, 5, "again".to_string(), 2),
        Err(ErrorCode::DuplicateRecord)
    );
    // A second rating folds in: (4 + 2) / 2 = 3.
    s.rate_user(31, 20, 2, "meh".to_string(), 3).unwrap();
    assert_eq!(s.users[0].rating, 3);
    assert_eq!(s.users[0].rating_count, 2);
    assert_eq!(s.reviews.len(), 2);
    assert_eq!(s.reviews[0].review_type, ReviewType::LabourReview);
    assert_eq!(s.reviews[0].reviewer, 30);
    assert_eq!(s.reviews[0].reviewee, 20);
    // Rating an unknown identity is reported.
    assert_eq!(
        s.rate_user(30, 99, 3, "x".to_string(), 4),
        Err(ErrorCode::RecordNotFound)
    );
}

#[test]
fn minting_grows_supply_and_checks_overflow() {
    let mut s = DlmsState::initialize_system(1, 7);
    s.mint_token(40, 500).unwrap();
    s.mint_token(41, 250).unwrap();
    assert_eq!(s.ledger.supply, 750);
    assert_eq!(s.ledger.balance(TokenHolder::User(40)), 500);
    assert_eq!(s.ledger.balance(TokenHolder::User(41)), 250);
    // Minting past the value domain fails and changes nothing.
    assert_eq!(s.mint_token(40, u64::MAX), Err(ErrorCode::CalculationError));
    assert_eq!(s.ledger.supply, 750);
    assert_eq!(s.ledger.balance(TokenHolder::User(40)), 500);
}
