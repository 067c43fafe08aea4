use license_service::db::DbRepo;
use license_service::models::errors::MyError;
use license_service::models::license::{License, LifecycleState, GRACE_SECONDS, SECONDS_IN_DAY};
use license_service::store::{DeleteResult, UpdateResult};

const NOW: i64 = 1_700_000_000;

fn key(text: &str) -> String {
    text.to_string()
}

fn repo_with(keys: &[&str]) -> DbRepo {
    let mut repo = DbRepo::new();
    for k in keys {
        let created = repo.create_license(License::new(key(k), key("wallet-1")));
        assert!(created.is_ok());
    }
    repo
}

fn expiration_of(repo: &DbRepo, k: &str) -> Option<i64> {
    repo.get_license(key(k)).unwrap().expiration
}

#[test]
fn full_lifecycle_of_one_license() {
    let mut repo = DbRepo::new();
    let created = repo.create_license(License::new(key("ABC123"), key("wallet-1")));
    assert_eq!(
        created,
        Ok(License {
            license: key("ABC123"),
            wallet: key("wallet-1"),
            activated: false,
            expiration: None
        })
    );

    let activated = repo.activate_license_at(key("ABC123"), 30, NOW);
    assert_eq!(activated, Ok(UpdateResult { matched_count: 1, modified_count: 1 }));
    let record = repo.get_license(key("ABC123")).unwrap();
    assert!(record.activated);
    assert_eq!(record.expiration, Some(NOW + 2_592_000));

    let renewed = repo.renew_license_at(key("ABC123"), 10, NOW + 5);
    assert_eq!(renewed, Ok(UpdateResult { matched_count: 1, modified_count: 1 }));
    assert_eq!(expiration_of(&repo, "ABC123"), Some(NOW + 2_592_000 + 864_000));

    assert_eq!(repo.delete_license(key("ABC123")), Ok(DeleteResult { deleted_count: 1 }));
    assert_eq!(repo.get_license(key("ABC123")), Err(MyError::LicenseNotFound));
    assert_eq!(repo.len(), 0);
}

#[test]
fn new_license_is_unactivated_without_expiration() {
    let record = License::new(key("K"), key("W"));
    assert_eq!(record.license, "K");
    assert_eq!(record.wallet, "W");
    assert!(!record.activated);
    assert_eq!(record.expiration, None);
    assert!(record.is_consistent());
}

#[test]
fn second_activation_is_refused_and_keeps_expiration() {
    let mut repo = repo_with(&["A"]);
    assert!(repo.activate_license_at(key("A"), 7, NOW).is_ok());
    let first = expiration_of(&repo, "A");
    assert_eq!(first, Some(NOW + 7 * 86_400));
    let again = repo.activate_license_at(key("A"), 90, NOW + 1_000);
    assert_eq!(again, Err(MyError::LicenseAlreadyActive));
    assert_eq!(expiration_of(&repo, "A"), first);
}

#[test]
fn activation_with_zero_days_is_invalid_and_writes_nothing() {
    let mut repo = repo_with(&["A"]);
    let before = repo.get_license(key("A")).unwrap();
    assert_eq!(repo.activate_license_at(key("A"), 0, NOW), Err(MyError::InvalidDuration));
    assert_eq!(repo.get_license(key("A")).unwrap(), before);
    assert_eq!(repo.len(), 1);
}

#[test]
fn activation_with_negative_days_is_invalid_and_writes_nothing() {
    let mut repo = repo_with(&["A"]);
    let before = repo.get_license(key("A")).unwrap();
    assert_eq!(repo.activate_license_at(key("A"), -5, NOW), Err(MyError::InvalidDuration));
    assert_eq!(repo.activate_license_at(key("A"), i64::MIN, NOW), Err(MyError::InvalidDuration));
    assert_eq!(repo.get_license(key("A")).unwrap(), before);
}

#[test]
fn invalid_duration_is_judged_before_the_key() {
    let mut repo = repo_with(&["A"]);
    assert_eq!(repo.activate_license_at(key("missing"), 0, NOW), Err(MyError::InvalidDuration));
    assert_eq!(repo.activate_license_at(key("missing"), 1, NOW), Err(MyError::LicenseNotFound));
}

#[test]
fn invalid_duration_is_judged_before_the_state() {
    let mut repo = repo_with(&["A"]);
    assert!(repo.activate_license_at(key("A"), 1, NOW).is_ok());
    assert_eq!(repo.activate_license_at(key("A"), -1, NOW), Err(MyError::InvalidDuration));
}

#[test]
fn activation_of_unknown_key_is_not_found() {
    let mut repo = repo_with(&["A"]);
    assert_eq!(repo.activate_license_at(key("B"), 30, NOW), Err(MyError::LicenseNotFound));
    assert_eq!(expiration_of(&repo, "A"), None);
}

#[test]
fn activation_counts_days_from_now() {
    let mut repo = repo_with(&["A", "B"]);
    assert!(repo.activate_license_at(key("A"), 1, 0).is_ok());
    assert_eq!(expiration_of(&repo, "A"), Some(86_400));
    assert!(repo.activate_license_at(key("B"), 365, -1_000).is_ok());
    assert_eq!(expiration_of(&repo, "B"), Some(365 * 86_400 - 1_000));
}

#[test]
fn activation_touches_only_its_own_record() {
    let mut repo = repo_with(&["A", "B", "C"]);
    assert!(repo.activate_license_at(key("B"), 2, NOW).is_ok());
    assert_eq!(repo.get_license(key("A")).unwrap(), License::new(key("A"), key("wallet-1")));
    assert_eq!(repo.get_license(key("C")).unwrap(), License::new(key("C"), key("wallet-1")));
    assert!(repo.get_license(key("B")).unwrap().activated);
    assert_eq!(repo.len(), 3);
}

#[test]
fn renewal_extends_from_the_prior_expiration() {
    let mut early = repo_with(&["A"]);
    let mut late = repo_with(&["A"]);
    assert!(early.activate_license_at(key("A"), 30, NOW).is_ok());
    assert!(late.activate_license_at(key("A"), 30, NOW).is_ok());
    let expiration = NOW + 30 * SECONDS_IN_DAY;

    assert!(early.renew_license_at(key("A"), 10, NOW + 1).is_ok());
    assert!(late.renew_license_at(key("A"), 10, expiration + GRACE_SECONDS).is_ok());

    assert_eq!(expiration_of(&early, "A"), Some(expiration + 864_000));
    assert_eq!(expiration_of(&late, "A"), Some(expiration + 864_000));
}

#[test]
fn renewal_one_second_past_the_grace_window_is_expired() {
    let mut repo = repo_with(&["A"]);
    assert!(repo.activate_license_at(key("A"), 1, NOW).is_ok());
    let expiration = NOW + 86_400;
    let renewed = repo.renew_license_at(key("A"), 10, expiration + 259_200 + 1);
    assert_eq!(renewed, Err(MyError::LicenseExpired));
    assert_eq!(expiration_of(&repo, "A"), Some(expiration));
}

#[test]
fn renewal_exactly_on_the_grace_boundary_succeeds() {
    let mut repo = repo_with(&["A"]);
    assert!(repo.activate_license_at(key("A"), 1, NOW).is_ok());
    let expiration = NOW + 86_400;
    let renewed = repo.renew_license_at(key("A"), 10, expiration + 259_200);
    assert_eq!(renewed, Ok(UpdateResult { matched_count: 1, modified_count: 1 }));
    assert_eq!(expiration_of(&repo, "A"), Some(expiration + 864_000));
}

#[test]
fn renewal_of_unactivated_license_is_refused() {
    let mut repo = repo_with(&["A"]);
    assert_eq!(repo.renew_license_at(key("A"), 10, NOW), Err(MyError::LicenseNotActivated));
    assert_eq!(repo.get_license(key("A")).unwrap(), License::new(key("A"), key("wallet-1")));
}

#[test]
fn renewal_of_activated_record_without_expiration_is_refused() {
    let mut repo = DbRepo::new();
    let odd = License { license: key("A"), wallet: key("W"), activated: true, expiration: None };
    assert!(repo.create_license(odd).is_ok());
    assert_eq!(repo.renew_license_at(key("A"), 10, NOW), Err(MyError::LicenseNotActivated));
}

#[test]
fn renewal_of_unknown_key_is_not_found() {
    let mut repo = repo_with(&["A"]);
    assert_eq!(repo.renew_license_at(key("B"), 10, NOW), Err(MyError::LicenseNotFound));
}

#[test]
fn renewal_by_zero_days_matches_and_modifies_nothing() {
    let mut repo = repo_with(&["A"]);
    assert!(repo.activate_license_at(key("A"), 1, NOW).is_ok());
    let renewed = repo.renew_license_at(key("A"), 0, NOW);
    assert_eq!(renewed, Ok(UpdateResult { matched_count: 1, modified_count: 0 }));
    assert_eq!(expiration_of(&repo, "A"), Some(NOW + 86_400));
}

#[test]
fn renewal_by_negative_days_moves_the_expiration_back() {
    let mut repo = repo_with(&["A"]);
    assert!(repo.activate_license_at(key("A"), 10, NOW).is_ok());
    let renewed = repo.renew_license_at(key("A"), -3, NOW);
    assert_eq!(renewed, Ok(UpdateResult { matched_count: 1, modified_count: 1 }));
    assert_eq!(expiration_of(&repo, "A"), Some(NOW + 7 * 86_400));
}

#[test]
fn renewals_add_up() {
    let mut repo = repo_with(&["A"]);
    assert!(repo.activate_license_at(key("A"), 1, NOW).is_ok());
    assert!(repo.renew_license_at(key("A"), 2, NOW).is_ok());
    assert!(repo.renew_license_at(key("A"), 3, NOW).is_ok());
    assert_eq!(expiration_of(&repo, "A"), Some(NOW + 6 * 86_400));
}

#[test]
fn delete_of_unknown_key_does_not_exist() {
    let mut repo = repo_with(&["A"]);
    assert_eq!(repo.delete_license(key("B")), Err(MyError::LicenseDoesNotExist));
    assert_eq!(repo.len(), 1);
    assert!(repo.get_license(key("A")).is_ok());
}

#[test]
fn delete_on_empty_collection_does_not_exist() {
    let mut repo = DbRepo::new();
    assert_eq!(repo.delete_license(key("A")), Err(MyError::LicenseDoesNotExist));
}

#[test]
fn delete_removes_exactly_one_record() {
    let mut repo = repo_with(&["A", "B", "C"]);
    assert_eq!(repo.delete_license(key("B")), Ok(DeleteResult { deleted_count: 1 }));
    assert_eq!(repo.len(), 2);
    assert_eq!(repo.get_license(key("B")), Err(MyError::LicenseNotFound));
    assert!(repo.get_license(key("A")).is_ok());
    assert!(repo.get_license(key("C")).is_ok());
    assert_eq!(repo.delete_license(key("B")), Err(MyError::LicenseDoesNotExist));
}

#[test]
fn deleted_key_can_be_created_again() {
    let mut repo = repo_with(&["A"]);
    assert!(repo.activate_license_at(key("A"), 1, NOW).is_ok());
    assert!(repo.delete_license(key("A")).is_ok());
    assert!(repo.create_license(License::new(key("A"), key("wallet-2"))).is_ok());
    let record = repo.get_license(key("A")).unwrap();
    assert!(!record.activated);
    assert_eq!(record.wallet, "wallet-2");
}

#[test]
fn duplicate_creation_is_a_database_error() {
    let mut repo = repo_with(&["A"]);
    assert!(repo.activate_license_at(key("A"), 1, NOW).is_ok());
    let before = repo.get_license(key("A")).unwrap();
    let again = repo.create_license(License::new(key("A"), key("other")));
    assert_eq!(again, Err(MyError::DatabaseError));
    assert_eq!(repo.len(), 1);
    assert_eq!(repo.get_license(key("A")).unwrap(), before);
}

#[test]
fn activation_beyond_the_range_is_still_refused_for_other_reasons() {
    let mut repo = repo_with(&["A"]);
    assert!(repo.activate_license_at(key("A"), 1, NOW).is_ok());
    assert_eq!(
        repo.activate_license_at(key("A"), i64::MAX, i64::MAX),
        Err(MyError::LicenseAlreadyActive)
    );
    assert_eq!(
        repo.activate_license_at(key("missing"), i64::MAX, i64::MAX),
        Err(MyError::LicenseNotFound)
    );
}

#[test]
fn get_of_unknown_key_is_not_found() {
    let repo = DbRepo::new();
    assert_eq!(repo.get_license(key("A")), Err(MyError::LicenseNotFound));
}

#[test]
fn keys_are_compared_exactly() {
    let repo = repo_with(&["ABC"]);
    assert_eq!(repo.get_license(key("abc")), Err(MyError::LicenseNotFound));
    assert_eq!(repo.get_license(key("ABC ")), Err(MyError::LicenseNotFound));
    assert_eq!(repo.get_license(key("")), Err(MyError::LicenseNotFound));
    assert!(repo.get_license(key("ABC")).is_ok());
}

#[test]
fn listing_returns_the_owner_records_in_order() {
    let mut repo = DbRepo::new();
    assert!(repo.create_license(License::new(key("A"), key("alice"))).is_ok());
    assert!(repo.create_license(License::new(key("B"), key("bob"))).is_ok());
    assert!(repo.create_license(License::new(key("C"), key("alice"))).is_ok());
    assert!(repo.activate_license_at(key("C"), 1, NOW).is_ok());
    let listed = repo.get_licenses_by_user(key("alice")).unwrap();
    assert_eq!(listed.len(), 2);
    assert_eq!(listed[0], License::new(key("A"), key("alice")));
    assert_eq!(listed[1].license, "C");
    assert_eq!(listed[1].expiration, Some(NOW + 86_400));
}

#[test]
fn listing_of_unknown_owner_is_empty() {
    let repo = repo_with(&["A"]);
    assert_eq!(repo.get_licenses_by_user(key("nobody")), Ok(Vec::new()));
    assert_eq!(DbRepo::new().get_licenses_by_user(key("wallet-1")), Ok(Vec::new()));
}

#[test]
fn invariant_holds_after_a_sequence_of_operations() {
    let mut repo = repo_with(&["A", "B", "C", "D"]);
    assert!(repo.activate_license_at(key("A"), 30, NOW).is_ok());
    assert!(repo.activate_license_at(key("A"), 30, NOW).is_err());
    assert!(repo.activate_license_at(key("B"), 0, NOW).is_err());
    assert!(repo.renew_license_at(key("A"), 5, NOW + 10).is_ok());
    assert!(repo.renew_license_at(key("C"), 5, NOW + 10).is_err());
    assert!(repo.delete_license(key("D")).is_ok());
    assert!(repo.activate_license_at(key("C"), 1, NOW).is_ok());
    assert!(repo.renew_license_at(key("C"), 1, NOW + 86_400 + 259_200 + 1).is_err());
    let listed = repo.get_licenses_by_user(key("wallet-1")).unwrap();
    assert_eq!(listed.len(), 3);
    for record in &listed {
        assert!(record.is_consistent());
        if !record.activated {
            assert_eq!(record.expiration, None);
        }
    }
}

#[test]
fn lifecycle_state_follows_the_clock() {
    let fresh = License::new(key("A"), key("W"));
    assert_eq!(fresh.state_at(NOW), LifecycleState::Unactivated);
    let active =
        License { license: key("A"), wallet: key("W"), activated: true, expiration: Some(1_000) };
    assert_eq!(active.state_at(0), LifecycleState::Active);
    assert_eq!(active.state_at(1_000), LifecycleState::Active);
    assert_eq!(active.state_at(1_001), LifecycleState::Active);
    assert_eq!(active.state_at(1_000 + 259_200), LifecycleState::Active);
    assert_eq!(active.state_at(1_000 + 259_200 + 1), LifecycleState::Expired);
    assert_eq!(active.state_at(i64::MAX), LifecycleState::Expired);
}

#[test]
fn lifecycle_state_near_the_end_of_time() {
    let far = License {
        license: key("A"),
        wallet: key("W"),
        activated: true,
        expiration: Some(i64::MAX - 10),
    };
    assert_eq!(far.state_at(i64::MAX), LifecycleState::Active);
    let odd = License { license: key("A"), wallet: key("W"), activated: true, expiration: None };
    assert_eq!(odd.state_at(NOW), LifecycleState::Unactivated);
    assert!(!odd.is_consistent());
    let stale =
        License { license: key("A"), wallet: key("W"), activated: false, expiration: Some(5) };
    assert_eq!(stale.state_at(NOW), LifecycleState::Unactivated);
    assert!(!stale.is_consistent());
}

#[test]
fn clone_keeps_every_field() {
    let record =
        License { license: key("A"), wallet: key("W"), activated: true, expiration: Some(42) };
    assert_eq!(record.clone(), record);
}

#[test]
fn activation_with_the_wall_clock_counts_from_the_present() {
    let mut repo = repo_with(&["A"]);
    let activated = repo.activate_license(key("A"), 30);
    assert_eq!(activated, Ok(UpdateResult { matched_count: 1, modified_count: 1 }));
    let expiration = expiration_of(&repo, "A").unwrap();
    let read_at = expiration - 30 * 86_400;
    // Later than 2023-11-14 and inside the range the clock can hand out.
    assert!(read_at > 1_700_000_000);
    assert!(read_at <= license_service::clock::CLOCK_LIMIT);
}

#[test]
fn renewal_with_the_wall_clock_accepts_a_running_license() {
    let mut repo = repo_with(&["A", "B"]);
    assert!(repo.activate_license(key("A"), 1).is_ok());
    let before = expiration_of(&repo, "A").unwrap();
    assert_eq!(
        repo.renew_license(key("A"), 2),
        Ok(UpdateResult { matched_count: 1, modified_count: 1 })
    );
    assert_eq!(expiration_of(&repo, "A"), Some(before + 2 * 86_400));
    assert_eq!(repo.renew_license(key("B"), 2), Err(MyError::LicenseNotActivated));
}

#[test]
fn renewal_with_the_wall_clock_refuses_a_license_long_expired() {
    let mut repo = repo_with(&["A"]);
    // Expired in 1970, far outside any grace window today.
    assert!(repo.activate_license_at(key("A"), 1, 0).is_ok());
    assert_eq!(repo.renew_license(key("A"), 2), Err(MyError::LicenseExpired));
    assert_eq!(repo.activate_license(key("A"), 0), Err(MyError::InvalidDuration));
}
