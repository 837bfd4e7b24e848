use nika_treasury::{ClaimLedger, ErrorCode};

#[test]
fn a_new_ledger_holds_no_claim() {
    let ledger = ClaimLedger::new();
    assert!(!ledger.has_claimed(0, "alice"));
    assert!(!ledger.has_claimed(0, ""));
    assert!(!ledger.has_claimed(u64::MAX, "alice"));
}

#[test]
fn mark_claimed_records_the_pair_once() {
    let mut ledger = ClaimLedger::new();
    assert_eq!(ledger.mark_claimed(3, "alice"), Ok(()));
    assert!(ledger.has_claimed(3, "alice"));
    assert_eq!(ledger.mark_claimed(3, "alice"), Err(ErrorCode::AlreadyClaimed));
    assert!(ledger.has_claimed(3, "alice"));
}

#[test]
fn claims_are_kept_apart_by_version_and_by_beneficiary() {
    let mut ledger = ClaimLedger::new();
    assert_eq!(ledger.mark_claimed(3, "alice"), Ok(()));
    assert!(!ledger.has_claimed(4, "alice"));
    assert!(!ledger.has_claimed(2, "alice"));
    assert!(!ledger.has_claimed(3, "bob"));
    assert!(!ledger.has_claimed(3, "Alice"));
    assert!(!ledger.has_claimed(3, "alice "));
    assert_eq!(ledger.mark_claimed(4, "alice"), Ok(()));
    assert_eq!(ledger.mark_claimed(3, "bob"), Ok(()));
    assert!(ledger.has_claimed(3, "alice"));
    assert!(ledger.has_claimed(4, "alice"));
    assert!(ledger.has_claimed(3, "bob"));
}

#[test]
fn digits_and_colons_in_a_name_do_not_mix_up_pairs() {
    let mut ledger = ClaimLedger::new();
    assert_eq!(ledger.mark_claimed(1, "2:x"), Ok(()));
    assert!(!ledger.has_claimed(12, "x"));
    assert!(!ledger.has_claimed(1, "2"));
    assert!(!ledger.has_claimed(12, ":x"));
    assert_eq!(ledger.mark_claimed(12, "x"), Ok(()));
    assert_eq!(ledger.mark_claimed(1, "1:a"), Ok(()));
    assert!(!ledger.has_claimed(11, "a"));
    assert_eq!(ledger.mark_claimed(0, ""), Ok(()));
    assert!(!ledger.has_claimed(0, "0"));
    assert_eq!(ledger.mark_claimed(0, ""), Err(ErrorCode::AlreadyClaimed));
}

#[test]
fn entries_of_old_versions_stay_in_the_ledger() {
    let mut ledger = ClaimLedger::new();
    for version in 0..50u64 {
        assert_eq!(ledger.mark_claimed(version, "alice"), Ok(()));
    }
    for version in 0..50u64 {
        assert!(ledger.has_claimed(version, "alice"));
        assert_eq!(ledger.mark_claimed(version, "alice"), Err(ErrorCode::AlreadyClaimed));
    }
    assert!(!ledger.has_claimed(50, "alice"));
}
