use nika_treasury::hash::{combine, hash_bytes, HashPrimitive};
use nika_treasury::{
    hash_leaf, update_root, verify_proof, ClaimCoordinator, ClaimLedger, ErrorCode, LeafScheme,
    ProofVerified, Redeemed, State, TransferError, UpdateRoot, VerifyProof,
};

const K: HashPrimitive = HashPrimitive::Keccak256;
const AUTHORITY: [u8; 32] = [0xA1; 32];

fn h(text: &str) -> [u8; 32] {
    hash_bytes(K, text.as_bytes())
}

fn binary(max_proof_len: usize) -> ClaimCoordinator {
    ClaimCoordinator { scheme: LeafScheme::Binary, primitive: K, max_proof_len }
}

fn state_at(root: [u8; 32], version: u64) -> State {
    State { merkle_root: root, version, authority: AUTHORITY }
}

/// Two leaves, alice:100 and bob:50; returns the state and the two leaves.
fn two_leaf_state() -> (State, [u8; 32], [u8; 32]) {
    let l1 = h("alice:100");
    let l2 = h("bob:50");
    (state_at(combine(K, &l1, &l2), 0), l1, l2)
}

#[test]
fn alice_claims_once_and_bob_cannot_use_her_proof() {
    let coordinator = binary(32);
    let (state, _l1, l2) = two_leaf_state();
    let mut ledger = ClaimLedger::new();

    let pending = coordinator.begin_claim(&state, &mut ledger, "alice", "", 100, &[l2]);
    let pending = match pending {
        Ok(p) => p,
        Err(e) => panic!("first claim failed: {:?}", e),
    };
    assert_eq!(pending.beneficiary(), "alice");
    assert_eq!(pending.amount(), 100);
    assert_eq!(pending.version(), 0);
    assert_eq!(pending.token(), None);
    let event = ClaimCoordinator::settle_claim(&mut ledger, pending, Ok(()));
    assert_eq!(
        event,
        Ok(Redeemed { beneficiary: String::from("alice"), amount: 100, version: 0, token: None })
    );
    assert!(ledger.has_claimed(0, "alice"));

    let again = coordinator.begin_claim(&state, &mut ledger, "alice", "", 100, &[l2]);
    assert!(matches!(again, Err(ErrorCode::AlreadyClaimed)));

    let bob = coordinator.begin_claim(&state, &mut ledger, "bob", "", 50, &[l2]);
    assert!(matches!(bob, Err(ErrorCode::InvalidProof)));
    let bob = coordinator.begin_claim(&state, &mut ledger, "bob", "", 100, &[l2]);
    assert!(matches!(bob, Err(ErrorCode::InvalidProof)));
    assert!(!ledger.has_claimed(0, "bob"));
}

#[test]
fn bob_claims_with_his_own_proof_after_alice() {
    let coordinator = binary(32);
    let (state, l1, l2) = two_leaf_state();
    let mut ledger = ClaimLedger::new();
    let a = coordinator.begin_claim(&state, &mut ledger, "alice", "", 100, &[l2]);
    assert!(a.is_ok());
    let b = coordinator.begin_claim(&state, &mut ledger, "bob", "", 50, &[l1]);
    match b {
        Ok(p) => {
            assert_eq!(p.beneficiary(), "bob");
            assert_eq!(p.amount(), 50);
        }
        Err(e) => panic!("bob was refused: {:?}", e),
    }
    assert!(ledger.has_claimed(0, "alice"));
    assert!(ledger.has_claimed(0, "bob"));
}

#[test]
fn a_wrong_amount_is_an_invalid_proof_and_marks_nothing() {
    let coordinator = binary(32);
    let (state, _l1, l2) = two_leaf_state();
    let mut ledger = ClaimLedger::new();
    let r = coordinator.begin_claim(&state, &mut ledger, "alice", "", 101, &[l2]);
    assert!(matches!(r, Err(ErrorCode::InvalidProof)));
    assert!(!ledger.has_claimed(0, "alice"));
    // the right claim still goes through afterwards
    let r = coordinator.begin_claim(&state, &mut ledger, "alice", "", 100, &[l2]);
    assert!(r.is_ok());
}

#[test]
fn a_second_claim_with_a_bad_proof_is_an_invalid_proof() {
    let coordinator = binary(32);
    let (state, l1, l2) = two_leaf_state();
    let mut ledger = ClaimLedger::new();
    assert!(coordinator.begin_claim(&state, &mut ledger, "alice", "", 100, &[l2]).is_ok());
    // the proof is looked at before the ledger
    let r = coordinator.begin_claim(&state, &mut ledger, "alice", "", 100, &[l1]);
    assert!(matches!(r, Err(ErrorCode::InvalidProof)));
    assert!(ledger.has_claimed(0, "alice"));
}

#[test]
fn a_failed_transfer_rolls_the_claim_back_and_it_can_be_retried() {
    let coordinator = binary(32);
    let (state, _l1, l2) = two_leaf_state();
    let mut ledger = ClaimLedger::new();

    let pending = coordinator.begin_claim(&state, &mut ledger, "alice", "", 100, &[l2]);
    let pending = match pending {
        Ok(p) => p,
        Err(e) => panic!("claim failed: {:?}", e),
    };
    assert!(ledger.has_claimed(0, "alice"));
    let r = ClaimCoordinator::settle_claim(
        &mut ledger,
        pending,
        Err(TransferError::InsufficientFunds),
    );
    assert_eq!(r, Err(ErrorCode::TransferFailed(TransferError::InsufficientFunds)));
    assert!(!ledger.has_claimed(0, "alice"));

    let retry = coordinator.begin_claim(&state, &mut ledger, "alice", "", 100, &[l2]);
    let retry = match retry {
        Ok(p) => p,
        Err(e) => panic!("retry failed: {:?}", e),
    };
    let r = ClaimCoordinator::settle_claim(&mut ledger, retry, Err(TransferError::TransferDenied));
    assert_eq!(r, Err(ErrorCode::TransferFailed(TransferError::TransferDenied)));
    assert!(!ledger.has_claimed(0, "alice"));

    let last = coordinator.begin_claim(&state, &mut ledger, "alice", "", 100, &[l2]);
    let last = match last {
        Ok(p) => p,
        Err(e) => panic!("last try failed: {:?}", e),
    };
    assert!(ClaimCoordinator::settle_claim(&mut ledger, last, Ok(())).is_ok());
    assert!(ledger.has_claimed(0, "alice"));
}

#[test]
fn a_failed_transfer_leaves_other_claims_alone() {
    let coordinator = binary(32);
    let (state, l1, l2) = two_leaf_state();
    let mut ledger = ClaimLedger::new();
    let bob = coordinator.begin_claim(&state, &mut ledger, "bob", "", 50, &[l1]);
    assert!(bob.is_ok());
    let alice = coordinator.begin_claim(&state, &mut ledger, "alice", "", 100, &[l2]);
    let alice = match alice {
        Ok(p) => p,
        Err(e) => panic!("claim failed: {:?}", e),
    };
    let r = ClaimCoordinator::settle_claim(&mut ledger, alice, Err(TransferError::TransferDenied));
    assert!(r.is_err());
    assert!(ledger.has_claimed(0, "bob"));
    assert!(!ledger.has_claimed(0, "alice"));
}

#[test]
fn a_proof_over_the_depth_bound_is_too_long() {
    let coordinator = binary(1);
    let l = h("alice:100");
    let sib_a = h("x");
    let sib_b = h("y");
    let root = combine(K, &combine(K, &l, &sib_a), &sib_b);
    let state = state_at(root, 0);
    let mut ledger = ClaimLedger::new();
    // the proof is valid, but it is not even looked at
    let r = coordinator.begin_claim(&state, &mut ledger, "alice", "", 100, &[sib_a, sib_b]);
    assert!(matches!(r, Err(ErrorCode::ProofTooLong)));
    assert!(!ledger.has_claimed(0, "alice"));
    assert_eq!(
        coordinator.verify(&state, "alice", "", 100, &[sib_a, sib_b]),
        Err(ErrorCode::ProofTooLong)
    );
    // at the bound it is read
    let at_bound = binary(2);
    assert!(at_bound.begin_claim(&state, &mut ledger, "alice", "", 100, &[sib_a, sib_b]).is_ok());
    // a bound of zero admits the empty proof only
    let none = binary(0);
    let single = state_at(l, 0);
    let mut other = ClaimLedger::new();
    assert!(none.begin_claim(&single, &mut other, "alice", "", 100, &[]).is_ok());
    assert!(matches!(
        none.begin_claim(&single, &mut other, "alice", "", 100, &[sib_a]),
        Err(ErrorCode::ProofTooLong)
    ));
}

#[test]
fn a_long_invalid_proof_is_too_long_not_invalid() {
    let coordinator = binary(1);
    let (state, _l1, l2) = two_leaf_state();
    let mut ledger = ClaimLedger::new();
    let r = coordinator.begin_claim(&state, &mut ledger, "alice", "", 100, &[l2, l2]);
    assert!(matches!(r, Err(ErrorCode::ProofTooLong)));
}

#[test]
fn verify_reports_and_changes_nothing() {
    let coordinator = binary(32);
    let (state, _l1, l2) = two_leaf_state();
    let ledger = ClaimLedger::new();
    let yes = coordinator.verify(&state, "alice", "", 100, &[l2]);
    assert_eq!(
        yes,
        Ok(ProofVerified {
            user_id: String::from("alice"),
            token: String::from(""),
            amount_str: String::from("100"),
            valid: true,
        })
    );
    let no = coordinator.verify(&state, "bob", "", 100, &[l2]);
    assert_eq!(
        no,
        Ok(ProofVerified {
            user_id: String::from("bob"),
            token: String::from(""),
            amount_str: String::from("100"),
            valid: false,
        })
    );
    assert!(!ledger.has_claimed(0, "alice"));
    // verifying does not use the entitlement up
    let mut ledger = ledger;
    assert!(coordinator.begin_claim(&state, &mut ledger, "alice", "", 100, &[l2]).is_ok());
    let still = coordinator.verify(&state, "alice", "", 100, &[l2]);
    assert!(matches!(still, Ok(ProofVerified { valid: true, .. })));
}

#[test]
fn verify_proof_checks_the_three_field_keccak_leaf() {
    let l1 = hash_leaf("alice", "USDC", "1.50000000");
    let l2 = hash_leaf("bob", "SOL", "0.25000000");
    let accounts = VerifyProof { state: state_at(combine(K, &l1, &l2), 4) };
    let r = verify_proof(
        &accounts,
        String::from("alice"),
        String::from("USDC"),
        String::from("1.50000000"),
        vec![l2],
    );
    assert_eq!(
        r,
        Ok(ProofVerified {
            user_id: String::from("alice"),
            token: String::from("USDC"),
            amount_str: String::from("1.50000000"),
            valid: true,
        })
    );
    let r = verify_proof(
        &accounts,
        String::from("alice"),
        String::from("USDC"),
        String::from("1.5"),
        vec![l2],
    );
    assert_eq!(
        r,
        Ok(ProofVerified {
            user_id: String::from("alice"),
            token: String::from("USDC"),
            amount_str: String::from("1.5"),
            valid: false,
        })
    );
    let r = verify_proof(
        &accounts,
        String::from("alice"),
        String::from("USDC"),
        String::from("1.50000000"),
        vec![],
    );
    assert!(matches!(r, Ok(ProofVerified { valid: false, .. })));
}

#[test]
fn multi_asset_claims_carry_the_token() {
    let coordinator =
        ClaimCoordinator { scheme: LeafScheme::MultiAsset, primitive: K, max_proof_len: 8 };
    let l1 = hash_leaf("alice", "USDC", "1.50000000");
    let l2 = hash_leaf("bob", "SOL", "0.25000000");
    let state = state_at(combine(K, &l1, &l2), 2);
    let mut ledger = ClaimLedger::new();
    assert_eq!(coordinator.leaf("alice", "USDC", 150_000_000), l1);

    let wrong_token = coordinator.begin_claim(&state, &mut ledger, "alice", "SOL", 150_000_000, &[l2]);
    assert!(matches!(wrong_token, Err(ErrorCode::InvalidProof)));

    let pending = coordinator.begin_claim(&state, &mut ledger, "alice", "USDC", 150_000_000, &[l2]);
    let pending = match pending {
        Ok(p) => p,
        Err(e) => panic!("claim failed: {:?}", e),
    };
    assert_eq!(pending.token(), Some("USDC"));
    assert_eq!(pending.version(), 2);
    let event = ClaimCoordinator::settle_claim(&mut ledger, pending, Ok(()));
    assert_eq!(
        event,
        Ok(Redeemed {
            beneficiary: String::from("alice"),
            amount: 150_000_000,
            version: 2,
            token: Some(String::from("USDC")),
        })
    );
    let v = coordinator.verify(&state, "bob", "SOL", 25_000_000, &[l1]);
    assert_eq!(
        v,
        Ok(ProofVerified {
            user_id: String::from("bob"),
            token: String::from("SOL"),
            amount_str: String::from("0.25000000"),
            valid: true,
        })
    );
}

#[test]
fn a_new_version_lets_the_beneficiary_claim_again() {
    let coordinator = binary(32);
    let (state, l1, l2) = two_leaf_state();
    let mut ledger = ClaimLedger::new();
    assert!(coordinator.begin_claim(&state, &mut ledger, "alice", "", 100, &[l2]).is_ok());

    let l3 = h("carol:75");
    let mut accounts = UpdateRoot { state, authority: AUTHORITY };
    assert_eq!(update_root(&mut accounts, combine(K, &l1, &l3)), Ok(()));
    let state = accounts.state;
    assert_eq!(state.version, 1);

    // the old proof is for the old tree
    let stale = coordinator.begin_claim(&state, &mut ledger, "alice", "", 100, &[l2]);
    assert!(matches!(stale, Err(ErrorCode::InvalidProof)));
    let fresh = coordinator.begin_claim(&state, &mut ledger, "alice", "", 100, &[l3]);
    assert!(fresh.is_ok());
    assert!(ledger.has_claimed(0, "alice"));
    assert!(ledger.has_claimed(1, "alice"));
    let again = coordinator.begin_claim(&state, &mut ledger, "alice", "", 100, &[l3]);
    assert!(matches!(again, Err(ErrorCode::AlreadyClaimed)));
}

#[test]
fn the_same_root_under_a_new_version_can_be_claimed_again() {
    let coordinator = binary(32);
    let (state, _l1, l2) = two_leaf_state();
    let mut ledger = ClaimLedger::new();
    assert!(coordinator.begin_claim(&state, &mut ledger, "alice", "", 100, &[l2]).is_ok());
    let mut accounts = UpdateRoot { state, authority: AUTHORITY };
    assert_eq!(update_root(&mut accounts, state.merkle_root), Ok(()));
    let r = coordinator.begin_claim(&accounts.state, &mut ledger, "alice", "", 100, &[l2]);
    assert!(r.is_ok());
}

#[test]
fn a_deployment_on_sha256_rejects_a_keccak_tree() {
    let sha = ClaimCoordinator {
        scheme: LeafScheme::Binary,
        primitive: HashPrimitive::Sha256,
        max_proof_len: 32,
    };
    let (state, _l1, l2) = two_leaf_state();
    let mut ledger = ClaimLedger::new();
    let r = sha.begin_claim(&state, &mut ledger, "alice", "", 100, &[l2]);
    assert!(matches!(r, Err(ErrorCode::InvalidProof)));

    let s = HashPrimitive::Sha256;
    let a = hash_bytes(s, b"alice:100");
    let b = hash_bytes(s, b"bob:50");
    let own = state_at(combine(s, &a, &b), 0);
    assert!(sha.begin_claim(&own, &mut ledger, "alice", "", 100, &[b]).is_ok());
}

#[test]
fn transfer_failures_have_their_own_messages() {
    assert_eq!(
        ErrorCode::TransferFailed(TransferError::InsufficientFunds).message(),
        "TransferFailed: InsufficientFunds"
    );
    assert_eq!(
        ErrorCode::TransferFailed(TransferError::TransferDenied).message(),
        "TransferFailed: TransferDenied"
    );
}

#[test]
fn record_claim_decides_on_the_outcome_of_verification() {
    let coordinator = binary(32);
    let mut ledger = ClaimLedger::new();
    let unverified = coordinator.record_claim(7, &mut ledger, "alice", "", 100, false);
    assert!(matches!(unverified, Err(ErrorCode::InvalidProof)));
    assert!(!ledger.has_claimed(7, "alice"));

    let accepted = coordinator.record_claim(7, &mut ledger, "alice", "", 100, true);
    match accepted {
        Ok(pending) => {
            assert_eq!(pending.beneficiary(), "alice");
            assert_eq!(pending.amount(), 100);
            assert_eq!(pending.version(), 7);
            assert_eq!(pending.token(), None);
        }
        Err(e) => panic!("refused: {:?}", e),
    }
    assert!(ledger.has_claimed(7, "alice"));

    let repeated = coordinator.record_claim(7, &mut ledger, "alice", "", 100, true);
    assert!(matches!(repeated, Err(ErrorCode::AlreadyClaimed)));
    // an unverified repeat is invalid before it is a repeat
    let both = coordinator.record_claim(7, &mut ledger, "alice", "", 100, false);
    assert!(matches!(both, Err(ErrorCode::InvalidProof)));
    assert!(ledger.has_claimed(7, "alice"));
}
