//! Claim coordinator: read-only verification, and redemption in two steps
//! around the value transfer.
//!
//! The transfer itself is done by the caller. `begin_claim` checks the
//! entitlement, records it and says what to transfer; `settle_claim` takes
//! the outcome of the transfer and, if it failed, takes the record back.

use vstd::prelude::*;
use vstd::string::*;
use vstd::utf8::*;
use crate::error::{ErrorCode, TransferError};
use crate::hash::{hash_collision, HashPrimitive};
use crate::leaf::{
    amount_text, format_amount, hash_leaf, leaf, multi_asset_text, spec_hash_text, spec_leaf,
    LeafScheme,
};
use crate::ledger::ClaimLedger;
use crate::merkle::{folds_collide, lemma_tampered_leaf_rejected, spec_verify, verify_merkle_proof};
use crate::registry::State;

verus! {

/// What `verify_proof` reads.
pub struct VerifyProof {
    pub state: State,
}

/// Reports one verification: what was checked and how it came out.
#[derive(Clone, Debug, PartialEq, Eq)]
pub struct ProofVerified {
    pub user_id: String,
    pub token: String,
    pub amount_str: String,
    pub valid: bool,
}

/// A verification report, as contracts speak of it.
pub struct Verification {
    pub user_id: Seq<char>,
    pub token: Seq<char>,
    pub amount_str: Seq<char>,
    pub valid: bool,
}

impl View for ProofVerified {
    type V = Verification;

    open spec fn view(&self) -> Verification {
        Verification {
            user_id: self.user_id@,
            token: self.token@,
            amount_str: self.amount_str@,
            valid: self.valid,
        }
    }
}

/// An entitlement under one version, as contracts speak of it. The token is
/// there in the multi-asset scheme only.
pub struct Entitlement {
    pub beneficiary: Seq<char>,
    pub token: Option<Seq<char>>,
    pub amount: u64,
    pub version: u64,
}

/// Reports one redemption.
#[derive(Clone, Debug, PartialEq, Eq)]
pub struct Redeemed {
    pub beneficiary: String,
    pub amount: u64,
    pub version: u64,
    pub token: Option<String>,
}

impl View for Redeemed {
    type V = Entitlement;

    open spec fn view(&self) -> Entitlement {
        Entitlement {
            beneficiary: self.beneficiary@,
            token: match self.token {
                Some(t) => Some(t@),
                None => None,
            },
            amount: self.amount,
            version: self.version,
        }
    }
}

/// A redemption that is recorded and waits for its transfer: move `amount`
/// of `token` from the pool to `beneficiary`. Only `begin_claim` makes one,
/// and `settle_claim` uses it up.
pub struct PendingClaim {
    beneficiary: String,
    token: Option<String>,
    amount: u64,
    version: u64,
}

impl View for PendingClaim {
    type V = Entitlement;

    closed spec fn view(&self) -> Entitlement {
        Entitlement {
            beneficiary: self.beneficiary@,
            token: match self.token {
                Some(t) => Some(t@),
                None => None,
            },
            amount: self.amount,
            version: self.version,
        }
    }
}

impl PendingClaim {
    /// Who receives the transfer.
    pub fn beneficiary(&self) -> (s: &str)
        ensures
            s@ == self@.beneficiary,
    {
        self.beneficiary.as_str()
    }

    /// Which asset is transferred; `None` where the scheme implies one.
    pub fn token(&self) -> (t: Option<&str>)
        ensures
            match t {
                Some(s) => self@.token == Some(s@),
                None => self@.token is None,
            },
    {
        match &self.token {
            Some(t) => Some(t.as_str()),
            None => None,
        }
    }

    /// How much is transferred.
    pub fn amount(&self) -> (a: u64)
        ensures
            a == self@.amount,
    {
        self.amount
    }

    /// The version under which the redemption is recorded.
    pub fn version(&self) -> (v: u64)
        ensures
            v == self@.version,
    {
        self.version
    }
}

/// Whether the proof shows `user_id:token:amount_str` to be in the
/// Keccak-256 tree under `root`.
pub open spec fn text_entitled(
    root: [u8; 32],
    user_id: Seq<char>,
    token: Seq<char>,
    amount_str: Seq<char>,
    proof: Seq<[u8; 32]>,
) -> bool {
    spec_verify(
        HashPrimitive::Keccak256,
        proof,
        root,
        spec_hash_text(HashPrimitive::Keccak256, multi_asset_text(user_id, token, amount_str)),
    )
}

/// Checks an entitlement against the current root without changing
/// anything. The leaf is the Keccak-256 digest of
/// `user_id:token:amount_str`; the amount is taken as it is written. The
/// call always succeeds, and the event says whether the proof verified.
pub fn verify_proof(
    accounts: &VerifyProof,
    user_id: String,
    token: String,
    amount_str: String,
    proof: Vec<[u8; 32]>,
) -> (r: Result<ProofVerified, ErrorCode>)
    ensures
        r matches Ok(event) && event@ == (Verification {
            user_id: user_id@,
            token: token@,
            amount_str: amount_str@,
            valid: text_entitled(
                accounts.state.merkle_root,
                user_id@,
                token@,
                amount_str@,
                proof@,
            ),
        }),
{
    let leaf = hash_leaf(user_id.as_str(), token.as_str(), amount_str.as_str());
    let valid = verify_merkle_proof(
        HashPrimitive::Keccak256,
        proof.as_slice(),
        accounts.state.merkle_root,
        leaf,
    );
    Ok(ProofVerified { user_id, token, amount_str, valid })
}

/// The configuration of one deployment: how leaves are written, which
/// primitive hashes them, and how long a proof may be.
#[derive(Clone, Copy, Debug)]
pub struct ClaimCoordinator {
    pub scheme: LeafScheme,
    pub primitive: HashPrimitive,
    /// Proofs with more elements than this are refused unread.
    pub max_proof_len: usize,
}

impl ClaimCoordinator {
    /// The token as events and transfers name it.
    pub open spec fn token_of(self, token: Seq<char>) -> Option<Seq<char>> {
        match self.scheme {
            LeafScheme::Binary => None,
            LeafScheme::MultiAsset => Some(token),
        }
    }

    /// The entitlement that a claim under `state` is about.
    pub open spec fn entitlement(
        self,
        state: State,
        beneficiary: Seq<char>,
        token: Seq<char>,
        amount: u64,
    ) -> Entitlement {
        Entitlement { beneficiary, token: self.token_of(token), amount, version: state.version }
    }

    /// Whether the entitlement is in the tree under the state's root,
    /// according to `proof`.
    pub open spec fn entitled(
        self,
        state: State,
        beneficiary: Seq<char>,
        token: Seq<char>,
        amount: u64,
        proof: Seq<[u8; 32]>,
    ) -> bool {
        spec_verify(
            self.primitive,
            proof,
            state.merkle_root,
            spec_leaf(self.scheme, self.primitive, beneficiary, token, amount),
        )
    }

    /// The decision on a claim whose proof has been looked at: one that
    /// did not verify is invalid, one of a beneficiary who has redeemed
    /// under the version is a repeat, any other is accepted.
    pub open spec fn check_verified(
        claimed: Set<(u64, Seq<char>)>,
        version: u64,
        beneficiary: Seq<char>,
        verified: bool,
    ) -> Result<(), ErrorCode> {
        if !verified {
            Err(ErrorCode::InvalidProof)
        } else if claimed.contains((version, beneficiary)) {
            Err(ErrorCode::AlreadyClaimed)
        } else {
            Ok(())
        }
    }

    /// The decision on a claim, given who has redeemed so far. The checks
    /// come in this order: length of the proof, the proof itself, earlier
    /// redemption.
    pub open spec fn check_claim(
        self,
        state: State,
        claimed: Set<(u64, Seq<char>)>,
        beneficiary: Seq<char>,
        token: Seq<char>,
        amount: u64,
        proof: Seq<[u8; 32]>,
    ) -> Result<(), ErrorCode> {
        if proof.len() > self.max_proof_len {
            Err(ErrorCode::ProofTooLong)
        } else {
            Self::check_verified(
                claimed,
                state.version,
                beneficiary,
                self.entitled(state, beneficiary, token, amount, proof),
            )
        }
    }

    /// Who has redeemed once a claim has been decided: an accepted claim is
    /// added, a rejected one changes nothing.
    pub open spec fn claimed_after_begin(
        self,
        state: State,
        claimed: Set<(u64, Seq<char>)>,
        beneficiary: Seq<char>,
        token: Seq<char>,
        amount: u64,
        proof: Seq<[u8; 32]>,
    ) -> Set<(u64, Seq<char>)> {
        if self.check_claim(state, claimed, beneficiary, token, amount, proof) is Ok {
            claimed.insert((state.version, beneficiary))
        } else {
            claimed
        }
    }

    /// Who has redeemed once the transfer of a pending claim has come back:
    /// a transfer that failed takes the claim out again.
    pub open spec fn claimed_after_settle(
        claimed: Set<(u64, Seq<char>)>,
        pending: Entitlement,
        outcome: Result<(), TransferError>,
    ) -> Set<(u64, Seq<char>)> {
        match outcome {
            Ok(_) => claimed,
            Err(_) => claimed.remove((pending.version, pending.beneficiary)),
        }
    }

    /// The leaf digest of an entitlement in this deployment.
    pub fn leaf(&self, beneficiary: &str, token: &str, amount: u64) -> (out: [u8; 32])
        ensures
            out == spec_leaf(self.scheme, self.primitive, beneficiary@, token@, amount),
    {
        leaf(self.scheme, self.primitive, beneficiary, token, amount)
    }

    /// Checks an entitlement against the current root without changing
    /// anything. A proof over the depth bound is refused with
    /// `ProofTooLong`; otherwise the event says whether it verified.
    pub fn verify(
        &self,
        state: &State,
        beneficiary: &str,
        token: &str,
        amount: u64,
        proof: &[[u8; 32]],
    ) -> (r: Result<ProofVerified, ErrorCode>)
        ensures
            match r {
                Ok(event) => proof@.len() <= self.max_proof_len && event@ == (Verification {
                    user_id: beneficiary@,
                    token: token@,
                    amount_str: amount_text(self.scheme, amount),
                    valid: self.entitled(*state, beneficiary@, token@, amount, proof@),
                }),
                Err(e) => proof@.len() > self.max_proof_len && e == ErrorCode::ProofTooLong,
            },
    {
        if proof.len() > self.max_proof_len {
            return Err(ErrorCode::ProofTooLong);
        }
        let leaf = self.leaf(beneficiary, token, amount);
        let valid = verify_merkle_proof(self.primitive, proof, state.merkle_root, leaf);
        Ok(
            ProofVerified {
                user_id: String::from_str(beneficiary),
                token: String::from_str(token),
                amount_str: format_amount(self.scheme, amount),
                valid,
            },
        )
    }

    /// First step of a redemption. Rejects a proof that is too long, then
    /// one that does not verify, then a beneficiary who has redeemed under
    /// the current version; each with its own error and without touching
    /// the ledger. Otherwise records the redemption and returns the
    /// transfer to perform.
    pub fn begin_claim(
        &self,
        state: &State,
        ledger: &mut ClaimLedger,
        beneficiary: &str,
        token: &str,
        amount: u64,
        proof: &[[u8; 32]],
    ) -> (r: Result<PendingClaim, ErrorCode>)
        ensures
            final(ledger)@ == self.claimed_after_begin(
                *state,
                old(ledger)@,
                beneficiary@,
                token@,
                amount,
                proof@,
            ),
            match self.check_claim(*state, old(ledger)@, beneficiary@, token@, amount, proof@) {
                Ok(_) => r matches Ok(pending) && pending@ == self.entitlement(
                    *state,
                    beneficiary@,
                    token@,
                    amount,
                ),
                Err(e) => r matches Err(got) && got == e,
            },
    {
        if proof.len() > self.max_proof_len {
            return Err(ErrorCode::ProofTooLong);
        }
        let leaf = self.leaf(beneficiary, token, amount);
        let verified = verify_merkle_proof(self.primitive, proof, state.merkle_root, leaf);
        self.record_claim(state.version, ledger, beneficiary, token, amount, verified)
    }

    /// What `begin_claim` does once it knows whether the proof verified:
    /// refuses an unverified claim and a repeated one, and records any
    /// other.
    pub fn record_claim(
        &self,
        version: u64,
        ledger: &mut ClaimLedger,
        beneficiary: &str,
        token: &str,
        amount: u64,
        verified: bool,
    ) -> (r: Result<PendingClaim, ErrorCode>)
        ensures
            match Self::check_verified(old(ledger)@, version, beneficiary@, verified) {
                Ok(_) => r matches Ok(pending) && pending@ == (Entitlement {
                    beneficiary: beneficiary@,
                    token: self.token_of(token@),
                    amount,
                    version,
                }) && final(ledger)@ == old(ledger)@.insert((version, beneficiary@)),
                Err(e) => r matches Err(got) && got == e && final(ledger)@ == old(ledger)@,
            },
    {
        if !verified {
            return Err(ErrorCode::InvalidProof);
        }
        match ledger.mark_claimed(version, beneficiary) {
            Err(e) => Err(e),
            Ok(_) => {
                let token = match self.scheme {
                    LeafScheme::Binary => None,
                    LeafScheme::MultiAsset => Some(String::from_str(token)),
                };
                Ok(PendingClaim { beneficiary: String::from_str(beneficiary), token, amount, version })
            },
        }
    }

    /// Second step of a redemption, with the outcome of the transfer. After
    /// a transfer that went through, the ledger stays and the redemption is
    /// announced. After one that failed, the record is taken back, so that
    /// the claim can be made again, and the failure is handed on as it came.
    pub fn settle_claim(
        ledger: &mut ClaimLedger,
        pending: PendingClaim,
        outcome: Result<(), TransferError>,
    ) -> (r: Result<Redeemed, ErrorCode>)
        ensures
            final(ledger)@ == Self::claimed_after_settle(old(ledger)@, pending@, outcome),
            match outcome {
                Ok(_) => r matches Ok(event) && event@ == pending@,
                Err(e) => r matches Err(got) && got == ErrorCode::TransferFailed(e),
            },
    {
        match outcome {
            Ok(_) => Ok(
                Redeemed {
                    beneficiary: pending.beneficiary,
                    amount: pending.amount,
                    version: pending.version,
                    token: pending.token,
                },
            ),
            Err(e) => {
                ledger.unmark_claimed(pending.version, pending.beneficiary.as_str());
                Err(ErrorCode::TransferFailed(e))
            },
        }
    }
}

/// Exactly once: after a claim was accepted, and for as long as the ledger
/// holds its record, no claim of the same beneficiary under the same
/// version is accepted, whatever amount, token or proof it comes with, and
/// the ledger stays as it is. One that passes the checks on the proof fails
/// with `AlreadyClaimed`.
pub proof fn lemma_claim_exactly_once(
    coordinator: ClaimCoordinator,
    state: State,
    claimed: Set<(u64, Seq<char>)>,
    beneficiary: Seq<char>,
    token: Seq<char>,
    amount: u64,
    proof: Seq<[u8; 32]>,
    later: Set<(u64, Seq<char>)>,
    again_token: Seq<char>,
    again_amount: u64,
    again_proof: Seq<[u8; 32]>,
)
    requires
        coordinator.check_claim(state, claimed, beneficiary, token, amount, proof) is Ok,
        coordinator.claimed_after_begin(
            state,
            claimed,
            beneficiary,
            token,
            amount,
            proof,
        ).subset_of(later),
    ensures
        ({
            let again = coordinator.check_claim(
                state,
                later,
                beneficiary,
                again_token,
                again_amount,
                again_proof,
            );
            let passes = again_proof.len() <= coordinator.max_proof_len && coordinator.entitled(
                state,
                beneficiary,
                again_token,
                again_amount,
                again_proof,
            );
            &&& again is Err
            &&& passes ==> again == Err::<(), ErrorCode>(ErrorCode::AlreadyClaimed)
            &&& coordinator.claimed_after_begin(
                state,
                later,
                beneficiary,
                again_token,
                again_amount,
                again_proof,
            ) == later
        }),
{
    assert(claimed.insert((state.version, beneficiary)).contains((state.version, beneficiary)));
}

/// All or nothing: when the transfer of an accepted claim fails, settling
/// it leaves the ledger exactly as it was before the claim began, the
/// beneficiary counts as not having redeemed, and the same claim is
/// accepted when it is made again.
pub proof fn lemma_failed_transfer_leaves_no_trace(
    coordinator: ClaimCoordinator,
    state: State,
    claimed: Set<(u64, Seq<char>)>,
    beneficiary: Seq<char>,
    token: Seq<char>,
    amount: u64,
    proof: Seq<[u8; 32]>,
    failure: TransferError,
)
    requires
        coordinator.check_claim(state, claimed, beneficiary, token, amount, proof) is Ok,
    ensures
        ({
            let begun = coordinator.claimed_after_begin(
                state,
                claimed,
                beneficiary,
                token,
                amount,
                proof,
            );
            let settled = ClaimCoordinator::claimed_after_settle(
                begun,
                coordinator.entitlement(state, beneficiary, token, amount),
                Err::<(), TransferError>(failure),
            );
            &&& settled == claimed
            &&& !settled.contains((state.version, beneficiary))
            &&& coordinator.check_claim(state, settled, beneficiary, token, amount, proof) is Ok
        }),
{
    let pair = (state.version, beneficiary);
    assert(claimed.insert(pair).remove(pair) =~= claimed);
}

/// A redemption under one version does not stand in the way of one under
/// another: the version is what separates them.
pub proof fn lemma_versions_claim_apart(
    coordinator: ClaimCoordinator,
    state: State,
    claimed: Set<(u64, Seq<char>)>,
    beneficiary: Seq<char>,
    token: Seq<char>,
    amount: u64,
    proof: Seq<[u8; 32]>,
    earlier_version: u64,
)
    requires
        earlier_version != state.version,
        coordinator.check_claim(state, claimed, beneficiary, token, amount, proof) is Ok,
    ensures
        coordinator.check_claim(
            state,
            claimed.insert((earlier_version, beneficiary)),
            beneficiary,
            token,
            amount,
            proof,
        ) is Ok,
{
}

/// Two different texts have different digests, unless the primitive
/// collides on their encodings.
pub proof fn lemma_tampered_text_changes_digest(
    primitive: HashPrimitive,
    text: Seq<char>,
    tampered: Seq<char>,
)
    requires
        tampered != text,
        !hash_collision(primitive, encode_utf8(text), encode_utf8(tampered)),
    ensures
        spec_hash_text(primitive, tampered) != spec_hash_text(primitive, text),
{
    encode_utf8_decode_utf8(text);
    encode_utf8_decode_utf8(tampered);
}

/// A proof that verifies for the leaf of one text is rejected for the leaf
/// of any other text, unless the primitive collides on the two texts or
/// along the two folds.
pub proof fn lemma_tampered_leaf_text_rejected(
    primitive: HashPrimitive,
    proof: Seq<[u8; 32]>,
    root: [u8; 32],
    text: Seq<char>,
    tampered: Seq<char>,
)
    requires
        spec_verify(primitive, proof, root, spec_hash_text(primitive, text)),
        tampered != text,
        !hash_collision(primitive, encode_utf8(text), encode_utf8(tampered)),
        !folds_collide(
            primitive,
            spec_hash_text(primitive, text),
            proof,
            spec_hash_text(primitive, tampered),
            proof,
        ),
    ensures
        !spec_verify(primitive, proof, root, spec_hash_text(primitive, tampered)),
{
    lemma_tampered_text_changes_digest(primitive, text, tampered);
    lemma_tampered_leaf_rejected(
        primitive,
        proof,
        root,
        spec_hash_text(primitive, text),
        spec_hash_text(primitive, tampered),
    );
}

} // verus!
