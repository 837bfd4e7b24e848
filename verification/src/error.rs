//! The named conditions under which an operation is rejected.

use vstd::prelude::*;

verus! {

/// Why the value-transfer facility refused to move a balance.
#[derive(Clone, Copy, Debug, PartialEq, Eq, Structural)]
pub enum TransferError {
    InsufficientFunds,
    TransferDenied,
}

/// Every rejection is one of these; none is a bare "no".
#[derive(Clone, Copy, Debug, PartialEq, Eq, Structural)]
pub enum ErrorCode {
    /// Someone other than the authority tried to rotate the root.
    Unauthorized,
    /// The root state was set up before.
    AlreadyInitialized,
    /// Leaf and proof do not fold to the current root.
    InvalidProof,
    /// The entitlement was redeemed under this version already.
    AlreadyClaimed,
    /// The proof is longer than the configured depth bound.
    ProofTooLong,
    /// The value transfer failed; the claim was rolled back and may be retried.
    TransferFailed(TransferError),
}

impl ErrorCode {
    /// The message of each condition.
    pub open spec fn spec_message(self) -> Seq<char> {
        match self {
            ErrorCode::Unauthorized => "Unauthorized"@,
            ErrorCode::AlreadyInitialized => "AlreadyInitialized"@,
            ErrorCode::InvalidProof => "InvalidProof"@,
            ErrorCode::AlreadyClaimed => "AlreadyClaimed"@,
            ErrorCode::ProofTooLong => "ProofTooLong"@,
            ErrorCode::TransferFailed(TransferError::InsufficientFunds) => {
                "TransferFailed: InsufficientFunds"@
            },
            ErrorCode::TransferFailed(TransferError::TransferDenied) => {
                "TransferFailed: TransferDenied"@
            },
        }
    }

    /// A short text that names the condition.
    pub fn message(&self) -> (text: &'static str)
        ensures
            text@ == self.spec_message(),
    {
        match self {
            ErrorCode::Unauthorized => "Unauthorized",
            ErrorCode::AlreadyInitialized => "AlreadyInitialized",
            ErrorCode::InvalidProof => "InvalidProof",
            ErrorCode::AlreadyClaimed => "AlreadyClaimed",
            ErrorCode::ProofTooLong => "ProofTooLong",
            ErrorCode::TransferFailed(TransferError::InsufficientFunds) => {
                "TransferFailed: InsufficientFunds"
            },
            ErrorCode::TransferFailed(TransferError::TransferDenied) => {
                "TransferFailed: TransferDenied"
            },
        }
    }
}

} // verus!
