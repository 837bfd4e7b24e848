//! Versioned Merkle-allowlist verification and claim settlement.
//!
//! An authority publishes a Merkle root that commits to a set of
//! entitlements. Whoever holds a valid inclusion proof can redeem an
//! entitlement once per version of the root.

pub mod claim;
pub mod error;
pub mod hash;
pub mod leaf;
pub mod ledger;
pub mod merkle;
pub mod registry;

pub use claim::{
    verify_proof, ClaimCoordinator, PendingClaim, ProofVerified, Redeemed, VerifyProof,
};
pub use error::{ErrorCode, TransferError};
pub use hash::{combine, hash_bytes, HashPrimitive};
pub use leaf::{hash_leaf, LeafScheme};
pub use ledger::ClaimLedger;
pub use merkle::{verify_merkle_proof, MerkleTree};
pub use registry::{
    current_root, initialize, update_root, view_root, Initialize, State, UpdateRoot, ViewRoot,
};
