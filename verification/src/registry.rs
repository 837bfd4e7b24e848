//! Root registry: the current root, its version and the authority that may
//! rotate it.

use vstd::prelude::*;
use crate::error::ErrorCode;
use crate::hash::{digest_eq, HashPrimitive};
use crate::merkle::spec_verify;

verus! {

/// The root state of one allowlist.
#[derive(Clone, Copy, Debug, PartialEq, Eq)]
pub struct State {
    /// Commitment to the current set of entitlements.
    pub merkle_root: [u8; 32],
    /// Counts the rotations; starts at 0.
    pub version: u64,
    /// The identity that may rotate the root. It never changes.
    pub authority: [u8; 32],
}

impl State {
    /// Bytes that a stored state takes: root, version, authority.
    pub const LEN: usize = 32 + 8 + 32;

    /// The state after a rotation to `new_root`.
    pub open spec fn rotated(self, new_root: [u8; 32]) -> State {
        State { merkle_root: new_root, version: (self.version + 1) as u64, authority: self.authority }
    }
}

/// What `initialize` works on: the slot that will hold the state, empty
/// until then, and the identity that sets it up.
pub struct Initialize {
    pub state: Option<State>,
    pub authority: [u8; 32],
}

/// What `update_root` works on: the state and the caller's identity.
pub struct UpdateRoot {
    pub state: State,
    pub authority: [u8; 32],
}

/// What `view_root` reads.
pub struct ViewRoot {
    pub state: State,
}

/// Sets the state up with the given root, version 0 and the caller as
/// authority. This is allowed once: on a slot that is taken it fails with
/// `AlreadyInitialized` and changes nothing.
pub fn initialize(accounts: &mut Initialize, merkle_root: [u8; 32]) -> (r: Result<(), ErrorCode>)
    ensures
        final(accounts).authority == old(accounts).authority,
        match r {
            Ok(_) => old(accounts).state is None && final(accounts).state == Some(
                State { merkle_root, version: 0, authority: old(accounts).authority },
            ),
            Err(e) => old(accounts).state is Some && e == ErrorCode::AlreadyInitialized
                && final(accounts).state == old(accounts).state,
        },
{
    if accounts.state.is_some() {
        return Err(ErrorCode::AlreadyInitialized);
    }
    accounts.state = Some(State { merkle_root, version: 0, authority: accounts.authority });
    Ok(())
}

/// Rotates to a new root and the next version. Only the authority may do
/// so: for any other caller it fails with `Unauthorized` and the state stays
/// as it was.
pub fn update_root(accounts: &mut UpdateRoot, new_root: [u8; 32]) -> (r: Result<(), ErrorCode>)
    requires
        old(accounts).authority == old(accounts).state.authority ==> old(accounts).state.version
            < u64::MAX,
    ensures
        final(accounts).authority == old(accounts).authority,
        match r {
            Ok(_) => old(accounts).authority == old(accounts).state.authority
                && final(accounts).state == old(accounts).state.rotated(new_root),
            Err(e) => old(accounts).authority != old(accounts).state.authority
                && e == ErrorCode::Unauthorized
                && final(accounts).state == old(accounts).state,
        },
{
    if !digest_eq(&accounts.authority, &accounts.state.authority) {
        return Err(ErrorCode::Unauthorized);
    }
    accounts.state.merkle_root = new_root;
    accounts.state.version += 1;
    Ok(())
}

/// The current root.
pub fn view_root(accounts: &ViewRoot) -> (r: Result<[u8; 32], ErrorCode>)
    ensures
        r == Ok::<[u8; 32], ErrorCode>(accounts.state.merkle_root),
{
    Ok(accounts.state.merkle_root)
}

/// The current root together with its version, read as one pair.
pub fn current_root(accounts: &ViewRoot) -> (r: ([u8; 32], u64))
    ensures
        r == (accounts.state.merkle_root, accounts.state.version),
{
    (accounts.state.merkle_root, accounts.state.version)
}

/// Version isolation: verification looks at the root alone. A proof that
/// verified before a rotation verifies after it exactly when the new root
/// is the old one; the version plays no part.
pub proof fn lemma_rotation_keeps_only_same_root(
    primitive: HashPrimitive,
    before: State,
    new_root: [u8; 32],
    proof: Seq<[u8; 32]>,
    leaf: [u8; 32],
)
    requires
        spec_verify(primitive, proof, before.merkle_root, leaf),
    ensures
        spec_verify(primitive, proof, before.rotated(new_root).merkle_root, leaf) <==> new_root
            == before.merkle_root,
{
}

/// The version only grows: a rotation below the last version moves it up by
/// exactly one and keeps the authority.
pub proof fn lemma_rotation_increments_version(before: State, new_root: [u8; 32])
    requires
        before.version < u64::MAX,
    ensures
        before.rotated(new_root).version == before.version + 1,
        before.rotated(new_root).version > before.version,
        before.rotated(new_root).authority == before.authority,
        before.rotated(new_root).merkle_root == new_root,
{
}

} // verus!
