//! Merkle verifier: rebuilds a root from a leaf and its inclusion proof.

use vstd::prelude::*;
use crate::hash::{
    combine, digest_eq, hash_collision, lemma_combine_commutes, lemma_sorted_concat_injective,
    sorted_concat, spec_combine, spec_hash, HashPrimitive,
};

verus! {

/// The running digest after the first `n` elements of `proof` have been
/// combined, one after the other, into `leaf`.
pub open spec fn running_digest(
    primitive: HashPrimitive,
    leaf: [u8; 32],
    proof: Seq<[u8; 32]>,
    n: nat,
) -> [u8; 32]
    decreases n,
{
    if n == 0 {
        leaf
    } else {
        spec_combine(
            primitive,
            running_digest(primitive, leaf, proof, (n - 1) as nat),
            proof[n - 1],
        )
    }
}

/// The digest that `leaf` and the whole of `proof` fold to.
pub open spec fn spec_fold(
    primitive: HashPrimitive,
    leaf: [u8; 32],
    proof: Seq<[u8; 32]>,
) -> [u8; 32] {
    running_digest(primitive, leaf, proof, proof.len())
}

/// A proof verifies when leaf and proof fold to the root.
pub open spec fn spec_verify(
    primitive: HashPrimitive,
    proof: Seq<[u8; 32]>,
    root: [u8; 32],
    leaf: [u8; 32],
) -> bool {
    spec_fold(primitive, leaf, proof) == root
}

/// Folds `proof` into `leaf` from the first element to the last.
pub fn fold_proof(primitive: HashPrimitive, proof: &[[u8; 32]], leaf: [u8; 32]) -> (out: [u8; 32])
    ensures
        out == spec_fold(primitive, leaf, proof@),
{
    let mut running: [u8; 32] = leaf;
    let mut i: usize = 0;
    while i < proof.len()
        invariant
            0 <= i <= proof.len(),
            running == running_digest(primitive, leaf, proof@, i as nat),
        decreases proof.len() - i,
    {
        running = combine(primitive, &running, &proof[i]);
        i += 1;
    }
    running
}

/// Checks an inclusion proof: true exactly when `leaf` and `proof` fold to
/// `root`. An empty proof verifies only a leaf that is the root itself.
/// Nothing is changed, and the proof may have any length.
pub fn verify_merkle_proof(
    primitive: HashPrimitive,
    proof: &[[u8; 32]],
    root: [u8; 32],
    leaf: [u8; 32],
) -> (valid: bool)
    ensures
        valid == spec_verify(primitive, proof@, root, leaf),
        proof@.len() == 0 ==> valid == (leaf == root),
{
    let computed = fold_proof(primitive, proof, leaf);
    digest_eq(&computed, &root)
}

/// The bytes that are hashed at step `i` of a fold: the running digest and
/// the proof element, in sorted order.
pub open spec fn step_input(
    primitive: HashPrimitive,
    leaf: [u8; 32],
    proof: Seq<[u8; 32]>,
    i: int,
) -> Seq<u8> {
    sorted_concat(running_digest(primitive, leaf, proof, i as nat), proof[i])
}

/// Somewhere along the two folds the primitive maps two different inputs to
/// one digest.
pub open spec fn folds_collide(
    primitive: HashPrimitive,
    leaf_a: [u8; 32],
    proof_a: Seq<[u8; 32]>,
    leaf_b: [u8; 32],
    proof_b: Seq<[u8; 32]>,
) -> bool {
    exists|i: int|
        0 <= i < proof_a.len() && i < proof_b.len() && #[trigger] hash_collision(
            primitive,
            step_input(primitive, leaf_a, proof_a, i),
            step_input(primitive, leaf_b, proof_b, i),
        )
}

/// The running digest after `n` steps depends on the first `n` proof
/// elements only.
pub proof fn lemma_running_digest_prefix(
    primitive: HashPrimitive,
    leaf: [u8; 32],
    proof_a: Seq<[u8; 32]>,
    proof_b: Seq<[u8; 32]>,
    n: nat,
)
    requires
        n <= proof_a.len(),
        n <= proof_b.len(),
        forall|i: int| 0 <= i < n ==> proof_a[i] == proof_b[i],
    ensures
        running_digest(primitive, leaf, proof_a, n) == running_digest(primitive, leaf, proof_b, n),
    decreases n,
{
    if n > 0 {
        lemma_running_digest_prefix(primitive, leaf, proof_a, proof_b, (n - 1) as nat);
    }
}

/// Two folds that differ after `from` steps and then take the same proof
/// elements still differ at the end, unless the primitive collides on the way.
proof fn lemma_folds_stay_apart(
    primitive: HashPrimitive,
    leaf_a: [u8; 32],
    proof_a: Seq<[u8; 32]>,
    leaf_b: [u8; 32],
    proof_b: Seq<[u8; 32]>,
    from: nat,
    n: nat,
)
    requires
        from <= n,
        n <= proof_a.len(),
        n <= proof_b.len(),
        running_digest(primitive, leaf_a, proof_a, from) != running_digest(
            primitive,
            leaf_b,
            proof_b,
            from,
        ),
        forall|i: int| from <= i < n ==> proof_a[i] == proof_b[i],
        !folds_collide(primitive, leaf_a, proof_a, leaf_b, proof_b),
    ensures
        running_digest(primitive, leaf_a, proof_a, n) != running_digest(
            primitive,
            leaf_b,
            proof_b,
            n,
        ),
    decreases n,
{
    if n > from {
        let k = (n - 1) as nat;
        lemma_folds_stay_apart(primitive, leaf_a, proof_a, leaf_b, proof_b, from, k);
        let ra = running_digest(primitive, leaf_a, proof_a, k);
        let rb = running_digest(primitive, leaf_b, proof_b, k);
        let xa = step_input(primitive, leaf_a, proof_a, k as int);
        let xb = step_input(primitive, leaf_b, proof_b, k as int);
        if xa == xb {
            lemma_sorted_concat_injective(ra, proof_a[k as int], rb, proof_b[k as int]);
        }
        assert(!hash_collision(primitive, xa, xb));
    }
}

/// A proof that verifies against one root verifies against no other: any
/// change to the root is rejected.
pub proof fn lemma_tampered_root_rejected(
    primitive: HashPrimitive,
    proof: Seq<[u8; 32]>,
    root: [u8; 32],
    leaf: [u8; 32],
    tampered: [u8; 32],
)
    requires
        spec_verify(primitive, proof, root, leaf),
        tampered != root,
    ensures
        !spec_verify(primitive, proof, tampered, leaf),
{
}

/// A proof that verifies for one leaf is rejected for every other leaf,
/// unless the primitive collides along the two folds.
pub proof fn lemma_tampered_leaf_rejected(
    primitive: HashPrimitive,
    proof: Seq<[u8; 32]>,
    root: [u8; 32],
    leaf: [u8; 32],
    tampered: [u8; 32],
)
    requires
        spec_verify(primitive, proof, root, leaf),
        tampered != leaf,
        !folds_collide(primitive, leaf, proof, tampered, proof),
    ensures
        !spec_verify(primitive, proof, root, tampered),
{
    lemma_folds_stay_apart(primitive, leaf, proof, tampered, proof, 0, proof.len());
}

/// Changing one element of a proof that verifies makes it fail, unless the
/// primitive collides along the two folds.
pub proof fn lemma_tampered_proof_rejected(
    primitive: HashPrimitive,
    proof: Seq<[u8; 32]>,
    root: [u8; 32],
    leaf: [u8; 32],
    k: int,
    tampered: [u8; 32],
)
    requires
        spec_verify(primitive, proof, root, leaf),
        0 <= k < proof.len(),
        tampered != proof[k],
        !folds_collide(primitive, leaf, proof, leaf, proof.update(k, tampered)),
    ensures
        !spec_verify(primitive, proof.update(k, tampered), root, leaf),
{
    let other = proof.update(k, tampered);
    lemma_running_digest_prefix(primitive, leaf, proof, other, k as nat);
    let r = running_digest(primitive, leaf, proof, k as nat);
    let xa = step_input(primitive, leaf, proof, k);
    let xb = step_input(primitive, leaf, other, k);
    if xa == xb {
        lemma_sorted_concat_injective(r, proof[k], r, tampered);
    }
    assert(!hash_collision(primitive, xa, xb));
    assert(running_digest(primitive, leaf, proof, (k + 1) as nat) == spec_hash(primitive, xa));
    assert(running_digest(primitive, leaf, other, (k + 1) as nat) == spec_hash(primitive, xb));
    lemma_folds_stay_apart(
        primitive,
        leaf,
        proof,
        leaf,
        other,
        (k + 1) as nat,
        proof.len(),
    );
}

/// If two folds collide, the two runs meet and, taking the same proof
/// elements from there on, end in the same digest: the collision condition
/// of the tamper laws leaves out no input on which they would hold.
pub proof fn lemma_collision_merges_folds(
    primitive: HashPrimitive,
    leaf_a: [u8; 32],
    leaf_b: [u8; 32],
    proof: Seq<[u8; 32]>,
)
    requires
        folds_collide(primitive, leaf_a, proof, leaf_b, proof),
    ensures
        spec_fold(primitive, leaf_a, proof) == spec_fold(primitive, leaf_b, proof),
{
    let i = choose|i: int|
        0 <= i < proof.len() && #[trigger] hash_collision(
            primitive,
            step_input(primitive, leaf_a, proof, i),
            step_input(primitive, leaf_b, proof, i),
        );
    lemma_folds_stay_together(
        primitive,
        leaf_a,
        proof,
        leaf_b,
        proof,
        (i + 1) as nat,
        proof.len(),
    );
}

/// The same for a proof changed in one place: if the two folds collide,
/// the changed proof folds to the same digest as the proof it came from.
pub proof fn lemma_collision_merges_tampered_proof(
    primitive: HashPrimitive,
    leaf: [u8; 32],
    proof: Seq<[u8; 32]>,
    k: int,
    tampered: [u8; 32],
)
    requires
        0 <= k < proof.len(),
        folds_collide(primitive, leaf, proof, leaf, proof.update(k, tampered)),
    ensures
        spec_fold(primitive, leaf, proof.update(k, tampered)) == spec_fold(primitive, leaf, proof),
{
    let other = proof.update(k, tampered);
    let i = choose|i: int|
        0 <= i < proof.len() && i < other.len() && #[trigger] hash_collision(
            primitive,
            step_input(primitive, leaf, proof, i),
            step_input(primitive, leaf, other, i),
        );
    if i < k {
        lemma_running_digest_prefix(primitive, leaf, proof, other, i as nat);
    } else {
        lemma_folds_stay_together(
            primitive,
            leaf,
            proof,
            leaf,
            other,
            (i + 1) as nat,
            proof.len(),
        );
    }
}

/// Two folds that agree after `from` steps and then take the same proof
/// elements agree at the end.
proof fn lemma_folds_stay_together(
    primitive: HashPrimitive,
    leaf_a: [u8; 32],
    proof_a: Seq<[u8; 32]>,
    leaf_b: [u8; 32],
    proof_b: Seq<[u8; 32]>,
    from: nat,
    n: nat,
)
    requires
        from <= n,
        n <= proof_a.len(),
        n <= proof_b.len(),
        forall|i: int| from <= i < n ==> proof_a[i] == proof_b[i],
        running_digest(primitive, leaf_a, proof_a, from) == running_digest(
            primitive,
            leaf_b,
            proof_b,
            from,
        ),
    ensures
        running_digest(primitive, leaf_a, proof_a, n) == running_digest(
            primitive,
            leaf_b,
            proof_b,
            n,
        ),
    decreases n,
{
    if n > from {
        lemma_folds_stay_together(
            primitive,
            leaf_a,
            proof_a,
            leaf_b,
            proof_b,
            from,
            (n - 1) as nat,
        );
    }
}

/// A binary hash tree over leaf digests, of any shape.
pub enum MerkleTree {
    Leaf([u8; 32]),
    Node(Box<MerkleTree>, Box<MerkleTree>),
}

impl MerkleTree {
    /// The root digest: a leaf is its own root, an inner node combines the
    /// roots of its two children.
    pub open spec fn root(self, primitive: HashPrimitive) -> [u8; 32]
        decreases self,
    {
        match self {
            MerkleTree::Leaf(d) => d,
            MerkleTree::Node(l, r) => spec_combine(
                primitive,
                l.root(primitive),
                r.root(primitive),
            ),
        }
    }

    /// Whether `path` leads from the root to a leaf; `true` steps right.
    pub open spec fn has_leaf_at(self, path: Seq<bool>) -> bool
        decreases self,
    {
        match self {
            MerkleTree::Leaf(_) => path.len() == 0,
            MerkleTree::Node(l, r) => path.len() > 0 && if path[0] {
                r.has_leaf_at(path.drop_first())
            } else {
                l.has_leaf_at(path.drop_first())
            },
        }
    }

    /// The leaf digest at the end of `path`.
    pub open spec fn leaf_at(self, path: Seq<bool>) -> [u8; 32]
        decreases self,
    {
        match self {
            MerkleTree::Leaf(d) => d,
            MerkleTree::Node(l, r) => if path.len() > 0 && path[0] {
                r.leaf_at(path.drop_first())
            } else {
                l.leaf_at(path.drop_first())
            },
        }
    }

    /// The inclusion proof of the leaf at the end of `path`: the roots of
    /// the siblings along the path, the deepest first.
    pub open spec fn proof_at(self, primitive: HashPrimitive, path: Seq<bool>) -> Seq<[u8; 32]>
        decreases self,
    {
        match self {
            MerkleTree::Leaf(_) => Seq::empty(),
            MerkleTree::Node(l, r) => if path.len() > 0 && path[0] {
                r.proof_at(primitive, path.drop_first()).push(l.root(primitive))
            } else {
                l.proof_at(primitive, path.drop_first()).push(r.root(primitive))
            },
        }
    }
}

/// Round trip: in any tree, the proof generated for a leaf verifies against
/// the tree's root for that leaf.
pub proof fn lemma_generated_proof_verifies(
    primitive: HashPrimitive,
    tree: MerkleTree,
    path: Seq<bool>,
)
    requires
        tree.has_leaf_at(path),
    ensures
        spec_verify(
            primitive,
            tree.proof_at(primitive, path),
            tree.root(primitive),
            tree.leaf_at(path),
        ),
    decreases tree,
{
    match tree {
        MerkleTree::Leaf(_) => {},
        MerkleTree::Node(l, r) => {
            let rest = path.drop_first();
            let (child, sibling) = if path[0] {
                (*r, *l)
            } else {
                (*l, *r)
            };
            lemma_generated_proof_verifies(primitive, child, rest);
            let below = child.proof_at(primitive, rest);
            let whole = below.push(sibling.root(primitive));
            let leaf = child.leaf_at(rest);
            lemma_running_digest_prefix(primitive, leaf, below, whole, below.len());
            lemma_combine_commutes(primitive, l.root(primitive), r.root(primitive));
        },
    }
}

/// Round trip, the other half: the proof generated for one leaf of a tree
/// is rejected for any other digest, unless the primitive collides along
/// the two folds.
pub proof fn lemma_generated_proof_rejects_other_leaf(
    primitive: HashPrimitive,
    tree: MerkleTree,
    path: Seq<bool>,
    other: [u8; 32],
)
    requires
        tree.has_leaf_at(path),
        other != tree.leaf_at(path),
        !folds_collide(
            primitive,
            tree.leaf_at(path),
            tree.proof_at(primitive, path),
            other,
            tree.proof_at(primitive, path),
        ),
    ensures
        !spec_verify(primitive, tree.proof_at(primitive, path), tree.root(primitive), other),
{
    lemma_generated_proof_verifies(primitive, tree, path);
    lemma_tampered_leaf_rejected(
        primitive,
        tree.proof_at(primitive, path),
        tree.root(primitive),
        tree.leaf_at(path),
        other,
    );
}

} // verus!
