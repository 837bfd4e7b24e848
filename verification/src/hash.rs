//! Hash engine: the two supported 256-bit primitives and the pairwise
//! combination of tree nodes in sorted order.

use vstd::prelude::*;

verus! {

/// The hash primitive a tree is built with. A deployment picks one and keeps
/// it for the life of its trees; digests of the two are not interchangeable.
#[derive(Clone, Copy, Debug, PartialEq, Eq, Structural)]
pub enum HashPrimitive {
    Keccak256,
    Sha256,
}

/// The Keccak-256 digest of `data`, as `solana_program::keccak::hash` computes it.
pub uninterp spec fn keccak256(data: Seq<u8>) -> [u8; 32];

/// The SHA-256 digest of `data`, as `solana_program::hash::hash` computes it.
pub uninterp spec fn sha256(data: Seq<u8>) -> [u8; 32];

/// Calls `solana_program::keccak::hash` and takes the 32 bytes out of the
/// returned `Hash` with `to_bytes`. Trusted: the result is the Keccak-256
/// digest of `data`, a function of the bytes alone.
#[verifier::external_body]
fn keccak_digest(data: &[u8]) -> (out: [u8; 32])
    ensures
        out == keccak256(data@),
{
    solana_program::keccak::hash(data).to_bytes()
}

/// Calls `solana_program::hash::hash` and takes the 32 bytes out of the
/// returned `Hash` with `to_bytes`. Trusted: the result is the SHA-256
/// digest of `data`, a function of the bytes alone.
#[verifier::external_body]
fn sha256_digest(data: &[u8]) -> (out: [u8; 32])
    ensures
        out == sha256(data@),
{
    solana_program::hash::hash(data).to_bytes()
}

/// The digest of `data` under `primitive`.
pub open spec fn spec_hash(primitive: HashPrimitive, data: Seq<u8>) -> [u8; 32] {
    match primitive {
        HashPrimitive::Keccak256 => keccak256(data),
        HashPrimitive::Sha256 => sha256(data),
    }
}

/// Two different byte strings with the same digest under `primitive`.
pub open spec fn hash_collision(primitive: HashPrimitive, x: Seq<u8>, y: Seq<u8>) -> bool {
    x != y && spec_hash(primitive, x) == spec_hash(primitive, y)
}

/// Hashes `data` with the chosen primitive.
pub fn hash_bytes(primitive: HashPrimitive, data: &[u8]) -> (out: [u8; 32])
    ensures
        out == spec_hash(primitive, data@),
{
    match primitive {
        HashPrimitive::Keccak256 => keccak_digest(data),
        HashPrimitive::Sha256 => sha256_digest(data),
    }
}

/// `i` is the first position at which `a` and `b` differ.
pub open spec fn first_difference(a: Seq<u8>, b: Seq<u8>, i: int) -> bool {
    &&& 0 <= i < a.len()
    &&& i < b.len()
    &&& a[i] != b[i]
    &&& forall|j: int| 0 <= j < i ==> a[j] == b[j]
}

/// Lexicographic order on byte strings of one length: `a` is equal to `b`,
/// or smaller at the first position where they differ.
pub open spec fn lex_le(a: Seq<u8>, b: Seq<u8>) -> bool {
    a == b || exists|i: int| #[trigger] first_difference(a, b, i) && a[i] < b[i]
}

/// Two byte strings of one length that are not equal differ somewhere first.
pub proof fn lemma_first_difference_exists(a: Seq<u8>, b: Seq<u8>)
    requires
        a.len() == b.len(),
        a != b,
    ensures
        exists|i: int| first_difference(a, b, i),
{
    lemma_first_difference_from(a, b, 0);
}

proof fn lemma_first_difference_from(a: Seq<u8>, b: Seq<u8>, k: int)
    requires
        a.len() == b.len(),
        a != b,
        0 <= k <= a.len(),
        forall|j: int| 0 <= j < k ==> a[j] == b[j],
    ensures
        exists|i: int| first_difference(a, b, i),
    decreases a.len() - k,
{
    if k == a.len() {
        assert(a =~= b);
    } else if a[k] != b[k] {
        assert(first_difference(a, b, k));
    } else {
        lemma_first_difference_from(a, b, k + 1);
    }
}

/// The order is total on strings of one length.
pub proof fn lemma_lex_le_total(a: Seq<u8>, b: Seq<u8>)
    requires
        a.len() == b.len(),
    ensures
        lex_le(a, b) || lex_le(b, a),
{
    if a != b {
        lemma_first_difference_exists(a, b);
        let i = choose|i: int| first_difference(a, b, i);
        if a[i] < b[i] {
            assert(first_difference(a, b, i) && a[i] < b[i]);
        } else {
            assert(first_difference(b, a, i) && b[i] < a[i]);
        }
    }
}

/// The order is antisymmetric.
pub proof fn lemma_lex_le_antisymmetric(a: Seq<u8>, b: Seq<u8>)
    requires
        lex_le(a, b),
        lex_le(b, a),
    ensures
        a == b,
{
    if a != b {
        let i = choose|i: int| #[trigger] first_difference(a, b, i) && a[i] < b[i];
        let k = choose|k: int| #[trigger] first_difference(b, a, k) && b[k] < a[k];
        assert(i == k) by {
            if i < k {
                assert(b[i] == a[i]);
            } else if k < i {
                assert(a[k] == b[k]);
            }
        }
    }
}

/// Whether `a` comes before `b`, or is `b`, in lexicographic order.
pub fn digest_le(a: &[u8; 32], b: &[u8; 32]) -> (r: bool)
    ensures
        r == lex_le(a@, b@),
{
    let mut i: usize = 0;
    while i < 32
        invariant
            0 <= i <= 32,
            forall|j: int| 0 <= j < i ==> a@[j] == b@[j],
        decreases 32 - i,
    {
        if a[i] != b[i] {
            proof {
                // There is one first difference, and it is here.
                assert(first_difference(a@, b@, i as int));
                assert forall|k: int| #[trigger] first_difference(a@, b@, k) implies k == i by {
                    if k < i {
                        assert(a@[k] == b@[k]);
                    } else if i < k {
                        assert(a@[i as int] == b@[i as int]);
                    }
                }
            }
            return a[i] < b[i];
        }
        i += 1;
    }
    proof {
        assert(a@ =~= b@);
    }
    true
}

/// Whether two digests hold the same bytes.
pub fn digest_eq(a: &[u8; 32], b: &[u8; 32]) -> (r: bool)
    ensures
        r == (*a == *b),
{
    let mut i: usize = 0;
    while i < 32
        invariant
            0 <= i <= 32,
            forall|j: int| 0 <= j < i ==> a@[j] == b@[j],
        decreases 32 - i,
    {
        if a[i] != b[i] {
            return false;
        }
        i += 1;
    }
    proof {
        assert(*a =~= *b);
    }
    true
}

/// The two digests side by side, the lexicographically smaller one first.
pub open spec fn sorted_concat(a: [u8; 32], b: [u8; 32]) -> Seq<u8> {
    if lex_le(a@, b@) {
        a@ + b@
    } else {
        b@ + a@
    }
}

/// The parent of two nodes: the digest of the pair in sorted order.
pub open spec fn spec_combine(primitive: HashPrimitive, a: [u8; 32], b: [u8; 32]) -> [u8; 32] {
    spec_hash(primitive, sorted_concat(a, b))
}

/// Appends the 32 bytes of `d` to `buf`.
fn push_digest(buf: &mut Vec<u8>, d: &[u8; 32])
    ensures
        final(buf)@ == old(buf)@ + d@,
{
    let mut i: usize = 0;
    while i < 32
        invariant
            0 <= i <= 32,
            buf@ == old(buf)@ + d@.subrange(0, i as int),
        decreases 32 - i,
    {
        buf.push(d[i]);
        i += 1;
    }
    proof {
        assert(d@.subrange(0, 32) =~= d@);
    }
}

/// The 64 bytes of two digests, the lexicographically smaller one first.
pub fn sorted_pair(left: &[u8; 32], right: &[u8; 32]) -> (buf: Vec<u8>)
    ensures
        buf@ == sorted_concat(*left, *right),
        buf@ == sorted_concat(*right, *left),
{
    proof {
        lemma_sorted_concat_commutes(*left, *right);
    }
    let mut buf: Vec<u8> = Vec::with_capacity(64);
    if digest_le(left, right) {
        push_digest(&mut buf, left);
        push_digest(&mut buf, right);
    } else {
        push_digest(&mut buf, right);
        push_digest(&mut buf, left);
    }
    buf
}

/// Combines two sibling nodes into their parent. The order of the arguments
/// does not matter: the smaller digest is always hashed first.
pub fn combine(primitive: HashPrimitive, left: &[u8; 32], right: &[u8; 32]) -> (out: [u8; 32])
    ensures
        out == spec_combine(primitive, *left, *right),
        out == spec_combine(primitive, *right, *left),
{
    let pair = sorted_pair(left, right);
    hash_bytes(primitive, pair.as_slice())
}

/// Combining does not depend on which node is called left.
pub proof fn lemma_combine_commutes(primitive: HashPrimitive, a: [u8; 32], b: [u8; 32])
    ensures
        spec_combine(primitive, a, b) == spec_combine(primitive, b, a),
{
    lemma_sorted_concat_commutes(a, b);
}

/// The sorted pair is the same whichever node comes first.
pub proof fn lemma_sorted_concat_commutes(a: [u8; 32], b: [u8; 32])
    ensures
        sorted_concat(a, b) == sorted_concat(b, a),
{
    lemma_lex_le_total(a@, b@);
    if lex_le(a@, b@) && lex_le(b@, a@) {
        lemma_lex_le_antisymmetric(a@, b@);
    }
}

/// Two sorted pairs with the same bytes hold the same two digests.
pub proof fn lemma_sorted_concat_injective(a: [u8; 32], b: [u8; 32], c: [u8; 32], d: [u8; 32])
    requires
        sorted_concat(a, b) == sorted_concat(c, d),
    ensures
        (a == c && b == d) || (a == d && b == c),
{
    let (x, y) = if lex_le(a@, b@) { (a, b) } else { (b, a) };
    let (u, v) = if lex_le(c@, d@) { (c, d) } else { (d, c) };
    let s = x@ + y@;
    let t = u@ + v@;
    assert(s == t);
    assert(x@ =~= u@) by {
        assert forall|i: int| 0 <= i < 32 implies x@[i] == u@[i] by {
            assert(s[i] == x@[i]);
            assert(t[i] == u@[i]);
        }
    }
    assert(y@ =~= v@) by {
        assert forall|i: int| 0 <= i < 32 implies y@[i] == v@[i] by {
            assert(s[i + 32] == y@[i]);
            assert(t[i + 32] == v@[i]);
        }
    }
    assert(x =~= u);
    assert(y =~= v);
}

} // verus!
