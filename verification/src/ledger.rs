//! Claim ledger: which beneficiaries have redeemed under which version.

use vstd::prelude::*;
use vstd::hash_map::*;
use vstd::string::*;
use crate::error::ErrorCode;
use crate::leaf::{
    decimal_text, is_digit_char, lemma_decimal_text_injective, lemma_decimal_text_is_digits,
    push_decimal,
};

verus! {

/// The key under which a redemption is stored: the version as a decimal
/// numeral, a colon, and the beneficiary.
pub open spec fn claim_key(version: u64, beneficiary: Seq<char>) -> Seq<char> {
    decimal_text(version as nat) + seq![':'] + beneficiary
}

/// Two pairs with one key are the same pair.
pub proof fn lemma_claim_key_injective(v1: u64, b1: Seq<char>, v2: u64, b2: Seq<char>)
    requires
        claim_key(v1, b1) == claim_key(v2, b2),
    ensures
        v1 == v2,
        b1 == b2,
{
    let d1 = decimal_text(v1 as nat);
    let d2 = decimal_text(v2 as nat);
    let k1 = claim_key(v1, b1);
    let k2 = claim_key(v2, b2);
    lemma_decimal_text_is_digits(v1 as nat);
    lemma_decimal_text_is_digits(v2 as nat);
    // The first colon of a key ends its numeral.
    assert(d1.len() == d2.len()) by {
        if d1.len() < d2.len() {
            assert(k1[d1.len() as int] == ':');
            assert(k2[d1.len() as int] == d2[d1.len() as int]);
            assert(is_digit_char(d2[d1.len() as int]));
        } else if d2.len() < d1.len() {
            assert(k2[d2.len() as int] == ':');
            assert(k1[d2.len() as int] == d1[d2.len() as int]);
            assert(is_digit_char(d1[d2.len() as int]));
        }
    }
    assert(d1 =~= d2) by {
        assert forall|i: int| 0 <= i < d1.len() implies d1[i] == d2[i] by {
            assert(k1[i] == d1[i]);
            assert(k2[i] == d2[i]);
        }
    }
    lemma_decimal_text_injective(v1 as nat, v2 as nat);
    assert(b1 =~= b2) by {
        assert(b1.len() == b2.len()) by {
            assert(k1.len() == d1.len() + 1 + b1.len());
            assert(k2.len() == d2.len() + 1 + b2.len());
        }
        assert forall|i: int| 0 <= i < b1.len() implies b1[i] == b2[i] by {
            assert(k1[d1.len() + 1 + i] == b1[i]);
            assert(k2[d2.len() + 1 + i] == b2[i]);
        }
    }
}

/// The set of `(version, beneficiary)` pairs that have redeemed. Lookups
/// and insertions take constant expected time.
pub struct ClaimLedger {
    entries: StringHashMap<()>,
}

impl View for ClaimLedger {
    type V = Set<(u64, Seq<char>)>;

    closed spec fn view(&self) -> Set<(u64, Seq<char>)> {
        Set::new(|pair: (u64, Seq<char>)| self.entries@.contains_key(claim_key(pair.0, pair.1)))
    }
}

/// Writes the key of a pair.
fn claim_key_string(version: u64, beneficiary: &str) -> (key: String)
    ensures
        key@ == claim_key(version, beneficiary@),
{
    proof {
        reveal_strlit(":");
    }
    let mut key = String::new();
    push_decimal(&mut key, version);
    key.append(":");
    key.append(beneficiary);
    assert(key@ =~= claim_key(version, beneficiary@));
    key
}

impl ClaimLedger {
    /// A ledger in which nobody has redeemed.
    pub fn new() -> (ledger: Self)
        ensures
            ledger@ == Set::<(u64, Seq<char>)>::empty(),
    {
        let ledger = ClaimLedger { entries: StringHashMap::new() };
        assert(ledger@ =~= Set::<(u64, Seq<char>)>::empty());
        ledger
    }

    /// Whether `beneficiary` has redeemed under `version`.
    pub fn has_claimed(&self, version: u64, beneficiary: &str) -> (claimed: bool)
        ensures
            claimed == self@.contains((version, beneficiary@)),
    {
        let key = claim_key_string(version, beneficiary);
        self.entries.contains_key(key.as_str())
    }

    /// Records a redemption, in one step with the check that it is the
    /// first: a pair that is already there is refused with `AlreadyClaimed`
    /// and the ledger stays as it was.
    pub fn mark_claimed(&mut self, version: u64, beneficiary: &str) -> (r: Result<(), ErrorCode>)
        ensures
            match r {
                Ok(_) => !old(self)@.contains((version, beneficiary@))
                    && final(self)@ == old(self)@.insert((version, beneficiary@)),
                Err(e) => old(self)@.contains((version, beneficiary@))
                    && e == ErrorCode::AlreadyClaimed
                    && final(self)@ == old(self)@,
            },
    {
        let key = claim_key_string(version, beneficiary);
        if self.entries.contains_key(key.as_str()) {
            return Err(ErrorCode::AlreadyClaimed);
        }
        self.entries.insert(key, ());
        proof {
            let added = (version, beneficiary@);
            assert forall|pair: (u64, Seq<char>)|
                self@.contains(pair) == old(self)@.insert(added).contains(pair) by {
                if claim_key(pair.0, pair.1) == claim_key(version, beneficiary@) {
                    lemma_claim_key_injective(pair.0, pair.1, version, beneficiary@);
                }
            }
            assert(self@ =~= old(self)@.insert(added));
        }
        Ok(())
    }

    /// Takes a redemption back, as after a transfer that failed. Every
    /// other pair stays.
    pub(crate) fn unmark_claimed(&mut self, version: u64, beneficiary: &str)
        ensures
            final(self)@ == old(self)@.remove((version, beneficiary@)),
    {
        let key = claim_key_string(version, beneficiary);
        self.entries.remove(key.as_str());
        proof {
            let gone = (version, beneficiary@);
            assert forall|pair: (u64, Seq<char>)|
                self@.contains(pair) == old(self)@.remove(gone).contains(pair) by {
                if claim_key(pair.0, pair.1) == claim_key(version, beneficiary@) {
                    lemma_claim_key_injective(pair.0, pair.1, version, beneficiary@);
                }
            }
            assert(self@ =~= old(self)@.remove(gone));
        }
    }
}

} // verus!
