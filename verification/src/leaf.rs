//! Canonical leaf serialisation: the text that stands for an entitlement,
//! and its digest.

use vstd::prelude::*;
use vstd::string::*;
use vstd::utf8::*;
use crate::hash::{hash_bytes, spec_hash, HashPrimitive};

verus! {

/// How an entitlement is written down before it is hashed. The tree builder
/// and the verifier must use the same scheme, character for character.
#[derive(Clone, Copy, Debug, PartialEq, Eq, Structural)]
pub enum LeafScheme {
    /// `<beneficiary>:<amount>`, the amount as a plain decimal integer. One
    /// asset is implied.
    Binary,
    /// `<beneficiary>:<token>:<amount>`, the amount in fixed point with
    /// eight fractional digits.
    MultiAsset,
}

/// Fractional digits of an amount in the multi-asset scheme.
pub const FRACTION_DIGITS: u8 = 8;

/// Units that make up one whole in the multi-asset scheme: ten to the
/// power of `FRACTION_DIGITS`.
pub const UNITS_PER_WHOLE: u64 = 100_000_000;

/// The decimal digit `d` as a character.
pub open spec fn digit_char(d: nat) -> char {
    ('0' as nat + d) as char
}

/// The decimal numeral of `n`, without leading zeros.
pub open spec fn decimal_text(n: nat) -> Seq<char>
    decreases n,
{
    if n < 10 {
        seq![digit_char(n)]
    } else {
        decimal_text(n / 10).push(digit_char(n % 10))
    }
}

/// The last `width` decimal digits of `n`, with leading zeros kept.
pub open spec fn padded_decimal_text(n: nat, width: nat) -> Seq<char>
    decreases width,
{
    if width == 0 {
        Seq::empty()
    } else {
        padded_decimal_text(n / 10, (width - 1) as nat).push(digit_char(n % 10))
    }
}

/// An amount counted in units of 10^-8, written in fixed point: the whole
/// part, a dot, and exactly eight fractional digits.
pub open spec fn fixed8_text(amount: nat) -> Seq<char> {
    decimal_text(amount / (UNITS_PER_WHOLE as nat)) + seq!['.'] + padded_decimal_text(
        amount % (UNITS_PER_WHOLE as nat),
        FRACTION_DIGITS as nat,
    )
}

/// The amount as the scheme writes it.
pub open spec fn amount_text(scheme: LeafScheme, amount: u64) -> Seq<char> {
    match scheme {
        LeafScheme::Binary => decimal_text(amount as nat),
        LeafScheme::MultiAsset => fixed8_text(amount as nat),
    }
}

/// `<beneficiary>:<amount>`.
pub open spec fn binary_text(beneficiary: Seq<char>, amount: Seq<char>) -> Seq<char> {
    beneficiary + seq![':'] + amount
}

/// `<beneficiary>:<token>:<amount>`.
pub open spec fn multi_asset_text(
    beneficiary: Seq<char>,
    token: Seq<char>,
    amount: Seq<char>,
) -> Seq<char> {
    beneficiary + seq![':'] + token + seq![':'] + amount
}

/// The canonical text of an entitlement whose amount is already written out.
/// The binary scheme leaves the token out.
pub open spec fn leaf_text(
    scheme: LeafScheme,
    beneficiary: Seq<char>,
    token: Seq<char>,
    amount: Seq<char>,
) -> Seq<char> {
    match scheme {
        LeafScheme::Binary => binary_text(beneficiary, amount),
        LeafScheme::MultiAsset => multi_asset_text(beneficiary, token, amount),
    }
}

/// The digest of a text: the hash of its UTF-8 encoding.
pub open spec fn spec_hash_text(primitive: HashPrimitive, text: Seq<char>) -> [u8; 32] {
    spec_hash(primitive, encode_utf8(text))
}

/// The leaf digest of an entitlement.
pub open spec fn spec_leaf(
    scheme: LeafScheme,
    primitive: HashPrimitive,
    beneficiary: Seq<char>,
    token: Seq<char>,
    amount: u64,
) -> [u8; 32] {
    spec_hash_text(primitive, leaf_text(scheme, beneficiary, token, amount_text(scheme, amount)))
}

/// Whether `c` is one of the ten decimal digits.
pub open spec fn is_digit_char(c: char) -> bool {
    '0' <= c <= '9'
}

/// A decimal numeral is never empty and holds digits only.
pub proof fn lemma_decimal_text_is_digits(n: nat)
    ensures
        decimal_text(n).len() >= 1,
        forall|i: int| 0 <= i < decimal_text(n).len() ==> is_digit_char(#[trigger] decimal_text(n)[i]),
    decreases n,
{
    if n >= 10 {
        lemma_decimal_text_is_digits(n / 10);
    }
}

/// The ten digits are ten different characters.
pub proof fn lemma_digit_char_injective(c: nat, d: nat)
    requires
        c < 10,
        d < 10,
        digit_char(c) == digit_char(d),
    ensures
        c == d,
{
    assert(digit_char(c) as nat == '0' as nat + c);
    assert(digit_char(d) as nat == '0' as nat + d);
}

/// Different numbers have different decimal numerals.
pub proof fn lemma_decimal_text_injective(a: nat, b: nat)
    requires
        decimal_text(a) == decimal_text(b),
    ensures
        a == b,
    decreases a,
{
    lemma_decimal_text_is_digits(a / 10);
    lemma_decimal_text_is_digits(b / 10);
    if a < 10 && b < 10 {
        assert(decimal_text(a)[0] == digit_char(a));
        assert(decimal_text(b)[0] == digit_char(b));
        lemma_digit_char_injective(a, b);
    } else if a >= 10 && b >= 10 {
        let x = decimal_text(a / 10);
        let y = decimal_text(b / 10);
        assert(x.push(digit_char(a % 10)).drop_last() =~= x);
        assert(y.push(digit_char(b % 10)).drop_last() =~= y);
        assert(x.push(digit_char(a % 10)).last() == digit_char(a % 10));
        assert(y.push(digit_char(b % 10)).last() == digit_char(b % 10));
        lemma_decimal_text_injective(a / 10, b / 10);
        lemma_digit_char_injective(a % 10, b % 10);
    } else if a < 10 {
        assert(decimal_text(a).len() == 1);
        assert(decimal_text(b).len() == decimal_text(b / 10).len() + 1);
    } else {
        assert(decimal_text(b).len() == 1);
        assert(decimal_text(a).len() == decimal_text(a / 10).len() + 1);
    }
}

/// The one-character string of a decimal digit.
fn digit_str(d: u64) -> (s: &'static str)
    requires
        d < 10,
    ensures
        s@ == seq![digit_char(d as nat)],
{
    proof {
        reveal_strlit("0");
        reveal_strlit("1");
        reveal_strlit("2");
        reveal_strlit("3");
        reveal_strlit("4");
        reveal_strlit("5");
        reveal_strlit("6");
        reveal_strlit("7");
        reveal_strlit("8");
        reveal_strlit("9");
    }
    let s = if d == 0 {
        "0"
    } else if d == 1 {
        "1"
    } else if d == 2 {
        "2"
    } else if d == 3 {
        "3"
    } else if d == 4 {
        "4"
    } else if d == 5 {
        "5"
    } else if d == 6 {
        "6"
    } else if d == 7 {
        "7"
    } else if d == 8 {
        "8"
    } else {
        "9"
    };
    assert(s@ =~= seq![digit_char(d as nat)]);
    s
}

/// Appends the decimal numeral of `n` to `text`.
pub fn push_decimal(text: &mut String, n: u64)
    ensures
        final(text)@ == old(text)@ + decimal_text(n as nat),
    decreases n,
{
    if n >= 10 {
        push_decimal(text, n / 10);
    }
    text.append(digit_str(n % 10));
    assert(text@ =~= old(text)@ + decimal_text(n as nat));
}

/// Appends the last `width` decimal digits of `n` to `text`, leading zeros
/// included.
pub fn push_padded_decimal(text: &mut String, n: u64, width: u8)
    ensures
        final(text)@ == old(text)@ + padded_decimal_text(n as nat, width as nat),
    decreases width,
{
    if width > 0 {
        push_padded_decimal(text, n / 10, width - 1);
        text.append(digit_str(n % 10));
    }
    assert(text@ =~= old(text)@ + padded_decimal_text(n as nat, width as nat));
}

/// Writes an amount the way `scheme` prescribes.
pub fn format_amount(scheme: LeafScheme, amount: u64) -> (text: String)
    ensures
        text@ == amount_text(scheme, amount),
{
    let mut text = String::new();
    match scheme {
        LeafScheme::Binary => {
            push_decimal(&mut text, amount);
        },
        LeafScheme::MultiAsset => {
            proof {
                reveal_strlit(".");
            }
            push_decimal(&mut text, amount / UNITS_PER_WHOLE);
            text.append(".");
            push_padded_decimal(&mut text, amount % UNITS_PER_WHOLE, FRACTION_DIGITS);
        },
    }
    assert(text@ =~= amount_text(scheme, amount));
    text
}

/// Builds the canonical text of an entitlement from its parts.
pub fn build_leaf_text(scheme: LeafScheme, beneficiary: &str, token: &str, amount: &str) -> (text:
    String)
    ensures
        text@ == leaf_text(scheme, beneficiary@, token@, amount@),
{
    proof {
        reveal_strlit(":");
    }
    let mut text = String::from_str(beneficiary);
    text.append(":");
    match scheme {
        LeafScheme::Binary => {},
        LeafScheme::MultiAsset => {
            text.append(token);
            text.append(":");
        },
    }
    text.append(amount);
    assert(text@ =~= leaf_text(scheme, beneficiary@, token@, amount@));
    text
}

/// Hashes the UTF-8 bytes of `text`.
pub fn hash_text(primitive: HashPrimitive, text: &str) -> (out: [u8; 32])
    ensures
        out == spec_hash_text(primitive, text@),
{
    hash_bytes(primitive, text.as_bytes())
}

/// The Keccak-256 leaf of a multi-asset entitlement whose amount is already
/// in its canonical text form: the digest of `user_id:token:amount_str`.
pub fn hash_leaf(user_id: &str, token: &str, amount_str: &str) -> (out: [u8; 32])
    ensures
        out == spec_hash_text(
            HashPrimitive::Keccak256,
            multi_asset_text(user_id@, token@, amount_str@),
        ),
{
    let text = build_leaf_text(LeafScheme::MultiAsset, user_id, token, amount_str);
    hash_text(HashPrimitive::Keccak256, text.as_str())
}

/// The leaf digest of an entitlement under the given scheme and primitive.
/// The token is part of the leaf in the multi-asset scheme only.
pub fn leaf(
    scheme: LeafScheme,
    primitive: HashPrimitive,
    beneficiary: &str,
    token: &str,
    amount: u64,
) -> (out: [u8; 32])
    ensures
        out == spec_leaf(scheme, primitive, beneficiary@, token@, amount),
{
    let amount_str = format_amount(scheme, amount);
    let text = build_leaf_text(scheme, beneficiary, token, amount_str.as_str());
    hash_text(primitive, text.as_str())
}

} // verus!
