use vstd::prelude::*;

use vstd::arithmetic::power::pow;

verus! {

/// The character of a five-bit value in Crockford's base 32: the digits, then the
/// capital letters without I, L, O and U.
pub open spec fn crockford_char(d: int) -> char {
    if d < 10 {
        (48 + d) as char
    } else if d < 18 {
        (65 + d - 10) as char
    } else if d < 20 {
        (74 + d - 18) as char
    } else if d < 22 {
        (77 + d - 20) as char
    } else if d < 27 {
        (80 + d - 22) as char
    } else {
        (86 + d - 27) as char
    }
}

/// The five-bit value of a character of identifier text: a digit, or a letter of the
/// alphabet in either case; nothing for any other character.
pub open spec fn crockford_digit(c: char) -> Option<int> {
    let u = if 97 <= c as int <= 122 { c as int - 32 } else { c as int };
    if 48 <= c as int <= 57 {
        Some(c as int - 48)
    } else if 65 <= u <= 72 {
        Some(u - 65 + 10)
    } else if 74 <= u <= 75 {
        Some(u - 74 + 18)
    } else if 77 <= u <= 78 {
        Some(u - 77 + 20)
    } else if 80 <= u <= 84 {
        Some(u - 80 + 22)
    } else if 86 <= u <= 90 {
        Some(u - 86 + 27)
    } else {
        None
    }
}

/// The text of an identifier: 26 characters, each encoding five bits, most significant first.
pub open spec fn ulid_text(v: u128) -> Seq<char> {
    Seq::new(26, |i: int| crockford_char((v as int / pow(32, (25 - i) as nat)) % 32))
}

/// The value that identifier text denotes: five bits per character, shifted in from the
/// right and kept to 128 bits.
pub open spec fn ulid_value(s: Seq<char>) -> int
    decreases s.len(),
{
    if s.len() == 0 {
        0
    } else {
        (ulid_value(s.drop_last()) * 32 % 0x1_0000_0000_0000_0000_0000_0000_0000_0000int) + crockford_digit(
            s.last(),
        )->0
    }
}

/// Whether `s` is identifier text: 26 identifier characters.
pub open spec fn is_ulid_text(s: Seq<char>) -> bool {
    s.len() == 26 && forall|i: int| 0 <= i < s.len() ==> (#[trigger] crockford_digit(s[i])) is Some
}

/// A new identifier from the current time and random bits (`ulid::Ulid::new`); nothing is
/// stated of its value, which depends on the clock and on chance.
#[verifier::external_body]
pub(crate) fn new_ulid() -> (id: u128) {
    ulid::Ulid::new().0
}

/// The text of an identifier (`ulid::Ulid::to_string`): 26 characters of Crockford's base
/// 32, most significant first, as the crate's encoder writes them.
#[verifier::external_body]
pub(crate) fn ulid_to_string(id: u128) -> (s: String)
    ensures
        s@ == ulid_text(id),
{
    ulid::Ulid(id).to_string()
}

/// The identifier that `s` denotes, if it is identifier text (`ulid::Ulid::from_string`):
/// it succeeds exactly on 26 characters of the alphabet, in either case, and keeps the low
/// 128 bits of the value; the decode error, which no caller reads, is dropped.
#[verifier::external_body]
pub(crate) fn ulid_from_string(s: &str) -> (r: Option<u128>)
    ensures
        r is Some <==> is_ulid_text(s@),
        r matches Some(v) ==> v as int == ulid_value(s@),
{
    match ulid::Ulid::from_string(s) {
        Ok(u) => Some(u.0),
        Err(_) => None,
    }
}

/// Each five-bit value's character decodes to that value.
proof fn lemma_char_decodes(d: int)
    requires
        0 <= d < 32,
    ensures
        crockford_digit(crockford_char(d)) == Some(d),
{
}

/// The value of the first `n` characters of an identifier's text is the identifier
/// without its last `26 - n` digits.
proof fn lemma_prefix_value(v: u128, n: nat)
    requires
        n <= 26,
    ensures
        ulid_value(ulid_text(v).subrange(0, n as int)) == v as int / pow(32, (26 - n) as nat),
    decreases n,
{
    let t = ulid_text(v);
    if n == 0 {
        assert(t.subrange(0, 0) =~= Seq::<char>::empty());
        assert(pow(32, 26) == 0x4_0000_0000_0000_0000_0000_0000_0000_0000int) by {
            reveal_with_fuel(pow, 27);
        }
        vstd::arithmetic::div_mod::lemma_basic_div(v as int, pow(32, 26));
    } else {
        lemma_prefix_value(v, (n - 1) as nat);
        let s = t.subrange(0, n as int);
        assert(s.drop_last() =~= t.subrange(0, n - 1));
        let a = pow(32, (26 - n) as nat);
        vstd::arithmetic::power::lemma_pow_positive(32, (26 - n) as nat);
        assert(pow(32, (27 - n) as nat) == 32 * a) by {
            reveal(pow);
        }
        let x = v as int / a;
        let d = x % 32;
        assert(s.last() == crockford_char(d));
        lemma_char_decodes(d);
        vstd::arithmetic::div_mod::lemma_div_denominator(v as int, a, 32);
        assert(a * 32 == 32 * a) by (nonlinear_arith);
        let q = v as int / pow(32, (27 - n) as nat);
        assert(q == x / 32);
        vstd::arithmetic::div_mod::lemma_fundamental_div_mod(x, 32);
        vstd::arithmetic::div_mod::lemma_div_is_ordered_by_denominator(v as int, 1, a);
        assert(x <= v);
        assert(q * 32 <= x);
        vstd::arithmetic::div_mod::lemma_small_mod(
            (q * 32) as nat,
            0x1_0000_0000_0000_0000_0000_0000_0000_0000nat,
        );
    }
}

/// The text of an identifier is identifier text, and it denotes that identifier.
pub proof fn lemma_ulid_roundtrip(v: u128)
    ensures
        is_ulid_text(ulid_text(v)),
        ulid_value(ulid_text(v)) == v,
{
    let t = ulid_text(v);
    assert forall|i: int| 0 <= i < t.len() implies (#[trigger] crockford_digit(t[i])) is Some by {
        let a = pow(32, (25 - i) as nat);
        vstd::arithmetic::power::lemma_pow_positive(32, (25 - i) as nat);
        let d = (v as int / a) % 32;
        assert(t[i] == crockford_char(d));
        lemma_char_decodes(d);
    }
    lemma_prefix_value(v, 26);
    assert(t.subrange(0, 26) =~= t);
    assert(pow(32, 0) == 1) by {
        reveal(pow);
    }
}

} // verus!
