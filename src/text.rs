//! Textual forms of an identifier: 32 hex digits, optionally grouped 8-4-4-4-12
//! with hyphens, in lower or upper case.
use vstd::prelude::*;

verus! {

/// The hex digit for the nibble `n`.
pub open spec fn hex_digit(n: int, upper: bool) -> char {
    if n < 10 {
        (48 + n) as char
    } else if upper {
        (55 + n) as char
    } else {
        (87 + n) as char
    }
}

/// The nibble that position `i` of the compact form of `b` shows.
pub open spec fn nibble_at(b: Seq<u8>, i: int) -> int {
    if i % 2 == 0 {
        b[i / 2] as int / 16
    } else {
        b[i / 2] as int % 16
    }
}

/// The compact form: two hex digits per byte, high nibble first.
pub open spec fn simple_text(b: Seq<u8>, upper: bool) -> Seq<char> {
    Seq::new(32, |i: int| hex_digit(nibble_at(b, i), upper))
}

/// Whether position `p` of the hyphenated form holds a hyphen.
pub open spec fn is_hyphen_pos(p: int) -> bool {
    p == 8 || p == 13 || p == 18 || p == 23
}

/// How many hyphens stand before position `p` of the hyphenated form.
pub open spec fn hyphens_before(p: int) -> int {
    (if p > 8 {
        1int
    } else {
        0
    }) + (if p > 13 {
        1int
    } else {
        0
    }) + (if p > 18 {
        1int
    } else {
        0
    }) + (if p > 23 {
        1int
    } else {
        0
    })
}

/// The hyphenated form: the compact form with hyphens at positions 8, 13, 18 and 23.
pub open spec fn hyphenated_text(b: Seq<u8>, upper: bool) -> Seq<char> {
    Seq::new(
        36,
        |p: int|
            if is_hyphen_pos(p) {
                '-'
            } else {
                simple_text(b, upper)[p - hyphens_before(p)]
            },
    )
}

/// Relies on uuid's `Display` for `Hyphenated`: lower-case hex digits in
/// 8-4-4-4-12 groups joined by hyphens.
#[verifier::external_body]
pub(crate) fn hyphenated_lower(bytes: [u8; 16]) -> (r: String)
    ensures
        r@ == hyphenated_text(bytes@, false),
{
    uuid::Uuid::from_bytes(bytes).hyphenated().to_string()
}

/// Relies on uuid's `Display` for `Simple`: 32 lower-case hex digits.
#[verifier::external_body]
pub(crate) fn simple_lower(bytes: [u8; 16]) -> (r: String)
    ensures
        r@ == simple_text(bytes@, false),
{
    uuid::Uuid::from_bytes(bytes).simple().to_string()
}

/// Relies on uuid's `Hyphenated::encode_upper`: upper-case hex digits in
/// 8-4-4-4-12 groups joined by hyphens.
#[verifier::external_body]
pub(crate) fn hyphenated_upper(bytes: [u8; 16]) -> (r: String)
    ensures
        r@ == hyphenated_text(bytes@, true),
{
    let mut buffer = uuid::Uuid::encode_buffer();
    uuid::Uuid::from_bytes(bytes).hyphenated().encode_upper(&mut buffer).to_string()
}

/// Relies on uuid's `Simple::encode_upper`: 32 upper-case hex digits.
#[verifier::external_body]
pub(crate) fn simple_upper(bytes: [u8; 16]) -> (r: String)
    ensures
        r@ == simple_text(bytes@, true),
{
    let mut buffer = uuid::Uuid::encode_buffer();
    uuid::Uuid::from_bytes(bytes).simple().encode_upper(&mut buffer).to_string()
}

/// The character code of each hex digit.
pub proof fn lemma_digit_chars(n: int, upper: bool)
    requires
        0 <= n < 16,
    ensures
        n < 10 ==> hex_digit(n, upper) as int == 48 + n,
        n >= 10 && upper ==> hex_digit(n, upper) as int == 55 + n,
        n >= 10 && !upper ==> hex_digit(n, upper) as int == 87 + n,
{
}

/// Hex digits are ordered as the nibbles they stand for, in either case.
pub proof fn lemma_digit_order(n1: int, n2: int, upper: bool)
    requires
        0 <= n1 < n2 < 16,
    ensures
        (hex_digit(n1, upper) as u32) < (hex_digit(n2, upper) as u32),
{
    lemma_digit_chars(n1, upper);
    lemma_digit_chars(n2, upper);
}

/// Each nibble of 16 bytes is below 16.
pub proof fn lemma_nibble_range(b: Seq<u8>, i: int)
    requires
        b.len() == 16,
        0 <= i < 32,
    ensures
        0 <= nibble_at(b, i) < 16,
{
}

} // verus!
