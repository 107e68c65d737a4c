//! Lowercase hexadecimal text for byte strings.
//!
//! The pipeline's artifacts — verifying keys, public values, raw proof
//! bytes — travel as hex text. Encoding and decoding are done by the `hex`
//! crate behind trusted wrappers; the spec functions here state exactly
//! what those calls return.

use vstd::prelude::*;

verus! {

use vstd::string::StringExecFns;

/// The lowercase hexadecimal digit for a value below 16.
pub open spec fn hex_digit(v: nat) -> char {
    if v == 0 {
        '0'
    } else if v == 1 {
        '1'
    } else if v == 2 {
        '2'
    } else if v == 3 {
        '3'
    } else if v == 4 {
        '4'
    } else if v == 5 {
        '5'
    } else if v == 6 {
        '6'
    } else if v == 7 {
        '7'
    } else if v == 8 {
        '8'
    } else if v == 9 {
        '9'
    } else if v == 10 {
        'a'
    } else if v == 11 {
        'b'
    } else if v == 12 {
        'c'
    } else if v == 13 {
        'd'
    } else if v == 14 {
        'e'
    } else {
        'f'
    }
}

/// The lowercase hex text of a byte string: two digits for each byte, the
/// high nibble first.
pub open spec fn hex_of_bytes(s: Seq<u8>) -> Seq<char> {
    Seq::new(
        s.len() * 2,
        |i: int|
            if i % 2 == 0 {
                hex_digit((s[i / 2] / 16) as nat)
            } else {
                hex_digit((s[i / 2] % 16) as nat)
            },
    )
}

/// A character that hex decoding accepts: a decimal digit or a letter
/// `a`-`f` in either case.
pub open spec fn is_hex_digit(c: char) -> bool {
    (48 <= c as int && c as int <= 57) || (97 <= c as int && c as int <= 102) || (65 <= c as int
        && c as int <= 70)
}

/// The value of a hex digit character.
pub open spec fn hex_val(c: char) -> nat {
    if 48 <= c as int && c as int <= 57 {
        (c as int - 48) as nat
    } else if 97 <= c as int && c as int <= 102 {
        (c as int - 87) as nat
    } else {
        (c as int - 55) as nat
    }
}

/// Relies on `hex::encode`: two lowercase hex digits for each input byte,
/// in input order.
#[verifier::external_body]
pub(crate) fn hex_encode(data: &Vec<u8>) -> (r: String)
    ensures
        r@ == hex_of_bytes(data@),
{
    hex::encode(data)
}

/// Relies on `hex::decode`: succeeds exactly on strings of evenly many hex
/// digits, and pairs each two digits into one byte, high nibble first.
#[verifier::external_body]
pub(crate) fn hex_decode(data: &str) -> (r: Option<Vec<u8>>)
    ensures
        (r is Some) <==> (data@.len() % 2 == 0 && (forall|i: int|
            0 <= i < data@.len() ==> is_hex_digit(#[trigger] data@[i]))),
        r matches Some(v) ==> (v@.len() == data@.len() / 2 && (forall|i: int|
            0 <= i < v@.len() ==> #[trigger] v@[i] == 16 * hex_val(data@[2 * i]) + hex_val(
                data@[2 * i + 1],
            ))),
{
    hex::decode(data).ok()
}

/// The `0x`-prefixed lowercase hex text of a byte string.
pub open spec fn prefixed_hex(s: Seq<u8>) -> Seq<char> {
    seq!['0', 'x'] + hex_of_bytes(s)
}

/// Renders a byte string as `0x`-prefixed lowercase hex text.
pub fn to_prefixed_hex(data: &Vec<u8>) -> (r: String)
    ensures
        r@ == prefixed_hex(data@),
{
    let mut s = String::from_str("0x");
    let digits = hex_encode(data);
    s.append(digits.as_str());
    proof {
        reveal_strlit("0x");
        assert(s@ =~= prefixed_hex(data@));
    }
    s
}

/// Every digit that `hex_of_bytes` writes is a hex digit, and decoding
/// inverts it: the digit pair of a byte gives the byte back.
pub proof fn lemma_hex_digit_val(v: nat)
    requires
        v < 16,
    ensures
        is_hex_digit(hex_digit(v)),
        hex_val(hex_digit(v)) == v,
{
}

/// A byte is rebuilt from its two hex digits.
pub proof fn lemma_byte_from_nibbles(b: u8)
    ensures
        16 * (b / 16) + (b % 16) == b,
        b / 16 < 16,
        b % 16 < 16,
{
    vstd::arithmetic::div_mod::lemma_fundamental_div_mod(b as int, 16);
}

} // verus!
