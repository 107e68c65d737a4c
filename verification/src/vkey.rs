//! The program's identity: a 32-byte verifying key and its canonical text.
//!
//! A verifying key is a fixed-size hash-like value derived once per guest
//! program by the proving system's setup step. It travels as canonical
//! text: `0x` followed by 64 lowercase hex digits. Parsing accepts digits
//! of either case, as the hex decoder does; printing always yields the
//! canonical lowercase form.

use vstd::prelude::*;

verus! {

use vstd::string::StrSliceExecFns;
use crate::hexcodec::{
    hex_of_bytes,
    prefixed_hex,
    to_prefixed_hex,
    is_hex_digit,
    hex_val,
    hex_decode,
    lemma_hex_digit_val,
    lemma_byte_from_nibbles,
};

/// A 32-byte program verifying key.
pub struct VerifyingKey {
    bytes: Vec<u8>,
}

impl View for VerifyingKey {
    type V = Seq<u8>;

    closed spec fn view(&self) -> Seq<u8> {
        self.bytes@
    }
}

/// The canonical text of a key: `0x` and two lowercase digits per byte.
pub open spec fn vkey_hex(k: Seq<u8>) -> Seq<char> {
    prefixed_hex(k)
}

/// Whether a character string is acceptable key text: `0x`, then 64 hex
/// digits of either case.
pub open spec fn is_vkey_text(t: Seq<char>) -> bool {
    &&& t.len() == 66
    &&& t[0] == '0'
    &&& t[1] == 'x'
    &&& forall|j: int| 2 <= j < 66 ==> is_hex_digit(#[trigger] t[j])
}

impl VerifyingKey {
    /// A key holds exactly 32 bytes.
    pub closed spec fn wf(&self) -> bool {
        self.bytes@.len() == 32
    }

    /// Wraps 32 raw key bytes.
    pub fn from_bytes(bytes: Vec<u8>) -> (r: VerifyingKey)
        requires
            bytes@.len() == 32,
        ensures
            r.wf(),
            r@ == bytes@,
    {
        VerifyingKey { bytes }
    }

    /// The raw key bytes, as the calldata conversion consumes them.
    pub fn as_bytes(&self) -> (r: &Vec<u8>)
        ensures
            r@ == self@,
    {
        &self.bytes
    }

    /// Renders the canonical text of the key.
    pub fn to_hex(&self) -> (r: String)
        requires
            self.wf(),
        ensures
            r@ == vkey_hex(self@),
    {
        to_prefixed_hex(&self.bytes)
    }

    /// Parses key text. Returns `None` exactly when the text is not `0x`
    /// followed by 64 hex digits; otherwise the key's bytes are the digit
    /// pairs of the text.
    pub fn from_hex(text: &str) -> (r: Option<VerifyingKey>)
        ensures
            (r is Some) <==> is_vkey_text(text@),
            r matches Some(k) ==> (k.wf() && k@.len() == 32 && (forall|i: int|
                0 <= i < 32 ==> #[trigger] k@[i] == 16 * hex_val(text@[2 + 2 * i]) + hex_val(
                    text@[3 + 2 * i],
                ))),
    {
        let len = text.unicode_len();
        if len != 66 {
            return None;
        }
        let c0 = text.get_char(0);
        let c1 = text.get_char(1);
        if c0 != '0' || c1 != 'x' {
            return None;
        }
        let body = text.substring_char(2, 66);
        match hex_decode(body) {
            None => {
                proof {
                    assert(body@.len() == 64);
                    assert(body@.len() % 2 == 0);
                    assert(exists|j: int| 0 <= j < body@.len() && !is_hex_digit(#[trigger] body@[j]));
                    let j = choose|j: int| 0 <= j < body@.len() && !is_hex_digit(#[trigger] body@[j]);
                    assert(body@[j] == text@[j + 2]);
                    assert(!is_hex_digit(text@[j + 2]));
                }
                None
            },
            Some(v) => {
                proof {
                    assert forall|j: int| 2 <= j < 66 implies is_hex_digit(#[trigger] text@[j]) by {
                        assert(body@[j - 2] == text@[j]);
                        assert(is_hex_digit(body@[j - 2]));
                    }
                    assert forall|i: int| 0 <= i < 32 implies #[trigger] v@[i] == 16 * hex_val(
                        text@[2 + 2 * i],
                    ) + hex_val(text@[3 + 2 * i]) by {
                        assert(body@[2 * i] == text@[2 + 2 * i]);
                        assert(body@[2 * i + 1] == text@[3 + 2 * i]);
                    }
                }
                Some(VerifyingKey { bytes: v })
            },
        }
    }
}

/// The canonical text of a 32-byte key is acceptable key text, and its
/// digit pairs give the key's bytes back: printing a key and parsing the
/// text loses nothing.
pub proof fn lemma_canonical_hex_round_trip(k: Seq<u8>)
    requires
        k.len() == 32,
    ensures
        is_vkey_text(vkey_hex(k)),
        forall|i: int|
            0 <= i < 32 ==> 16 * hex_val(#[trigger] vkey_hex(k)[2 + 2 * i]) + hex_val(
                vkey_hex(k)[3 + 2 * i],
            ) == k[i],
{
    assert forall|j: int| 2 <= j < 66 implies is_hex_digit(#[trigger] vkey_hex(k)[j]) by {
        let p = j - 2;
        lemma_byte_from_nibbles(k[p / 2]);
        if p % 2 == 0 {
            lemma_hex_digit_val((k[p / 2] / 16) as nat);
        } else {
            lemma_hex_digit_val((k[p / 2] % 16) as nat);
        }
    }
    assert forall|i: int|
        0 <= i < 32 implies 16 * hex_val(#[trigger] vkey_hex(k)[2 + 2 * i]) + hex_val(
        vkey_hex(k)[3 + 2 * i],
    ) == k[i] by {
        lemma_byte_from_nibbles(k[i]);
        lemma_hex_digit_val((k[i] / 16) as nat);
        lemma_hex_digit_val((k[i] % 16) as nat);
        vstd::arithmetic::div_mod::lemma_fundamental_div_mod_converse(2 * i, 2, i, 0);
        vstd::arithmetic::div_mod::lemma_fundamental_div_mod_converse(2 * i + 1, 2, i, 1);
        assert(vkey_hex(k)[2 + 2 * i] == hex_of_bytes(k)[2 * i]);
        assert(vkey_hex(k)[3 + 2 * i] == hex_of_bytes(k)[2 * i + 1]);
    }
}

} // verus!
