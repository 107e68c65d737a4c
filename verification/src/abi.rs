//! The fixed-width binary layout of the guest's committed public values.
//!
//! The guest commits `{n, a, b}` once, in the ABI-style layout its on-chain
//! decoder expects: three words of 32 bytes each, every value big-endian
//! and left-padded with zero bytes — `n` as a 32-bit value, `a` and `b` as
//! 64-bit values. The layout is bit-exact: any other byte string decodes to
//! nothing.

use vstd::prelude::*;

verus! {

use vstd::arithmetic::div_mod::{
    lemma_fundamental_div_mod,
    lemma_fundamental_div_mod_converse,
    lemma_mod_breakdown,
    lemma_small_mod,
};
use vstd::arithmetic::mul::lemma_mul_inequality;

/// The values the guest computation commits: the input index `n` and the
/// recurrence pair `(a, b)` at that index.
#[derive(Clone, Copy, Debug, PartialEq, Eq, Structural)]
pub struct PublicValuesStruct {
    /// The input index.
    pub n: u32,
    /// The term before the `n`-th, reduced modulo 2^64.
    pub a: u64,
    /// The `n`-th term, reduced modulo 2^64.
    pub b: u64,
}

/// `k` zero bytes of padding.
pub open spec fn zero_bytes(k: nat) -> Seq<u8> {
    Seq::new(k, |i: int| 0u8)
}

/// The four big-endian bytes of a 32-bit value.
pub open spec fn be_u32(v: u32) -> Seq<u8> {
    seq![
        (v / 0x1000000) as u8,
        ((v / 0x10000) % 256) as u8,
        ((v / 0x100) % 256) as u8,
        (v % 0x100) as u8,
    ]
}

/// The eight big-endian bytes of a 64-bit value.
pub open spec fn be_u64(v: u64) -> Seq<u8> {
    seq![
        (v / 0x100000000000000) as u8,
        ((v / 0x1000000000000) % 256) as u8,
        ((v / 0x10000000000) % 256) as u8,
        ((v / 0x100000000) % 256) as u8,
        ((v / 0x1000000) % 256) as u8,
        ((v / 0x10000) % 256) as u8,
        ((v / 0x100) % 256) as u8,
        (v % 0x100) as u8,
    ]
}

/// The committed byte layout: 96 bytes, one 32-byte word per field.
pub open spec fn abi_encoding(n: u32, a: u64, b: u64) -> Seq<u8> {
    zero_bytes(28) + be_u32(n) + zero_bytes(24) + be_u64(a) + zero_bytes(24) + be_u64(b)
}

/// Whether a byte string is the committed layout of some field values.
pub open spec fn is_abi_encoding(s: Seq<u8>) -> bool {
    exists|pv: PublicValuesStruct| s == abi_encoding(pv.n, pv.a, pv.b)
}

/// The layout is always exactly three 32-byte words.
pub proof fn lemma_abi_encoding_len(n: u32, a: u64, b: u64)
    ensures
        abi_encoding(n, a, b).len() == 96,
{
}

/// Encodes the public values in their committed layout.
pub fn abi_encode_public_values(pv: &PublicValuesStruct) -> (r: Vec<u8>)
    ensures
        r@ == abi_encoding(pv.n, pv.a, pv.b),
{
    let mut out: Vec<u8> = Vec::new();
    push_zero_bytes(&mut out, 28);
    push_be_u32(&mut out, pv.n);
    push_zero_bytes(&mut out, 24);
    push_be_u64(&mut out, pv.a);
    push_zero_bytes(&mut out, 24);
    push_be_u64(&mut out, pv.b);
    proof {
        assert(out@ =~= abi_encoding(pv.n, pv.a, pv.b));
    }
    out
}

fn push_zero_bytes(out: &mut Vec<u8>, k: usize)
    ensures
        final(out)@ == old(out)@ + zero_bytes(k as nat),
{
    let mut i: usize = 0;
    proof {
        assert(out@ =~= old(out)@ + zero_bytes(0));
    }
    while i < k
        invariant
            i <= k,
            out@ == old(out)@ + zero_bytes(i as nat),
        decreases k - i,
    {
        out.push(0);
        proof {
            assert(out@ =~= old(out)@ + zero_bytes((i + 1) as nat));
        }
        i = i + 1;
    }
}

fn push_be_u32(out: &mut Vec<u8>, v: u32)
    ensures
        final(out)@ == old(out)@ + be_u32(v),
{
    out.push((v / 0x1000000) as u8);
    out.push(((v / 0x10000) % 256) as u8);
    out.push(((v / 0x100) % 256) as u8);
    out.push((v % 0x100) as u8);
    proof {
        assert(out@ =~= old(out)@ + be_u32(v));
    }
}

fn push_be_u64(out: &mut Vec<u8>, v: u64)
    ensures
        final(out)@ == old(out)@ + be_u64(v),
{
    out.push((v / 0x100000000000000) as u8);
    out.push(((v / 0x1000000000000) % 256) as u8);
    out.push(((v / 0x10000000000) % 256) as u8);
    out.push(((v / 0x100000000) % 256) as u8);
    out.push(((v / 0x1000000) % 256) as u8);
    out.push(((v / 0x10000) % 256) as u8);
    out.push(((v / 0x100) % 256) as u8);
    out.push((v % 0x100) as u8);
    proof {
        assert(out@ =~= old(out)@ + be_u64(v));
    }
}

/// Decodes a committed byte string back into its field values. Returns
/// `None` exactly when the bytes are not the committed layout of any
/// values: a length other than 96 bytes, or a nonzero padding byte.
pub fn abi_decode_public_values(bytes: &Vec<u8>) -> (r: Option<PublicValuesStruct>)
    ensures
        (r is Some) <==> is_abi_encoding(bytes@),
        r matches Some(pv) ==> bytes@ == abi_encoding(pv.n, pv.a, pv.b),
{
    if bytes.len() != 96 {
        proof {
            assert forall|pv: PublicValuesStruct| bytes@ != abi_encoding(pv.n, pv.a, pv.b) by {
                assert(abi_encoding(pv.n, pv.a, pv.b).len() == 96);
            }
        }
        return None;
    }
    if !range_is_zero(bytes, 0, 28) {
        proof {
            let j = choose|j: int| 0 <= j < 28 && bytes@[j] != 0;
            assert forall|pv: PublicValuesStruct| bytes@ != abi_encoding(pv.n, pv.a, pv.b) by {
                assert(abi_encoding(pv.n, pv.a, pv.b)[j] == 0);
            }
        }
        return None;
    }
    if !range_is_zero(bytes, 32, 56) {
        proof {
            let j = choose|j: int| 32 <= j < 56 && bytes@[j] != 0;
            assert forall|pv: PublicValuesStruct| bytes@ != abi_encoding(pv.n, pv.a, pv.b) by {
                assert(abi_encoding(pv.n, pv.a, pv.b)[j] == 0);
            }
        }
        return None;
    }
    if !range_is_zero(bytes, 64, 88) {
        proof {
            let j = choose|j: int| 64 <= j < 88 && bytes@[j] != 0;
            assert forall|pv: PublicValuesStruct| bytes@ != abi_encoding(pv.n, pv.a, pv.b) by {
                assert(abi_encoding(pv.n, pv.a, pv.b)[j] == 0);
            }
        }
        return None;
    }
    let n = read_be_u32(bytes, 28);
    let a = read_be_u64(bytes, 56);
    let b = read_be_u64(bytes, 88);
    let pv = PublicValuesStruct { n, a, b };
    proof {
        assert(bytes@ =~= abi_encoding(pv.n, pv.a, pv.b));
    }
    Some(pv)
}

fn range_is_zero(bytes: &Vec<u8>, lo: usize, hi: usize) -> (ok: bool)
    requires
        lo <= hi <= bytes@.len(),
    ensures
        ok <==> (forall|j: int| lo <= j < hi ==> bytes@[j] == 0),
{
    let mut i: usize = lo;
    while i < hi
        invariant
            lo <= i <= hi <= bytes@.len(),
            forall|j: int| lo <= j < i ==> bytes@[j] == 0,
        decreases hi - i,
    {
        if bytes[i] != 0 {
            return false;
        }
        i = i + 1;
    }
    true
}

fn read_be_u32(bytes: &Vec<u8>, off: usize) -> (v: u32)
    requires
        off + 4 <= bytes@.len(),
    ensures
        be_u32(v) == bytes@.subrange(off as int, off as int + 4),
{
    let total = bytes.len();
    assert(off + 4 <= total);
    let x0 = bytes[off];
    let x1 = bytes[off + 1];
    let x2 = bytes[off + 2];
    let x3 = bytes[off + 3];
    let v: u32 = 0x1000000 * (x0 as u32) + 0x10000 * (x1 as u32) + 0x100 * (x2 as u32)
        + (x3 as u32);
    proof {
        lemma_u32_digits_of_bytes(x0, x1, x2, x3);
        assert(be_u32(v) =~= bytes@.subrange(off as int, off as int + 4));
    }
    v
}

fn read_be_u64(bytes: &Vec<u8>, off: usize) -> (v: u64)
    requires
        off + 8 <= bytes@.len(),
    ensures
        be_u64(v) == bytes@.subrange(off as int, off as int + 8),
{
    let total = bytes.len();
    assert(off + 8 <= total);
    let x0 = bytes[off];
    let x1 = bytes[off + 1];
    let x2 = bytes[off + 2];
    let x3 = bytes[off + 3];
    let x4 = bytes[off + 4];
    let x5 = bytes[off + 5];
    let x6 = bytes[off + 6];
    let x7 = bytes[off + 7];
    let v: u64 = 0x100000000000000 * (x0 as u64) + 0x1000000000000 * (x1 as u64)
        + 0x10000000000 * (x2 as u64) + 0x100000000 * (x3 as u64) + 0x1000000 * (x4 as u64)
        + 0x10000 * (x5 as u64) + 0x100 * (x6 as u64) + (x7 as u64);
    proof {
        lemma_u64_digits_of_bytes(x0, x1, x2, x3, x4, x5, x6, x7);
        assert(be_u64(v) =~= bytes@.subrange(off as int, off as int + 8));
    }
    v
}

/// The big-endian digits of a value assembled from four bytes are those
/// bytes again.
proof fn lemma_u32_digits_of_bytes(x0: u8, x1: u8, x2: u8, x3: u8)
    ensures
        ({
            let v = 0x1000000 * (x0 as int) + 0x10000 * (x1 as int) + 0x100 * (x2 as int) + (
            x3 as int);
            &&& v < 0x100000000
            &&& v / 0x1000000 == x0 as int
            &&& (v / 0x10000) % 256 == x1 as int
            &&& (v / 0x100) % 256 == x2 as int
            &&& v % 0x100 == x3 as int
        }),
{
    let v = 0x1000000 * (x0 as int) + 0x10000 * (x1 as int) + 0x100 * (x2 as int) + (x3 as int);
    lemma_fundamental_div_mod_converse(
        v,
        0x1000000,
        x0 as int,
        0x10000 * (x1 as int) + 0x100 * (x2 as int) + (x3 as int),
    );
    lemma_fundamental_div_mod_converse(
        v,
        0x10000,
        0x100 * (x0 as int) + (x1 as int),
        0x100 * (x2 as int) + (x3 as int),
    );
    lemma_fundamental_div_mod_converse(0x100 * (x0 as int) + (x1 as int), 256, x0 as int, x1 as int);
    lemma_fundamental_div_mod_converse(
        v,
        0x100,
        0x10000 * (x0 as int) + 0x100 * (x1 as int) + (x2 as int),
        x3 as int,
    );
    lemma_fundamental_div_mod_converse(
        0x10000 * (x0 as int) + 0x100 * (x1 as int) + (x2 as int),
        256,
        0x100 * (x0 as int) + (x1 as int),
        x2 as int,
    );
}

/// The big-endian digits of a value assembled from eight bytes are those
/// bytes again.
proof fn lemma_u64_digits_of_bytes(x0: u8, x1: u8, x2: u8, x3: u8, x4: u8, x5: u8, x6: u8, x7: u8)
    ensures
        ({
            let v = 0x100000000000000 * (x0 as int) + 0x1000000000000 * (x1 as int)
                + 0x10000000000 * (x2 as int) + 0x100000000 * (x3 as int) + 0x1000000 * (x4 as int)
                + 0x10000 * (x5 as int) + 0x100 * (x6 as int) + (x7 as int);
            &&& v < 0x10000000000000000
            &&& v / 0x100000000000000 == x0 as int
            &&& (v / 0x1000000000000) % 256 == x1 as int
            &&& (v / 0x10000000000) % 256 == x2 as int
            &&& (v / 0x100000000) % 256 == x3 as int
            &&& (v / 0x1000000) % 256 == x4 as int
            &&& (v / 0x10000) % 256 == x5 as int
            &&& (v / 0x100) % 256 == x6 as int
            &&& v % 0x100 == x7 as int
        }),
{
    let d1 = 0x100 * (x0 as int) + (x1 as int);
    let d2 = 0x100 * d1 + (x2 as int);
    let d3 = 0x100 * d2 + (x3 as int);
    let d4 = 0x100 * d3 + (x4 as int);
    let d5 = 0x100 * d4 + (x5 as int);
    let d6 = 0x100 * d5 + (x6 as int);
    let v = 0x100 * d6 + (x7 as int);
    lemma_fundamental_div_mod_converse(v, 0x100000000000000, x0 as int, v - 0x100000000000000 * (
    x0 as int));
    lemma_fundamental_div_mod_converse(v, 0x1000000000000, d1, v - 0x1000000000000 * d1);
    lemma_fundamental_div_mod_converse(d1, 256, x0 as int, x1 as int);
    lemma_fundamental_div_mod_converse(v, 0x10000000000, d2, v - 0x10000000000 * d2);
    lemma_fundamental_div_mod_converse(d2, 256, d1, x2 as int);
    lemma_fundamental_div_mod_converse(v, 0x100000000, d3, v - 0x100000000 * d3);
    lemma_fundamental_div_mod_converse(d3, 256, d2, x3 as int);
    lemma_fundamental_div_mod_converse(v, 0x1000000, d4, v - 0x1000000 * d4);
    lemma_fundamental_div_mod_converse(d4, 256, d3, x4 as int);
    lemma_fundamental_div_mod_converse(v, 0x10000, d5, v - 0x10000 * d5);
    lemma_fundamental_div_mod_converse(d5, 256, d4, x5 as int);
    lemma_fundamental_div_mod_converse(v, 0x100, d6, x7 as int);
    lemma_fundamental_div_mod_converse(d6, 256, d5, x6 as int);
}

/// A 32-bit value is rebuilt from its big-endian digits.
proof fn lemma_u32_reconstruct(v: u32)
    ensures
        v as int == 0x1000000 * ((v as int) / 0x1000000) + 0x10000 * (((v as int) / 0x10000) % 256)
            + 0x100 * (((v as int) / 0x100) % 256) + (v as int) % 0x100,
        (v as int) / 0x1000000 < 256,
{
    let x = v as int;
    lemma_small_mod(v as nat, 0x100000000);
    lemma_mod_breakdown(x, 0x1000000, 256);
    lemma_mod_breakdown(x, 0x10000, 256);
    lemma_mod_breakdown(x, 0x100, 256);
    lemma_fundamental_div_mod(x, 0x1000000);
    if x / 0x1000000 >= 256 {
        lemma_mul_inequality(256, x / 0x1000000, 0x1000000);
    }
    lemma_small_mod((x / 0x1000000) as nat, 256);
}

/// A 64-bit value is rebuilt from its big-endian digits.
proof fn lemma_u64_reconstruct(v: u64)
    ensures
        v as int == 0x100000000000000 * ((v as int) / 0x100000000000000) + 0x1000000000000 * (((
        v as int) / 0x1000000000000) % 256) + 0x10000000000 * (((v as int) / 0x10000000000) % 256)
            + 0x100000000 * (((v as int) / 0x100000000) % 256) + 0x1000000 * (((v as int)
            / 0x1000000) % 256) + 0x10000 * (((v as int) / 0x10000) % 256) + 0x100 * (((v as int)
            / 0x100) % 256) + (v as int) % 0x100,
        (v as int) / 0x100000000000000 < 256,
{
    let x = v as int;
    lemma_small_mod(v as nat, 0x10000000000000000);
    lemma_mod_breakdown(x, 0x100000000000000, 256);
    lemma_mod_breakdown(x, 0x1000000000000, 256);
    lemma_mod_breakdown(x, 0x10000000000, 256);
    lemma_mod_breakdown(x, 0x100000000, 256);
    lemma_mod_breakdown(x, 0x1000000, 256);
    lemma_mod_breakdown(x, 0x10000, 256);
    lemma_mod_breakdown(x, 0x100, 256);
    lemma_fundamental_div_mod(x, 0x100000000000000);
    if x / 0x100000000000000 >= 256 {
        lemma_mul_inequality(256, x / 0x100000000000000, 0x100000000000000);
    }
    lemma_small_mod((x / 0x100000000000000) as nat, 256);
}

/// Equal digit quadruples come only from equal 32-bit values.
proof fn lemma_be_u32_injective(v1: u32, v2: u32)
    requires
        be_u32(v1) == be_u32(v2),
    ensures
        v1 == v2,
{
    lemma_u32_reconstruct(v1);
    lemma_u32_reconstruct(v2);
    assert(be_u32(v1)[0] == be_u32(v2)[0]);
    assert(be_u32(v1)[1] == be_u32(v2)[1]);
    assert(be_u32(v1)[2] == be_u32(v2)[2]);
    assert(be_u32(v1)[3] == be_u32(v2)[3]);
}

/// Equal digit octets come only from equal 64-bit values.
proof fn lemma_be_u64_injective(v1: u64, v2: u64)
    requires
        be_u64(v1) == be_u64(v2),
    ensures
        v1 == v2,
{
    lemma_u64_reconstruct(v1);
    lemma_u64_reconstruct(v2);
    assert(be_u64(v1)[0] == be_u64(v2)[0]);
    assert(be_u64(v1)[1] == be_u64(v2)[1]);
    assert(be_u64(v1)[2] == be_u64(v2)[2]);
    assert(be_u64(v1)[3] == be_u64(v2)[3]);
    assert(be_u64(v1)[4] == be_u64(v2)[4]);
    assert(be_u64(v1)[5] == be_u64(v2)[5]);
    assert(be_u64(v1)[6] == be_u64(v2)[6]);
    assert(be_u64(v1)[7] == be_u64(v2)[7]);
}

/// The digit words stand at fixed places inside the layout.
proof fn lemma_abi_encoding_words(n: u32, a: u64, b: u64)
    ensures
        abi_encoding(n, a, b).subrange(28, 32) == be_u32(n),
        abi_encoding(n, a, b).subrange(56, 64) == be_u64(a),
        abi_encoding(n, a, b).subrange(88, 96) == be_u64(b),
{
    assert(abi_encoding(n, a, b).subrange(28, 32) =~= be_u32(n));
    assert(abi_encoding(n, a, b).subrange(56, 64) =~= be_u64(a));
    assert(abi_encoding(n, a, b).subrange(88, 96) =~= be_u64(b));
}

/// Two field-value triples with the same committed layout are the same
/// triple: the layout loses nothing.
pub proof fn lemma_abi_encoding_injective(n1: u32, a1: u64, b1: u64, n2: u32, a2: u64, b2: u64)
    requires
        abi_encoding(n1, a1, b1) == abi_encoding(n2, a2, b2),
    ensures
        n1 == n2,
        a1 == a2,
        b1 == b2,
{
    lemma_abi_encoding_words(n1, a1, b1);
    lemma_abi_encoding_words(n2, a2, b2);
    lemma_be_u32_injective(n1, n2);
    lemma_be_u64_injective(a1, a2);
    lemma_be_u64_injective(b1, b2);
}

} // verus!
