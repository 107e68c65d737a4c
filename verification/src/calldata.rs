//! Rendering a calldata bundle as line-oriented hex text.
//!
//! The curve-specific conversion yields an ordered sequence of large
//! unsigned integers; the on-chain caller loads them from a text file with
//! one `0x`-prefixed lowercase hex integer per line and a trailing
//! newline. Each integer is carried here as its big-endian bytes, and its
//! text is the minimal hex form of its value: no leading zero digits, and
//! a single `0` for zero.

use vstd::prelude::*;

verus! {

use vstd::arithmetic::div_mod::{lemma_fundamental_div_mod, lemma_fundamental_div_mod_converse};
use vstd::string::StringExecFns;
use crate::hexcodec::hex_digit;

/// The unsigned value of big-endian bytes.
pub open spec fn be_val(s: Seq<u8>) -> nat
    decreases s.len(),
{
    if s.len() == 0 {
        0
    } else {
        be_val(s.drop_last()) * 256 + (s.last() as nat)
    }
}

/// The minimal lowercase hex text of a value.
pub open spec fn hex_of_nat(v: nat) -> Seq<char>
    decreases v,
{
    if v < 16 {
        seq![hex_digit(v)]
    } else {
        hex_of_nat(v / 16) + seq![hex_digit(v % 16)]
    }
}

/// One line of the calldata file: `0x`, the element's value in minimal
/// hex, and a newline.
pub open spec fn calldata_line(e: Seq<u8>) -> Seq<char> {
    seq!['0', 'x'] + hex_of_nat(be_val(e)) + seq!['\n']
}

/// The elements' lines, in order.
pub open spec fn calldata_lines(elems: Seq<Seq<u8>>) -> Seq<char>
    decreases elems.len(),
{
    if elems.len() == 0 {
        Seq::empty()
    } else {
        calldata_lines(elems.drop_last()) + calldata_line(elems.last())
    }
}

/// The whole calldata file: the elements joined line by line, with one
/// newline closing the file. An empty bundle still closes the file, so it
/// renders as a single newline.
pub open spec fn calldata_text(elems: Seq<Seq<u8>>) -> Seq<char> {
    if elems.len() == 0 {
        seq!['\n']
    } else {
        calldata_lines(elems)
    }
}

/// Appending a byte multiplies the value by 256 and adds the byte.
pub proof fn lemma_be_val_push(s: Seq<u8>, b: u8)
    ensures
        be_val(s.push(b)) == be_val(s) * 256 + b,
{
    assert(s.push(b).drop_last() =~= s);
}

/// A leading zero byte does not change the value.
pub proof fn lemma_be_val_leading_zero(s: Seq<u8>)
    requires
        s.len() > 0,
        s[0] == 0,
    ensures
        be_val(s) == be_val(s.drop_first()),
    decreases s.len(),
{
    if s.len() == 1 {
        assert(be_val(s.drop_last()) == 0);
        assert(be_val(s.drop_first()) == 0);
    } else {
        lemma_be_val_leading_zero(s.drop_last());
        assert(s.drop_last().drop_first() =~= s.drop_first().drop_last());
    }
}

/// All-zero bytes have value zero.
pub proof fn lemma_be_val_zeros(s: Seq<u8>)
    requires
        forall|i: int| 0 <= i < s.len() ==> s[i] == 0,
    ensures
        be_val(s) == 0,
    decreases s.len(),
{
    if s.len() > 0 {
        lemma_be_val_zeros(s.drop_last());
    }
}

/// Bytes that start with a nonzero byte have a positive value.
pub proof fn lemma_be_val_first_nonzero(s: Seq<u8>)
    requires
        s.len() > 0,
        s[0] != 0,
    ensures
        be_val(s) >= 1,
    decreases s.len(),
{
    if s.len() > 1 {
        lemma_be_val_first_nonzero(s.drop_last());
        vstd::arithmetic::mul::lemma_mul_inequality(1, be_val(s.drop_last()) as int, 256);
    }
}

/// Shifting a positive value a byte to the left appends that byte's two
/// hex digits to the text.
proof fn lemma_hex_of_nat_push_byte(v: nat, b: u8)
    requires
        v >= 1,
    ensures
        hex_of_nat(v * 256 + (b as nat)) == hex_of_nat(v) + seq![
            hex_digit((b / 16) as nat),
            hex_digit((b % 16) as nat),
        ],
{
    let n: int = v * 256 + b;
    let m: int = v * 16 + b / 16;
    lemma_fundamental_div_mod(b as int, 16);
    lemma_fundamental_div_mod_converse(n, 16, m, (b % 16) as int);
    lemma_fundamental_div_mod_converse(m, 16, v as int, (b / 16) as int);
    assert(hex_of_nat(n as nat) == hex_of_nat(m as nat) + seq![hex_digit((b % 16) as nat)]);
    assert(hex_of_nat(m as nat) == hex_of_nat(v) + seq![hex_digit((b / 16) as nat)]);
    assert(hex_of_nat(v) + seq![hex_digit((b / 16) as nat)] + seq![hex_digit((b % 16) as nat)]
        =~= hex_of_nat(v) + seq![hex_digit((b / 16) as nat), hex_digit((b % 16) as nat)]);
}

/// The single hex digit for a value below 16, as borrowed text.
fn hex_digit_str(v: u8) -> (r: &'static str)
    requires
        v < 16,
    ensures
        r@ == seq![hex_digit(v as nat)],
{
    if v == 0 {
        proof {
            reveal_strlit("0");
            assert("0"@ =~= seq![hex_digit(0)]);
        }
        "0"
    } else if v == 1 {
        proof {
            reveal_strlit("1");
            assert("1"@ =~= seq![hex_digit(1)]);
        }
        "1"
    } else if v == 2 {
        proof {
            reveal_strlit("2");
            assert("2"@ =~= seq![hex_digit(2)]);
        }
        "2"
    } else if v == 3 {
        proof {
            reveal_strlit("3");
            assert("3"@ =~= seq![hex_digit(3)]);
        }
        "3"
    } else if v == 4 {
        proof {
            reveal_strlit("4");
            assert("4"@ =~= seq![hex_digit(4)]);
        }
        "4"
    } else if v == 5 {
        proof {
            reveal_strlit("5");
            assert("5"@ =~= seq![hex_digit(5)]);
        }
        "5"
    } else if v == 6 {
        proof {
            reveal_strlit("6");
            assert("6"@ =~= seq![hex_digit(6)]);
        }
        "6"
    } else if v == 7 {
        proof {
            reveal_strlit("7");
            assert("7"@ =~= seq![hex_digit(7)]);
        }
        "7"
    } else if v == 8 {
        proof {
            reveal_strlit("8");
            assert("8"@ =~= seq![hex_digit(8)]);
        }
        "8"
    } else if v == 9 {
        proof {
            reveal_strlit("9");
            assert("9"@ =~= seq![hex_digit(9)]);
        }
        "9"
    } else if v == 10 {
        proof {
            reveal_strlit("a");
            assert("a"@ =~= seq![hex_digit(10)]);
        }
        "a"
    } else if v == 11 {
        proof {
            reveal_strlit("b");
            assert("b"@ =~= seq![hex_digit(11)]);
        }
        "b"
    } else if v == 12 {
        proof {
            reveal_strlit("c");
            assert("c"@ =~= seq![hex_digit(12)]);
        }
        "c"
    } else if v == 13 {
        proof {
            reveal_strlit("d");
            assert("d"@ =~= seq![hex_digit(13)]);
        }
        "d"
    } else if v == 14 {
        proof {
            reveal_strlit("e");
            assert("e"@ =~= seq![hex_digit(14)]);
        }
        "e"
    } else {
        proof {
            reveal_strlit("f");
            assert("f"@ =~= seq![hex_digit(15)]);
        }
        "f"
    }
}

/// Appends the minimal hex text of an element's value.
fn append_hex_of_element(s: &mut String, e: &Vec<u8>)
    ensures
        final(s)@ == old(s)@ + hex_of_nat(be_val(e@)),
{
    let len = e.len();
    let mut fz: usize = 0;
    proof {
        assert(e@.subrange(0, len as int) =~= e@);
    }
    while fz < len && e[fz] == 0
        invariant
            fz <= len == e@.len(),
            forall|j: int| 0 <= j < fz ==> e@[j] == 0,
            be_val(e@.subrange(fz as int, len as int)) == be_val(e@),
        decreases len - fz,
    {
        proof {
            let tail = e@.subrange(fz as int, len as int);
            if e@[fz as int] == 0 {
                lemma_be_val_leading_zero(tail);
                assert(tail.drop_first() =~= e@.subrange(fz as int + 1, len as int));
            }
        }
        fz = fz + 1;
    }
    if fz == len {
        proof {
            lemma_be_val_zeros(e@);
            assert(hex_of_nat(0) =~= seq![hex_digit(0)]);
        }
        let d = hex_digit_str(0);
        s.append(d);
        return ;
    }
    let first = e[fz];
    if first >= 16 {
        proof {
            lemma_fundamental_div_mod_converse(
                first as int,
                16,
                first as int / 16,
                first as int % 16,
            );
            assert(first / 16 >= 1 && first / 16 < 16) by {
                lemma_fundamental_div_mod(first as int, 16);
            }
        }
        let d = hex_digit_str(first / 16);
        s.append(d);
        let d2 = hex_digit_str(first % 16);
        s.append(d2);
        proof {
            assert(hex_of_nat(first as nat) == hex_of_nat(first as nat / 16) + seq![
                hex_digit(first as nat % 16),
            ]);
            assert(hex_of_nat(first as nat / 16) =~= seq![hex_digit(first as nat / 16)]);
            assert(s@ =~= old(s)@ + hex_of_nat(first as nat));
        }
    } else {
        let d = hex_digit_str(first);
        s.append(d);
        proof {
            assert(hex_of_nat(first as nat) =~= seq![hex_digit(first as nat)]);
        }
    }
    let mut i: usize = fz + 1;
    proof {
        assert(e@.subrange(fz as int, fz as int + 1) =~= seq![e@[fz as int]]);
        assert(be_val(seq![e@[fz as int]]) == first) by {
            assert(seq![e@[fz as int]].drop_last() =~= Seq::<u8>::empty());
            assert(be_val(Seq::<u8>::empty()) == 0);
        }
    }
    while i < len
        invariant
            fz < i <= len == e@.len(),
            e@[fz as int] == first,
            first != 0,
            be_val(e@.subrange(fz as int, len as int)) == be_val(e@),
            s@ == old(s)@ + hex_of_nat(be_val(e@.subrange(fz as int, i as int))),
            be_val(e@.subrange(fz as int, i as int)) >= 1,
        decreases len - i,
    {
        let b = e[i];
        proof {
            let prefix = e@.subrange(fz as int, i as int);
            assert(e@.subrange(fz as int, i as int + 1) =~= prefix.push(e@[i as int]));
            lemma_be_val_push(prefix, b);
            lemma_hex_of_nat_push_byte(be_val(prefix), b);
            lemma_fundamental_div_mod(b as int, 16);
            vstd::arithmetic::mul::lemma_mul_inequality(1, be_val(prefix) as int, 256);
        }
        let d = hex_digit_str(b / 16);
        s.append(d);
        let d2 = hex_digit_str(b % 16);
        s.append(d2);
        proof {
            let prefix = e@.subrange(fz as int, i as int);
            assert(s@ =~= old(s)@ + hex_of_nat(be_val(e@.subrange(fz as int, i as int + 1))));
        }
        i = i + 1;
    }
    proof {
        assert(e@.subrange(fz as int, len as int) =~= e@.subrange(fz as int, i as int));
    }
}

/// Renders the calldata bundle as its persisted text: each element's
/// value on its own `0x`-prefixed line, and a newline closing the file —
/// also when the bundle is empty.
pub fn biguint_vec_to_hex_string(calldata: &Vec<Vec<u8>>) -> (r: String)
    ensures
        r@ == calldata_text(calldata.deep_view()),
{
    let mut s = String::new();
    if calldata.len() == 0 {
        s.append("\n");
        proof {
            reveal_strlit("\n");
            assert(calldata.deep_view().len() == 0);
            assert(s@ =~= calldata_text(calldata.deep_view()));
        }
        return s;
    }
    let mut i: usize = 0;
    proof {
        assert(calldata.deep_view().subrange(0, 0) =~= Seq::<Seq<u8>>::empty());
    }
    while i < calldata.len()
        invariant
            i <= calldata@.len(),
            calldata.deep_view().len() == calldata@.len(),
            forall|j: int|
                0 <= j < calldata@.len() ==> #[trigger] calldata.deep_view()[j] == calldata@[j]@,
            s@ == calldata_lines(calldata.deep_view().subrange(0, i as int)),
        decreases calldata@.len() - i,
    {
        proof {
            reveal_strlit("0x");
        }
        s.append("0x");
        append_hex_of_element(&mut s, &calldata[i]);
        proof {
            reveal_strlit("\n");
        }
        s.append("\n");
        proof {
            let dv = calldata.deep_view();
            assert(dv.subrange(0, i as int + 1).drop_last() =~= dv.subrange(0, i as int));
            assert(dv.subrange(0, i as int + 1).last() == dv[i as int]);
            assert("0x"@ + hex_of_nat(be_val(dv[i as int])) + "\n"@ =~= calldata_line(
                dv[i as int],
            ));
            assert(s@ =~= calldata_lines(dv.subrange(0, i as int + 1)));
        }
        i = i + 1;
    }
    proof {
        assert(calldata.deep_view().subrange(0, i as int) =~= calldata.deep_view());
        assert(calldata.deep_view().len() > 0);
    }
    s
}

/// The rendered text is a function of the element values alone: elements
/// with equal values — however many leading zero bytes either carries —
/// render to identical text, so one proof instance always yields one byte
/// string.
pub proof fn lemma_calldata_text_value_determined(c1: Seq<Seq<u8>>, c2: Seq<Seq<u8>>)
    requires
        c1.len() == c2.len(),
        forall|i: int| 0 <= i < c1.len() ==> be_val(#[trigger] c1[i]) == be_val(c2[i]),
    ensures
        calldata_text(c1) == calldata_text(c2),
{
    lemma_calldata_lines_value_determined(c1, c2);
}

proof fn lemma_calldata_lines_value_determined(c1: Seq<Seq<u8>>, c2: Seq<Seq<u8>>)
    requires
        c1.len() == c2.len(),
        forall|i: int| 0 <= i < c1.len() ==> be_val(#[trigger] c1[i]) == be_val(c2[i]),
    ensures
        calldata_lines(c1) == calldata_lines(c2),
    decreases c1.len(),
{
    if c1.len() > 0 {
        lemma_calldata_lines_value_determined(c1.drop_last(), c2.drop_last());
        assert(be_val(c1.last()) == be_val(c2.last()));
    }
}

} // verus!
