//! The guest computation: a two-term Fibonacci recurrence.
//!
//! The guest program receives a 32-bit index `n` and commits the pair
//! `(a, b)` where `b` is the `n`-th term and `a` the term before it. The
//! seeds are fixed: term 0 is 0 and term 1 is 1, and the term before term 0
//! is defined to be 1, so that `n == 0` needs no underflow. Arithmetic
//! wraps modulo 2^64; the committed values are the true terms reduced by
//! that modulus.

use vstd::prelude::*;

verus! {

use vstd::arithmetic::div_mod::{lemma_add_mod_noop, lemma_small_mod};
use crate::abi::{abi_encoding, abi_encode_public_values, PublicValuesStruct};

/// The modulus of the guest's 64-bit wrapping arithmetic.
pub open spec fn pow2_64() -> nat {
    0x1_0000_0000_0000_0000
}

/// The `n`-th term of the recurrence: 0, 1, 1, 2, 3, 5, ...
pub open spec fn fib(n: nat) -> nat
    decreases n,
{
    if n == 0 {
        0
    } else if n == 1 {
        1
    } else {
        fib((n - 1) as nat) + fib((n - 2) as nat)
    }
}

/// The term before the `n`-th: the recurrence extended one step back, so
/// that the pair for `n == 0` is defined without underflow.
pub open spec fn fib_prev(n: nat) -> nat {
    if n == 0 {
        1
    } else {
        fib((n - 1) as nat)
    }
}

/// The recurrence step also holds at 0 under the extended seed:
/// `fib(1) == fib(0) + fib_prev(0)`.
pub proof fn lemma_fib_step(i: nat)
    ensures
        fib(i + 1) == fib(i) + fib_prev(i),
{
}

/// The committed value of the term before the `n`-th: reduced modulo 2^64.
pub open spec fn committed_a(n: u32) -> u64 {
    (fib_prev(n as nat) % pow2_64()) as u64
}

/// The committed value of the `n`-th term: reduced modulo 2^64.
pub open spec fn committed_b(n: u32) -> u64 {
    (fib(n as nat) % pow2_64()) as u64
}

/// Computes the pair `(a, b)` with `a` the term before the `n`-th and `b`
/// the `n`-th term, each reduced modulo 2^64.
pub fn fibonacci(n: u32) -> (r: (u64, u64))
    ensures
        r.0 == committed_a(n),
        r.1 == committed_b(n),
        r.0 == fib_prev(n as nat) % pow2_64(),
        r.1 == fib(n as nat) % pow2_64(),
{
    let mut a: u64 = 1;
    let mut b: u64 = 0;
    let mut i: u32 = 0;
    proof {
        lemma_small_mod(1, pow2_64());
        lemma_small_mod(0, pow2_64());
    }
    while i < n
        invariant
            i <= n,
            a == fib_prev(i as nat) % pow2_64(),
            b == fib(i as nat) % pow2_64(),
        decreases n - i,
    {
        let c: u64 = a.wrapping_add(b);
        proof {
            lemma_wrapping_add_is_mod(a, b);
            lemma_add_mod_noop(fib_prev(i as nat) as int, fib(i as nat) as int, pow2_64() as int);
            lemma_fib_step(i as nat);
        }
        a = b;
        b = c;
        i = i + 1;
    }
    (a, b)
}

/// 64-bit wrapping addition computes the sum modulo 2^64.
proof fn lemma_wrapping_add_is_mod(x: u64, y: u64)
    ensures
        vstd::wrapping::u64_specs::wrapping_add(x, y) == (x + y) % (pow2_64() as int),
{
    if x + y > u64::MAX {
        vstd::arithmetic::div_mod::lemma_fundamental_div_mod_converse(
            x + y,
            pow2_64() as int,
            1,
            x + y - pow2_64(),
        );
    } else {
        lemma_small_mod((x + y) as nat, pow2_64());
    }
}

/// The seed pairs: the pair for index 0 is `(1, 0)` and the pair for
/// index 1 is `(0, 1)`, with no underflow on either.
pub proof fn lemma_seed_pairs()
    ensures
        fib_prev(0) == 1 && fib(0) == 0,
        fib_prev(1) == 0 && fib(1) == 1,
        committed_a(0u32) == 1 && committed_b(0u32) == 0,
        committed_a(1u32) == 0 && committed_b(1u32) == 1,
{
    assert(1nat % pow2_64() == 1) by {
        lemma_small_mod(1, pow2_64());
    }
    assert(0nat % pow2_64() == 0) by {
        lemma_small_mod(0, pow2_64());
    }
}

/// The guest program's single commitment: the committed layout of the
/// input index and its recurrence pair. The guest hands exactly these
/// bytes to the zero-knowledge virtual machine's commit call, once.
pub fn compute_committed_values(n: u32) -> (r: Vec<u8>)
    ensures
        r@ == abi_encoding(n, committed_a(n), committed_b(n)),
{
    let (a, b) = fibonacci(n);
    let pv = PublicValuesStruct { n, a, b };
    abi_encode_public_values(&pv)
}

} // verus!
