//! The guest computation: seeds, the recurrence, and the wrap at 2^64.

use fibonacci_prover::guest::{compute_committed_values, fibonacci};

#[test]
fn seed_pair_at_zero() {
    assert_eq!(fibonacci(0), (1, 0));
}

#[test]
fn seed_pair_at_one() {
    assert_eq!(fibonacci(1), (0, 1));
}

#[test]
fn small_pairs_follow_the_recurrence() {
    assert_eq!(fibonacci(2), (1, 1));
    assert_eq!(fibonacci(3), (1, 2));
    assert_eq!(fibonacci(4), (2, 3));
    assert_eq!(fibonacci(5), (3, 5));
    assert_eq!(fibonacci(10), (34, 55));
}

#[test]
fn recurrence_holds_for_all_small_indices() {
    for n in 2..90u32 {
        let (a_prev, _) = fibonacci(n - 1);
        let (a, b) = fibonacci(n);
        assert_eq!(a, fibonacci(n - 1).1);
        assert_eq!(b, a_prev.wrapping_add(a));
    }
}

#[test]
fn default_index_pair() {
    assert_eq!(fibonacci(20), (4181, 6765));
}

#[test]
fn largest_pair_before_the_wrap() {
    assert_eq!(fibonacci(93), (7540113804746346429, 12200160415121876738));
}

#[test]
fn term_94_wraps_modulo_2_to_the_64() {
    let (a, b) = fibonacci(94);
    assert_eq!(a, 12200160415121876738);
    // 19740274219868223167 - 2^64
    assert_eq!(b, 1293530146158671551);
}

#[test]
fn committed_values_are_96_bytes() {
    let bytes = compute_committed_values(10);
    assert_eq!(bytes.len(), 96);
    assert_eq!(bytes[31], 10);
    assert_eq!(bytes[63], 34);
    assert_eq!(bytes[95], 55);
}
