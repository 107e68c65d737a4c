//! The fixed-width layout of the committed public values.

use fibonacci_prover::abi::{
    abi_decode_public_values, abi_encode_public_values, PublicValuesStruct,
};

fn expected_layout(n: u32, a: u64, b: u64) -> Vec<u8> {
    let mut out = vec![0u8; 96];
    out[28..32].copy_from_slice(&n.to_be_bytes());
    out[56..64].copy_from_slice(&a.to_be_bytes());
    out[88..96].copy_from_slice(&b.to_be_bytes());
    out
}

#[test]
fn encoding_is_three_padded_big_endian_words() {
    let pv = PublicValuesStruct { n: 0x01020304, a: 0x1122334455667788, b: 0x99aabbccddeeff00 };
    let bytes = abi_encode_public_values(&pv);
    assert_eq!(bytes, expected_layout(0x01020304, 0x1122334455667788, 0x99aabbccddeeff00));
}

#[test]
fn encoding_of_small_values_pads_with_zeros() {
    let pv = PublicValuesStruct { n: 10, a: 34, b: 55 };
    let bytes = abi_encode_public_values(&pv);
    assert_eq!(bytes, expected_layout(10, 34, 55));
}

#[test]
fn decode_inverts_encode() {
    let pv = PublicValuesStruct { n: 20, a: 4181, b: 6765 };
    let bytes = abi_encode_public_values(&pv);
    assert_eq!(abi_decode_public_values(&bytes), Some(pv));
}

#[test]
fn decode_rejects_wrong_length() {
    assert_eq!(abi_decode_public_values(&vec![0u8; 95]), None);
    assert_eq!(abi_decode_public_values(&vec![0u8; 97]), None);
    assert_eq!(abi_decode_public_values(&Vec::new()), None);
}

#[test]
fn decode_rejects_nonzero_padding() {
    let mut bytes = expected_layout(10, 34, 55);
    bytes[0] = 1;
    assert_eq!(abi_decode_public_values(&bytes), None);
    let mut bytes = expected_layout(10, 34, 55);
    bytes[40] = 7;
    assert_eq!(abi_decode_public_values(&bytes), None);
    let mut bytes = expected_layout(10, 34, 55);
    bytes[87] = 255;
    assert_eq!(abi_decode_public_values(&bytes), None);
}

#[test]
fn decode_accepts_all_zero_words() {
    let bytes = expected_layout(0, 0, 0);
    assert_eq!(
        abi_decode_public_values(&bytes),
        Some(PublicValuesStruct { n: 0, a: 0, b: 0 })
    );
}
