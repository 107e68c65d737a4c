//! Fixture rendering, calldata text, and the verifying key's canonical
//! form, held against the hex and big-integer crates they must agree with.

use fibonacci_prover::calldata::biguint_vec_to_hex_string;
use fibonacci_prover::fixture::create_proof_fixture;
use fibonacci_prover::guest::compute_committed_values;
use fibonacci_prover::vkey::VerifyingKey;
use num_bigint::BigUint;

fn sample_key_bytes() -> Vec<u8> {
    (0u8..32).collect()
}

#[test]
fn calldata_lines_match_the_reference_format() {
    let calldata = vec![vec![0xffu8], vec![0x0f, 0xff], vec![0x12, 0x34]];
    assert_eq!(biguint_vec_to_hex_string(&calldata), "0xff\n0xfff\n0x1234\n");
}

#[test]
fn calldata_lines_agree_with_the_big_integer_rendering() {
    let calldata = vec![
        vec![0x00u8, 0x01, 0x02],
        vec![0xde, 0xad, 0xbe, 0xef],
        vec![0x00],
        vec![0x7f, 0x00, 0x00, 0x00, 0x00, 0x00, 0x00, 0x01],
    ];
    let expected: String = calldata
        .iter()
        .map(|e| format!("0x{:x}", BigUint::from_bytes_be(e)))
        .collect::<Vec<String>>()
        .join("\n")
        + "\n";
    assert_eq!(biguint_vec_to_hex_string(&calldata), expected);
}

#[test]
fn calldata_text_of_zero_and_empty() {
    assert_eq!(biguint_vec_to_hex_string(&vec![vec![]]), "0x0\n");
    assert_eq!(biguint_vec_to_hex_string(&vec![vec![0, 0, 0]]), "0x0\n");
    // the empty join still gets the appended trailing newline
    assert_eq!(biguint_vec_to_hex_string(&Vec::new()), "\n");
}

#[test]
fn calldata_text_depends_on_values_not_on_leading_zeros() {
    let short = vec![vec![0xffu8, 0x00]];
    let padded = vec![vec![0x00u8, 0x00, 0xff, 0x00]];
    assert_eq!(
        biguint_vec_to_hex_string(&short),
        biguint_vec_to_hex_string(&padded)
    );
}

#[test]
fn fixture_fields_are_prefixed_hex_of_one_proof_instance() {
    // the chain-bound scenario at index 3: the committed pair is (1, 2)
    let vk = VerifyingKey::from_bytes(sample_key_bytes());
    let public_values = compute_committed_values(3);
    let proof_bytes = vec![0xabu8, 0xcd, 0xef];
    let calldata = vec![vec![0x01u8], vec![0xffu8, 0xff]];
    let (fixture, calldata_text) =
        create_proof_fixture(&vk, &public_values, &proof_bytes, &calldata);
    assert_eq!(fixture.vkey, format!("0x{}", hex::encode(sample_key_bytes())));
    assert_eq!(fixture.public_values, format!("0x{}", hex::encode(&public_values)));
    assert_eq!(public_values[31], 3);
    assert_eq!(public_values[63], 1);
    assert_eq!(public_values[95], 2);
    assert_eq!(fixture.proof, "0xabcdef");
    // three hex fields, each 0x-prefixed
    for field in [&fixture.vkey, &fixture.public_values, &fixture.proof] {
        assert!(field.starts_with("0x"));
        assert!(field[2..].chars().all(|c| c.is_ascii_hexdigit()));
    }
    assert_eq!(calldata_text, "0x1\n0xffff\n");
    assert!(calldata_text.ends_with('\n'));
    assert!(calldata_text.lines().all(|l| l.starts_with("0x")));
}

#[test]
fn fixture_rendering_is_deterministic() {
    let vk = VerifyingKey::from_bytes(sample_key_bytes());
    let public_values = vec![9u8; 96];
    let proof_bytes = vec![7u8; 40];
    let calldata = vec![vec![0x10u8, 0x20], vec![0x00u8, 0x30]];
    let first = create_proof_fixture(&vk, &public_values, &proof_bytes, &calldata);
    let second = create_proof_fixture(&vk, &public_values, &proof_bytes, &calldata);
    assert_eq!(first.0.vkey, second.0.vkey);
    assert_eq!(first.0.public_values, second.0.public_values);
    assert_eq!(first.0.proof, second.0.proof);
    assert_eq!(first.1, second.1);
}

#[test]
fn key_text_round_trips_through_the_canonical_form() {
    let vk = VerifyingKey::from_bytes(sample_key_bytes());
    let text = vk.to_hex();
    assert_eq!(text.len(), 66);
    let parsed = VerifyingKey::from_hex(&text).expect("canonical text must parse");
    assert_eq!(parsed.as_bytes(), vk.as_bytes());
    assert_eq!(parsed.to_hex(), text);
}

#[test]
fn key_parsing_accepts_uppercase_digits_and_canonicalizes() {
    let lower = "0x00ee2a4a1c9c659ed802a544aa469136e72e1a1538af94fce56705576b48f247";
    let upper = "0x00EE2A4A1C9C659ED802A544AA469136E72E1A1538AF94FCE56705576B48F247";
    let a = VerifyingKey::from_hex(lower).expect("lowercase key text must parse");
    let b = VerifyingKey::from_hex(upper).expect("uppercase key text must parse");
    assert_eq!(a.as_bytes(), b.as_bytes());
    assert_eq!(b.to_hex(), lower);
}

#[test]
fn key_parsing_rejects_malformed_text() {
    // too short, too long, wrong prefix, a digit out of range
    assert!(VerifyingKey::from_hex("0x00ee").is_none());
    let long = format!("0x{}", "00".repeat(33));
    assert!(VerifyingKey::from_hex(&long).is_none());
    let unprefixed = "00".repeat(33);
    assert!(VerifyingKey::from_hex(&unprefixed).is_none());
    let bad_digit = format!("0x{}g", "00".repeat(31).to_owned() + "0");
    assert_eq!(bad_digit.len(), 66);
    assert!(VerifyingKey::from_hex(&bad_digit).is_none());
    assert!(VerifyingKey::from_hex("").is_none());
}

#[test]
fn key_parsing_is_deterministic() {
    let text = "0x00ee2a4a1c9c659ed802a544aa469136e72e1a1538af94fce56705576b48f247";
    let a = VerifyingKey::from_hex(text).unwrap();
    let b = VerifyingKey::from_hex(text).unwrap();
    assert_eq!(a.as_bytes(), b.as_bytes());
    assert_eq!(a.to_hex(), b.to_hex());
}
