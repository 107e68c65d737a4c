//! The persisted proof fixtures.
//!
//! A chain-bound proof leaves two artifacts that must describe the same
//! proof instance: a structured record with the verifying key, the
//! committed public values and the raw proof, each as `0x`-prefixed hex
//! text; and the calldata bundle as line-oriented hex text. Both are
//! rendered here, in one call, from one proof instance; writing them out —
//! only after every part succeeded — is the host's.

use vstd::prelude::*;

verus! {

use crate::hexcodec::{prefixed_hex, to_prefixed_hex};
use crate::calldata::{calldata_text, biguint_vec_to_hex_string};
use crate::vkey::{VerifyingKey, vkey_hex};

/// The structured fixture record for one generated proof.
pub struct SP1FibonacciProofFixture {
    /// The program's verifying key, in canonical hex text.
    pub vkey: String,
    /// The committed public values, hex with a `0x` prefix.
    pub public_values: String,
    /// The raw proof bytes, hex with a `0x` prefix.
    pub proof: String,
}

/// Builds the fixture record from a proof's pieces.
pub fn render_proof_fixture(
    vk: &VerifyingKey,
    public_values: &Vec<u8>,
    proof_bytes: &Vec<u8>,
) -> (f: SP1FibonacciProofFixture)
    requires
        vk.wf(),
    ensures
        f.vkey@ == vkey_hex(vk@),
        f.public_values@ == prefixed_hex(public_values@),
        f.proof@ == prefixed_hex(proof_bytes@),
{
    SP1FibonacciProofFixture {
        vkey: vk.to_hex(),
        public_values: to_prefixed_hex(public_values),
        proof: to_prefixed_hex(proof_bytes),
    }
}

/// The compute half of fixture creation: both artifacts, rendered in one
/// call from one proof instance, so that the record and the calldata text
/// can never describe different proofs. The host persists the pair only
/// when both are in hand.
pub fn create_proof_fixture(
    vk: &VerifyingKey,
    public_values: &Vec<u8>,
    proof_bytes: &Vec<u8>,
    calldata: &Vec<Vec<u8>>,
) -> (r: (SP1FibonacciProofFixture, String))
    requires
        vk.wf(),
    ensures
        r.0.vkey@ == vkey_hex(vk@),
        r.0.public_values@ == prefixed_hex(public_values@),
        r.0.proof@ == prefixed_hex(proof_bytes@),
        r.1@ == calldata_text(calldata.deep_view()),
{
    let fixture = render_proof_fixture(vk, public_values, proof_bytes);
    let calldata_hex = biguint_vec_to_hex_string(calldata);
    (fixture, calldata_hex)
}

} // verus!
