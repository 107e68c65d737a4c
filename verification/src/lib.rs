//! Verified core of a proof-lifecycle pipeline around a Fibonacci-pair
//! computation.
//!
//! The library covers the logic of the pipeline: the guest computation and
//! the fixed-width encoding of its committed public values, the canonical
//! form of a program's verifying key, the rendering of proof fixtures and
//! on-chain calldata, and the orchestration decisions (mode selection,
//! result validation, and the setup / prove / verify sequencing). The
//! opaque capabilities around it — the zero-knowledge virtual machine and
//! the curve-specific calldata derivation — are driven by a thin host
//! program that hands this library plain values.

pub mod abi;
pub mod calldata;
pub mod fixture;
pub mod guest;
pub mod hexcodec;
pub mod orchestrator;
pub mod vkey;
