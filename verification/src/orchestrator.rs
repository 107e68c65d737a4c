//! Orchestration of the proof lifecycle.
//!
//! One invocation selects exactly one of two modes — plain execution or
//! proof generation — and then drives the opaque proving backend through a
//! fixed sequence of stages. The decisions live here and are verified; the
//! host performs each stage's outside work (execute, setup, prove, verify,
//! convert, persist) and reports back what happened.

use vstd::prelude::*;

verus! {

use crate::abi::{
    abi_encoding,
    abi_decode_public_values,
    is_abi_encoding,
    lemma_abi_encoding_injective,
    PublicValuesStruct,
};
use crate::guest::{committed_a, committed_b, fibonacci};

/// The two mutually exclusive ways to run the guest program.
#[derive(Clone, Copy, Debug, PartialEq, Eq, Structural)]
pub enum Mode {
    /// Run the guest in the virtual machine and validate its outputs,
    /// without generating a proof.
    Execute,
    /// Generate a cryptographic proof of the guest's execution.
    Prove,
}

/// Exactly one mode must be selected; asking for both or neither is a
/// configuration error, reported before any work starts.
#[derive(Clone, Copy, Debug, PartialEq, Eq, Structural)]
pub struct ConfigurationError;

/// Selects the mode from the two flags. Returns the configuration error
/// exactly when the flags agree — both set, or neither.
pub fn select_mode(execute: bool, prove: bool) -> (r: Result<Mode, ConfigurationError>)
    ensures
        execute && !prove ==> r == Ok::<Mode, ConfigurationError>(Mode::Execute),
        prove && !execute ==> r == Ok::<Mode, ConfigurationError>(Mode::Prove),
        (r is Err) <==> execute == prove,
{
    if execute == prove {
        Err(ConfigurationError)
    } else if execute {
        Ok(Mode::Execute)
    } else {
        Ok(Mode::Prove)
    }
}

/// Why validation of an execution's committed output failed.
#[derive(Clone, Copy, Debug, PartialEq, Eq, Structural)]
pub enum ValidationError {
    /// The committed bytes are not the fixed-width layout of any values.
    MalformedOutput,
    /// The committed values disagree with the native recomputation; both
    /// triples are carried for the diagnostic.
    ResultMismatch {
        /// The index handed to the guest.
        expected_n: u32,
        /// The natively recomputed term before the `n`-th.
        expected_a: u64,
        /// The natively recomputed `n`-th term.
        expected_b: u64,
        /// The index the guest committed.
        actual_n: u32,
        /// The committed term before the `n`-th.
        actual_a: u64,
        /// The committed `n`-th term.
        actual_b: u64,
    },
}

/// Decodes an execution's committed output and holds it against the
/// natively recomputed recurrence pair, field by field. Accepts exactly
/// the committed layout of `n` and the native pair at `n`; a mismatch
/// carries both triples.
pub fn validate_execution_output(n: u32, output: &Vec<u8>) -> (r: Result<
    PublicValuesStruct,
    ValidationError,
>)
    ensures
        (r is Ok) <==> output@ == abi_encoding(n, committed_a(n), committed_b(n)),
        r matches Ok(pv) ==> pv.n == n && pv.a == committed_a(n) && pv.b == committed_b(n),
        r matches Err(e) ==> ((e is MalformedOutput) <==> !is_abi_encoding(output@)),
        r matches Err(e) ==> (e matches ValidationError::ResultMismatch {
            expected_n,
            expected_a,
            expected_b,
            actual_n,
            actual_a,
            actual_b,
        } ==> (expected_n == n && expected_a == committed_a(n) && expected_b == committed_b(n)
            && output@ == abi_encoding(actual_n, actual_a, actual_b))),
{
    let expected_pair = fibonacci(n);
    match abi_decode_public_values(output) {
        None => {
            proof {
                let pv = PublicValuesStruct { n, a: committed_a(n), b: committed_b(n) };
                if output@ == abi_encoding(n, committed_a(n), committed_b(n)) {
                    assert(output@ == abi_encoding(pv.n, pv.a, pv.b));
                    assert(is_abi_encoding(output@));
                }
            }
            Err(ValidationError::MalformedOutput)
        },
        Some(pv) => {
            if pv.n != n || pv.a != expected_pair.0 || pv.b != expected_pair.1 {
                proof {
                    if output@ == abi_encoding(n, committed_a(n), committed_b(n)) {
                        lemma_abi_encoding_injective(
                            pv.n,
                            pv.a,
                            pv.b,
                            n,
                            committed_a(n),
                            committed_b(n),
                        );
                    }
                }
                Err(
                    ValidationError::ResultMismatch {
                        expected_n: n,
                        expected_a: expected_pair.0,
                        expected_b: expected_pair.1,
                        actual_n: pv.n,
                        actual_a: pv.a,
                        actual_b: pv.b,
                    },
                )
            } else {
                Ok(pv)
            }
        },
    }
}

/// What the caller intends to do with a proof: keep it local, or convert
/// it and persist fixtures for the on-chain verifier.
#[derive(Clone, Copy, Debug, PartialEq, Eq, Structural)]
pub enum ProveGoal {
    /// Prove and verify locally; no fixtures are produced.
    ProveOnly,
    /// Prove, verify, convert to calldata, and persist the fixtures.
    ProveForChain,
}

/// The stages of the proving pipeline, in the order they must run.
#[derive(Clone, Copy, Debug, PartialEq, Eq, Structural)]
pub enum ProveStage {
    /// Deriving the proving and verifying keys from the program.
    Setup,
    /// Generating the proof.
    Proving,
    /// Locally verifying the generated proof — mandatory before the
    /// pipeline can complete or any fixture is touched.
    Verifying,
    /// Converting proof and verifying key to curve-specific calldata.
    Converting,
    /// Writing the fixture pair.
    Persisting,
    /// Nothing left to do.
    Complete,
}

/// What the host reports after performing a stage's outside work.
#[derive(Clone, Copy, Debug, PartialEq, Eq, Structural)]
pub enum ProveEvent {
    /// Setup derived the key material.
    SetupDone,
    /// Setup or proof generation failed in the backend.
    SetupFailed,
    /// The proof was generated.
    Proved,
    /// Proof generation failed in the backend.
    ProveFailed,
    /// The generated proof passed local verification.
    Verified,
    /// The generated proof failed local verification.
    VerifyFailed,
    /// The calldata conversion succeeded.
    Converted,
    /// The calldata conversion failed.
    ConvertFailed,
    /// The fixture pair was written.
    Persisted,
    /// Writing the fixtures failed.
    PersistFailed,
}

/// A pipeline failure. Every failure aborts the remaining stages; none is
/// swallowed or retried silently.
#[derive(Clone, Copy, Debug, PartialEq, Eq, Structural)]
pub enum PipelineError {
    /// The backend could not set up or generate the proof.
    ProvingError,
    /// The generated proof failed local verification.
    VerificationError,
    /// The proof could not be converted to calldata.
    CalldataConversionError,
    /// The fixtures could not be written.
    PersistenceError,
    /// The host reported an event that its stage cannot produce.
    ProtocolError,
}

/// The transition relation of the proving pipeline: from a stage and the
/// host's event to the next stage, or to the error that aborts the run.
pub open spec fn next_stage(goal: ProveGoal, stage: ProveStage, event: ProveEvent) -> Result<
    ProveStage,
    PipelineError,
> {
    match (stage, event) {
        (ProveStage::Setup, ProveEvent::SetupDone) => Ok(ProveStage::Proving),
        (ProveStage::Setup, ProveEvent::SetupFailed) => Err(PipelineError::ProvingError),
        (ProveStage::Proving, ProveEvent::Proved) => Ok(ProveStage::Verifying),
        (ProveStage::Proving, ProveEvent::ProveFailed) => Err(PipelineError::ProvingError),
        (ProveStage::Verifying, ProveEvent::Verified) => if goal is ProveForChain {
            Ok(ProveStage::Converting)
        } else {
            Ok(ProveStage::Complete)
        },
        (ProveStage::Verifying, ProveEvent::VerifyFailed) => Err(
            PipelineError::VerificationError,
        ),
        (ProveStage::Converting, ProveEvent::Converted) => Ok(ProveStage::Persisting),
        (ProveStage::Converting, ProveEvent::ConvertFailed) => Err(
            PipelineError::CalldataConversionError,
        ),
        (ProveStage::Persisting, ProveEvent::Persisted) => Ok(ProveStage::Complete),
        (ProveStage::Persisting, ProveEvent::PersistFailed) => Err(
            PipelineError::PersistenceError,
        ),
        _ => Err(PipelineError::ProtocolError),
    }
}

/// Advances the pipeline by one host event.
pub fn prove_pipeline_step(goal: ProveGoal, stage: ProveStage, event: ProveEvent) -> (r: Result<
    ProveStage,
    PipelineError,
>)
    ensures
        r == next_stage(goal, stage, event),
{
    match (stage, event) {
        (ProveStage::Setup, ProveEvent::SetupDone) => Ok(ProveStage::Proving),
        (ProveStage::Setup, ProveEvent::SetupFailed) => Err(PipelineError::ProvingError),
        (ProveStage::Proving, ProveEvent::Proved) => Ok(ProveStage::Verifying),
        (ProveStage::Proving, ProveEvent::ProveFailed) => Err(PipelineError::ProvingError),
        (ProveStage::Verifying, ProveEvent::Verified) => {
            if let ProveGoal::ProveForChain = goal {
                Ok(ProveStage::Converting)
            } else {
                Ok(ProveStage::Complete)
            }
        },
        (ProveStage::Verifying, ProveEvent::VerifyFailed) => Err(
            PipelineError::VerificationError,
        ),
        (ProveStage::Converting, ProveEvent::Converted) => Ok(ProveStage::Persisting),
        (ProveStage::Converting, ProveEvent::ConvertFailed) => Err(
            PipelineError::CalldataConversionError,
        ),
        (ProveStage::Persisting, ProveEvent::Persisted) => Ok(ProveStage::Complete),
        (ProveStage::Persisting, ProveEvent::PersistFailed) => Err(
            PipelineError::PersistenceError,
        ),
        _ => Err(PipelineError::ProtocolError),
    }
}

/// A whole run: the pipeline folded over the host's events. An error at
/// any step is the run's result; no later stage runs after a failure.
pub open spec fn run_pipeline(
    goal: ProveGoal,
    stage: ProveStage,
    events: Seq<ProveEvent>,
) -> Result<ProveStage, PipelineError>
    decreases events.len(),
{
    if events.len() == 0 {
        Ok(stage)
    } else {
        match next_stage(goal, stage, events[0]) {
            Ok(s2) => run_pipeline(goal, s2, events.drop_first()),
            Err(e) => Err(e),
        }
    }
}

/// How many stages are left from a stage: the measure that orders them.
pub open spec fn stage_rank(stage: ProveStage) -> nat {
    match stage {
        ProveStage::Setup => 5,
        ProveStage::Proving => 4,
        ProveStage::Verifying => 3,
        ProveStage::Converting => 2,
        ProveStage::Persisting => 1,
        ProveStage::Complete => 0,
    }
}

/// The events still owed from a stage on the way to completion.
pub open spec fn expected_events_from(goal: ProveGoal, stage: ProveStage) -> Seq<ProveEvent>
    decreases stage_rank(stage),
{
    match stage {
        ProveStage::Setup => seq![ProveEvent::SetupDone] + expected_events_from(
            goal,
            ProveStage::Proving,
        ),
        ProveStage::Proving => seq![ProveEvent::Proved] + expected_events_from(
            goal,
            ProveStage::Verifying,
        ),
        ProveStage::Verifying => if goal is ProveForChain {
            seq![ProveEvent::Verified] + expected_events_from(goal, ProveStage::Converting)
        } else {
            seq![ProveEvent::Verified]
        },
        ProveStage::Converting => seq![ProveEvent::Converted] + expected_events_from(
            goal,
            ProveStage::Persisting,
        ),
        ProveStage::Persisting => seq![ProveEvent::Persisted],
        ProveStage::Complete => Seq::empty(),
    }
}

/// The only event sequence that completes a run from the start: setup,
/// prove, verify — and, when targeting the chain, convert then persist.
pub open spec fn expected_trace(goal: ProveGoal) -> Seq<ProveEvent> {
    expected_events_from(goal, ProveStage::Setup)
}

/// A run that reaches completion saw exactly the expected events from its
/// stage: nothing skipped, nothing reordered, nothing after a failure.
pub proof fn lemma_complete_run_is_expected(
    goal: ProveGoal,
    stage: ProveStage,
    events: Seq<ProveEvent>,
)
    requires
        run_pipeline(goal, stage, events) == Ok::<ProveStage, PipelineError>(ProveStage::Complete),
    ensures
        events == expected_events_from(goal, stage),
    decreases events.len(),
{
    if events.len() == 0 {
        assert(stage is Complete);
        assert(events =~= expected_events_from(goal, stage));
    } else {
        let e0 = events[0];
        let step = next_stage(goal, stage, e0);
        assert(step is Ok);
        let s2 = step->Ok_0;
        lemma_complete_run_is_expected(goal, s2, events.drop_first());
        assert(events =~= seq![e0] + events.drop_first());
        assert(expected_events_from(goal, stage) =~= seq![e0] + expected_events_from(goal, s2));
    }
}

/// No completion without verification: a run from the start that reaches
/// completion contains the event that the generated proof passed local
/// verification. Proving without the subsequent local verification never
/// completes the pipeline.
pub proof fn lemma_completion_requires_verification(goal: ProveGoal, events: Seq<ProveEvent>)
    requires
        run_pipeline(goal, ProveStage::Setup, events) == Ok::<ProveStage, PipelineError>(
            ProveStage::Complete,
        ),
    ensures
        exists|i: int| 0 <= i < events.len() && events[i] == ProveEvent::Verified,
{
    reveal_with_fuel(expected_events_from, 6);
    lemma_complete_run_is_expected(goal, ProveStage::Setup, events);
    assert(events[2] == ProveEvent::Verified);
}

/// The expected trace does complete a run: the pipeline owes success to a
/// host whose setup, proof, verification — and, chain-bound, conversion
/// and persistence — all succeed.
pub proof fn lemma_expected_trace_completes(goal: ProveGoal)
    ensures
        run_pipeline(goal, ProveStage::Setup, expected_trace(goal)) == Ok::<
            ProveStage,
            PipelineError,
        >(ProveStage::Complete),
{
    reveal_with_fuel(expected_events_from, 6);
    reveal_with_fuel(run_pipeline, 7);
    let tr = expected_trace(goal);
    if goal is ProveForChain {
        assert(tr =~= seq![
            ProveEvent::SetupDone,
            ProveEvent::Proved,
            ProveEvent::Verified,
            ProveEvent::Converted,
            ProveEvent::Persisted,
        ]);
        assert(tr.drop_first() =~= seq![
            ProveEvent::Proved,
            ProveEvent::Verified,
            ProveEvent::Converted,
            ProveEvent::Persisted,
        ]);
        assert(tr.drop_first().drop_first() =~= seq![
            ProveEvent::Verified,
            ProveEvent::Converted,
            ProveEvent::Persisted,
        ]);
        assert(tr.drop_first().drop_first().drop_first() =~= seq![
            ProveEvent::Converted,
            ProveEvent::Persisted,
        ]);
        assert(tr.drop_first().drop_first().drop_first().drop_first() =~= seq![
            ProveEvent::Persisted,
        ]);
        assert(tr.drop_first().drop_first().drop_first().drop_first().drop_first()
            =~= Seq::<ProveEvent>::empty());
    } else {
        assert(tr =~= seq![ProveEvent::SetupDone, ProveEvent::Proved, ProveEvent::Verified]);
        assert(tr.drop_first() =~= seq![ProveEvent::Proved, ProveEvent::Verified]);
        assert(tr.drop_first().drop_first() =~= seq![ProveEvent::Verified]);
        assert(tr.drop_first().drop_first().drop_first() =~= Seq::<ProveEvent>::empty());
    }
}

} // verus!
