//! Mode selection, execution validation, and the proving pipeline.

use fibonacci_prover::abi::{abi_encode_public_values, PublicValuesStruct};
use fibonacci_prover::guest::compute_committed_values;
use fibonacci_prover::orchestrator::{
    prove_pipeline_step, select_mode, validate_execution_output, ConfigurationError, Mode,
    PipelineError, ProveEvent, ProveGoal, ProveStage, ValidationError,
};

#[test]
fn exactly_one_mode_must_be_selected() {
    assert_eq!(select_mode(true, false), Ok(Mode::Execute));
    assert_eq!(select_mode(false, true), Ok(Mode::Prove));
    assert_eq!(select_mode(true, true), Err(ConfigurationError));
    assert_eq!(select_mode(false, false), Err(ConfigurationError));
}

#[test]
fn execute_scenario_index_ten() {
    let output = compute_committed_values(10);
    let pv = validate_execution_output(10, &output).expect("committed pair must validate");
    assert_eq!(pv, PublicValuesStruct { n: 10, a: 34, b: 55 });
}

#[test]
fn execute_scenario_seed_indices() {
    let output = compute_committed_values(0);
    let pv = validate_execution_output(0, &output).expect("seed pair at 0 must validate");
    assert_eq!(pv, PublicValuesStruct { n: 0, a: 1, b: 0 });
    let output = compute_committed_values(1);
    let pv = validate_execution_output(1, &output).expect("seed pair at 1 must validate");
    assert_eq!(pv, PublicValuesStruct { n: 1, a: 0, b: 1 });
}

#[test]
fn execute_scenario_default_index() {
    let output = compute_committed_values(20);
    let pv = validate_execution_output(20, &output).expect("default pair must validate");
    assert_eq!(pv, PublicValuesStruct { n: 20, a: 4181, b: 6765 });
}

#[test]
fn validation_rejects_a_wrong_committed_term() {
    let forged = PublicValuesStruct { n: 10, a: 34, b: 56 };
    let output = abi_encode_public_values(&forged);
    match validate_execution_output(10, &output) {
        Err(ValidationError::ResultMismatch {
            expected_n,
            expected_a,
            expected_b,
            actual_n,
            actual_a,
            actual_b,
        }) => {
            assert_eq!((expected_n, expected_a, expected_b), (10, 34, 55));
            assert_eq!((actual_n, actual_a, actual_b), (10, 34, 56));
        }
        other => panic!("expected a result mismatch, got {:?}", other),
    }
}

#[test]
fn validation_rejects_a_wrong_committed_index() {
    let output = compute_committed_values(11);
    match validate_execution_output(10, &output) {
        Err(ValidationError::ResultMismatch { expected_n, actual_n, .. }) => {
            assert_eq!(expected_n, 10);
            assert_eq!(actual_n, 11);
        }
        other => panic!("expected a result mismatch, got {:?}", other),
    }
}

#[test]
fn validation_rejects_malformed_output() {
    let output = vec![1u8, 2, 3];
    assert_eq!(
        validate_execution_output(10, &output),
        Err(ValidationError::MalformedOutput)
    );
}

#[test]
fn prove_only_run_completes_after_verification() {
    let goal = ProveGoal::ProveOnly;
    let s1 = prove_pipeline_step(goal, ProveStage::Setup, ProveEvent::SetupDone).unwrap();
    assert_eq!(s1, ProveStage::Proving);
    let s2 = prove_pipeline_step(goal, s1, ProveEvent::Proved).unwrap();
    assert_eq!(s2, ProveStage::Verifying);
    let s3 = prove_pipeline_step(goal, s2, ProveEvent::Verified).unwrap();
    // no conversion and no fixture writing on the local proving path
    assert_eq!(s3, ProveStage::Complete);
}

#[test]
fn chain_bound_run_converts_and_persists_after_verification() {
    let goal = ProveGoal::ProveForChain;
    let s1 = prove_pipeline_step(goal, ProveStage::Setup, ProveEvent::SetupDone).unwrap();
    let s2 = prove_pipeline_step(goal, s1, ProveEvent::Proved).unwrap();
    let s3 = prove_pipeline_step(goal, s2, ProveEvent::Verified).unwrap();
    assert_eq!(s3, ProveStage::Converting);
    let s4 = prove_pipeline_step(goal, s3, ProveEvent::Converted).unwrap();
    assert_eq!(s4, ProveStage::Persisting);
    let s5 = prove_pipeline_step(goal, s4, ProveEvent::Persisted).unwrap();
    assert_eq!(s5, ProveStage::Complete);
}

#[test]
fn each_failure_aborts_with_its_error() {
    let goal = ProveGoal::ProveForChain;
    assert_eq!(
        prove_pipeline_step(goal, ProveStage::Setup, ProveEvent::SetupFailed),
        Err(PipelineError::ProvingError)
    );
    assert_eq!(
        prove_pipeline_step(goal, ProveStage::Proving, ProveEvent::ProveFailed),
        Err(PipelineError::ProvingError)
    );
    assert_eq!(
        prove_pipeline_step(goal, ProveStage::Verifying, ProveEvent::VerifyFailed),
        Err(PipelineError::VerificationError)
    );
    assert_eq!(
        prove_pipeline_step(goal, ProveStage::Converting, ProveEvent::ConvertFailed),
        Err(PipelineError::CalldataConversionError)
    );
    assert_eq!(
        prove_pipeline_step(goal, ProveStage::Persisting, ProveEvent::PersistFailed),
        Err(PipelineError::PersistenceError)
    );
}

#[test]
fn an_out_of_order_event_is_a_protocol_error() {
    assert_eq!(
        prove_pipeline_step(ProveGoal::ProveOnly, ProveStage::Setup, ProveEvent::Proved),
        Err(PipelineError::ProtocolError)
    );
    assert_eq!(
        prove_pipeline_step(ProveGoal::ProveOnly, ProveStage::Complete, ProveEvent::Verified),
        Err(PipelineError::ProtocolError)
    );
    // verification cannot be skipped on the way to conversion
    assert_eq!(
        prove_pipeline_step(ProveGoal::ProveForChain, ProveStage::Proving, ProveEvent::Converted),
        Err(PipelineError::ProtocolError)
    );
}
