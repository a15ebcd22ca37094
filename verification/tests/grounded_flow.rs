use de_ai_hilfer::grounded_flow::{
    classify_stream, is_structure_transient_error, require_lexical_branches, stage2_fallback_model, stage2_next,
    stream_stage2_next, structure_model_name, structure_retry_step, Stage2Model, Stage2Step, StreamModelOutcome,
    StructureRetryPolicy, HARD_FAILURE_RETRY_CYCLES,
};
use de_ai_hilfer::model_a::ModelAOutput;

#[test]
fn stream_outcomes() {
    assert_eq!(classify_stream(false, false, false, false, true), StreamModelOutcome::Retriable);
    assert_eq!(classify_stream(false, false, false, false, false), StreamModelOutcome::Fatal);
    assert_eq!(classify_stream(true, true, true, true, true), StreamModelOutcome::Success);
    assert_eq!(classify_stream(true, false, true, true, false), StreamModelOutcome::Canceled);
    assert_eq!(classify_stream(true, false, false, false, true), StreamModelOutcome::Retriable);
    assert_eq!(classify_stream(true, false, false, true, true), StreamModelOutcome::Fatal);
}

#[test]
fn streamed_stage_falls_back_then_retries() {
    assert_eq!(HARD_FAILURE_RETRY_CYCLES, 2);
    let p = Stage2Model::Primary;
    let f = Stage2Model::Fallback;
    assert_eq!(stream_stage2_next(1, p, StreamModelOutcome::Success, "a", "b"), Stage2Step::Done(p));
    assert_eq!(stream_stage2_next(1, p, StreamModelOutcome::Retriable, "a", "b"), Stage2Step::Ask(f));
    assert_eq!(stream_stage2_next(1, p, StreamModelOutcome::Retriable, "a", "a"), Stage2Step::RetryPrimary);
    assert_eq!(stream_stage2_next(2, p, StreamModelOutcome::Retriable, "a", ""), Stage2Step::Fail);
    assert_eq!(stream_stage2_next(1, f, StreamModelOutcome::Retriable, "a", "b"), Stage2Step::RetryPrimary);
    assert_eq!(stream_stage2_next(2, f, StreamModelOutcome::Retriable, "a", "b"), Stage2Step::Fail);
    assert_eq!(stream_stage2_next(1, f, StreamModelOutcome::Canceled, "a", "b"), Stage2Step::Canceled);
    assert_eq!(stream_stage2_next(1, p, StreamModelOutcome::Fatal, "a", "b"), Stage2Step::Fail);
}

#[test]
fn plain_stage_retries_before_falling_back() {
    let p = Stage2Model::Primary;
    assert_eq!(stage2_next(1, p, true, false, "a", "b"), Stage2Step::Done(p));
    assert_eq!(stage2_next(1, p, false, true, "a", "b"), Stage2Step::RetryPrimary);
    assert_eq!(stage2_next(2, p, false, true, "a", "b"), Stage2Step::Ask(Stage2Model::Fallback));
    assert_eq!(stage2_next(2, p, false, true, "a", "a"), Stage2Step::Fail);
    assert_eq!(stage2_next(1, p, false, false, "a", "b"), Stage2Step::Fail);
    assert_eq!(stage2_next(1, Stage2Model::Fallback, false, true, "a", "b"), Stage2Step::Fail);
    assert_eq!(stage2_fallback_model(true, false, "b"), "b");
    assert_eq!(stage2_fallback_model(true, true, "b"), "");
    assert_eq!(stage2_fallback_model(false, false, "b"), "");
    assert_eq!(structure_model_name("  "), "minimax-m2.5");
    assert_eq!(structure_model_name("gpt"), "gpt");
}

#[test]
fn structure_retries_double_the_pause() {
    let policy = StructureRetryPolicy::runtime_default();
    assert_eq!((policy.max_retries, policy.initial_delay_secs, policy.max_delay_secs), (2, 45, 180));
    assert_eq!(structure_retry_step(policy, true, 0, 45), Some((1, 45, 90)));
    assert_eq!(structure_retry_step(policy, true, 1, 90), Some((2, 90, 180)));
    assert_eq!(structure_retry_step(policy, true, 1, 120), Some((2, 120, 180)));
    assert_eq!(structure_retry_step(policy, true, 2, 180), None);
    assert_eq!(structure_retry_step(policy, false, 0, 45), None);
    assert_eq!(structure_retry_step(StructureRetryPolicy::no_retry(), true, 0, 0), None);
}

#[test]
fn transient_errors() {
    assert!(is_structure_transient_error("anything", true));
    assert!(is_structure_transient_error("HTTP 503 Service Unavailable", false));
    assert!(is_structure_transient_error("Request Timed Out", false));
    assert!(is_structure_transient_error("Rate Limit exceeded", false));
    assert!(!is_structure_transient_error("invalid json", false));
}

#[test]
fn stage_one_needs_a_branch() {
    let empty = ModelAOutput { word: "x".to_string(), entries: vec![] };
    assert_eq!(require_lexical_branches(empty).err(), Some("model A returned no lexical branches".to_string()));
}

#[test]
fn no_fallback_when_not_allowed() {
    let none = stage2_fallback_model(false, false, "b");
    let p = Stage2Model::Primary;
    assert_eq!(stage2_next(2, p, false, true, "a", none), Stage2Step::Fail);
    assert_eq!(stream_stage2_next(1, p, StreamModelOutcome::Retriable, "a", none), Stage2Step::RetryPrimary);
    let persisted = stage2_fallback_model(true, true, "b");
    assert_eq!(stream_stage2_next(2, p, StreamModelOutcome::Retriable, "a", persisted), Stage2Step::Fail);
}
