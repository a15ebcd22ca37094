use de_ai_hilfer::analyze_flow::{AnalysisMode, DictionaryHit, EntryChoice};
use de_ai_hilfer::analyze_steps::{analyze_next, start_analysis, AnalyzeAction, AnalyzeEvent, AnalyzeStage, StoredHit};
use de_ai_hilfer::documents::QualityMode;

fn hit(headword: &str, form_ref: bool) -> Option<DictionaryHit> {
    Some(DictionaryHit { headword: headword.to_string(), is_form_reference: form_ref })
}

#[test]
fn blank_analysis_query_is_refused() {
    assert!(start_analysis("  ", AnalysisMode::Full, QualityMode::Default, false, None, "m", false).is_err());
}

#[test]
fn plain_stored_hit_answers_at_once() {
    let mut s = start_analysis(" Haus ", AnalysisMode::Full, QualityMode::Default, false, None, "m", false).unwrap();
    assert_eq!(s.query, "Haus");
    assert!(matches!(analyze_next(&mut s, AnalyzeEvent::Start), AnalyzeAction::FindStoredByQuery));
    let a = analyze_next(&mut s, AnalyzeEvent::StoredLookup(Some(StoredHit { id: 7, model: None })));
    assert!(matches!(a, AnalyzeAction::AnswerStored { entry_id: 7, remember: true }));
    assert!(matches!(analyze_next(&mut s, AnalyzeEvent::Done), AnalyzeAction::Unexpected));
}

#[test]
fn streamed_stored_hit_sends_one_meta_and_one_complete() {
    let mut s = start_analysis("Haus", AnalysisMode::Full, QualityMode::Pro, false, None, "default-model", true).unwrap();
    analyze_next(&mut s, AnalyzeEvent::Start);
    match analyze_next(&mut s, AnalyzeEvent::StoredLookup(Some(StoredHit { id: 3, model: None }))) {
        AnalyzeAction::SendMeta { model, source } => {
            assert_eq!(model, "default-model");
            assert_eq!(source, "知识库");
        }
        other => panic!("unexpected {other:?}"),
    }
    assert!(matches!(analyze_next(&mut s, AnalyzeEvent::Done), AnalyzeAction::AnswerStored { entry_id: 3, remember: false }));
    assert_eq!(s.stage, AnalyzeStage::Finished);
    assert!(matches!(analyze_next(&mut s, AnalyzeEvent::Generated), AnalyzeAction::Unexpected));
}

#[test]
fn stored_model_is_named_in_meta() {
    let mut s = start_analysis("Haus", AnalysisMode::Full, QualityMode::Default, false, None, "d", true).unwrap();
    analyze_next(&mut s, AnalyzeEvent::Start);
    match analyze_next(&mut s, AnalyzeEvent::StoredLookup(Some(StoredHit { id: 3, model: Some("gpt-x".to_string()) }))) {
        AnalyzeAction::SendMeta { model, .. } => assert_eq!(model, "gpt-x"),
        other => panic!("unexpected {other:?}"),
    }
}

#[test]
fn no_dictionary_candidate_answers_without_model() {
    let mut s = start_analysis("xyzzy", AnalysisMode::Full, QualityMode::Default, false, None, "m", true).unwrap();
    analyze_next(&mut s, AnalyzeEvent::Start);
    assert!(matches!(analyze_next(&mut s, AnalyzeEvent::StoredLookup(None)), AnalyzeAction::FindHeadword));
    assert!(matches!(analyze_next(&mut s, AnalyzeEvent::DictionaryLookup(None)), AnalyzeAction::FindForm));
    assert!(matches!(analyze_next(&mut s, AnalyzeEvent::DictionaryLookup(None)), AnalyzeAction::FindStoredByPrototype));
    assert_eq!(s.entry, EntryChoice::Missing);
    assert!(matches!(analyze_next(&mut s, AnalyzeEvent::StoredLookup(None)), AnalyzeAction::AnswerNoCandidate));
}

#[test]
fn form_query_is_generated_stored_and_aliased() {
    let mut s = start_analysis("ging", AnalysisMode::Full, QualityMode::Pro, false, None, "m", true).unwrap();
    analyze_next(&mut s, AnalyzeEvent::Start);
    analyze_next(&mut s, AnalyzeEvent::StoredLookup(None));
    assert!(matches!(analyze_next(&mut s, AnalyzeEvent::DictionaryLookup(None)), AnalyzeAction::FindForm));
    assert!(matches!(analyze_next(&mut s, AnalyzeEvent::DictionaryLookup(hit("gehen", false))), AnalyzeAction::FindStoredByPrototype));
    assert_eq!(s.prototype, "gehen");
    assert_eq!(s.entry, EntryChoice::Form);
    assert!(matches!(analyze_next(&mut s, AnalyzeEvent::StoredLookup(None)), AnalyzeAction::ResolveModel));
    match analyze_next(&mut s, AnalyzeEvent::ModelResolved("pro-model".to_string())) {
        AnalyzeAction::SendMeta { model, source } => {
            assert_eq!(model, "pro-model");
            assert_eq!(source, "Pro");
        }
        other => panic!("unexpected {other:?}"),
    }
    assert!(matches!(analyze_next(&mut s, AnalyzeEvent::Done), AnalyzeAction::Generate));
    assert!(matches!(analyze_next(&mut s, AnalyzeEvent::Generated), AnalyzeAction::Persist { existing: None }));
    assert!(matches!(analyze_next(&mut s, AnalyzeEvent::Persisted(11)), AnalyzeAction::AddAlias(11)));
    assert!(matches!(analyze_next(&mut s, AnalyzeEvent::Done), AnalyzeAction::AnswerFresh { entry_id: 11, remember: false }));
}

#[test]
fn prototype_hit_adds_alias_before_answering() {
    let mut s = start_analysis("ging", AnalysisMode::Compact, QualityMode::Default, false, None, "m", false).unwrap();
    analyze_next(&mut s, AnalyzeEvent::Start);
    analyze_next(&mut s, AnalyzeEvent::StoredLookup(None));
    analyze_next(&mut s, AnalyzeEvent::DictionaryLookup(None));
    analyze_next(&mut s, AnalyzeEvent::DictionaryLookup(hit("gehen", false)));
    assert!(matches!(analyze_next(&mut s, AnalyzeEvent::StoredLookup(Some(StoredHit { id: 5, model: None }))), AnalyzeAction::AddAlias(5)));
    assert!(matches!(analyze_next(&mut s, AnalyzeEvent::Done), AnalyzeAction::AnswerStored { entry_id: 5, remember: true }));
}

#[test]
fn compact_mode_builds_from_dictionary() {
    let mut s = start_analysis("Haus", AnalysisMode::Compact, QualityMode::Default, false, None, "m", false).unwrap();
    analyze_next(&mut s, AnalyzeEvent::Start);
    analyze_next(&mut s, AnalyzeEvent::StoredLookup(None));
    assert!(matches!(analyze_next(&mut s, AnalyzeEvent::DictionaryLookup(hit("Haus", false))), AnalyzeAction::FindStoredByPrototype));
    assert!(matches!(analyze_next(&mut s, AnalyzeEvent::StoredLookup(None)), AnalyzeAction::BuildCompact));
    assert!(matches!(analyze_next(&mut s, AnalyzeEvent::Generated), AnalyzeAction::Persist { existing: None }));
    assert!(matches!(analyze_next(&mut s, AnalyzeEvent::Persisted(2)), AnalyzeAction::AnswerFresh { entry_id: 2, remember: true }));
}

#[test]
fn forced_refresh_skips_the_store_and_overwrites() {
    let mut s = start_analysis("Haus", AnalysisMode::Full, QualityMode::Default, true, None, "m", false).unwrap();
    assert!(matches!(analyze_next(&mut s, AnalyzeEvent::Start), AnalyzeAction::FindHeadword));
    assert!(matches!(analyze_next(&mut s, AnalyzeEvent::DictionaryLookup(hit("Haus", false))), AnalyzeAction::FindExistingByPrototype));
    assert!(matches!(analyze_next(&mut s, AnalyzeEvent::StoredLookup(Some(StoredHit { id: 9, model: None }))), AnalyzeAction::Generate));
    assert!(matches!(analyze_next(&mut s, AnalyzeEvent::Generated), AnalyzeAction::Persist { existing: Some(9) }));
}

#[test]
fn explicit_entry_id_is_looked_up() {
    let mut s = start_analysis("Haus", AnalysisMode::Full, QualityMode::Default, false, Some(4), "m", false).unwrap();
    analyze_next(&mut s, AnalyzeEvent::Start);
    analyze_next(&mut s, AnalyzeEvent::StoredLookup(None));
    assert!(matches!(analyze_next(&mut s, AnalyzeEvent::DictionaryLookup(hit("Haus", false))), AnalyzeAction::FindExistingById(4)));
}

#[test]
fn stream_cancellation_stops_quietly() {
    let mut s = start_analysis("Haus", AnalysisMode::Full, QualityMode::Default, false, None, "m", true).unwrap();
    analyze_next(&mut s, AnalyzeEvent::Start);
    analyze_next(&mut s, AnalyzeEvent::StoredLookup(None));
    analyze_next(&mut s, AnalyzeEvent::DictionaryLookup(hit("Haus", false)));
    analyze_next(&mut s, AnalyzeEvent::StoredLookup(None));
    analyze_next(&mut s, AnalyzeEvent::ModelResolved("m".to_string()));
    analyze_next(&mut s, AnalyzeEvent::Done);
    let a = analyze_next(&mut s, AnalyzeEvent::GenerationError("stream analyze canceled by client".to_string()));
    assert!(matches!(a, AnalyzeAction::Stop));
}

#[test]
fn plain_generation_error_fails() {
    let mut s = start_analysis("Haus", AnalysisMode::Full, QualityMode::Default, false, None, "m", false).unwrap();
    analyze_next(&mut s, AnalyzeEvent::Start);
    analyze_next(&mut s, AnalyzeEvent::StoredLookup(None));
    analyze_next(&mut s, AnalyzeEvent::DictionaryLookup(hit("Haus", false)));
    analyze_next(&mut s, AnalyzeEvent::StoredLookup(None));
    let a = analyze_next(&mut s, AnalyzeEvent::GenerationError("stream analyze canceled by client".to_string()));
    assert!(matches!(a, AnalyzeAction::Fail));
}
