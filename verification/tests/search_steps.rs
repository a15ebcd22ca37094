use de_ai_hilfer::analyze_flow::DictionaryHit;
use de_ai_hilfer::json::JsonValue;
use de_ai_hilfer::query_flow::KnowledgeHit;
use de_ai_hilfer::search_steps::{search_next, start_search, SearchAction, SearchEvent, SearchState};

fn hit(headword: &str) -> Option<DictionaryHit> {
    Some(DictionaryHit { headword: headword.to_string(), is_form_reference: false })
}

fn to_lookups(s: &mut SearchState) {
    assert!(matches!(search_next(s, SearchEvent::Start), SearchAction::FindKnowledge));
}

fn compact_of(a: SearchAction) -> (String, String) {
    match a {
        SearchAction::Compact { headword, source } => (headword, source),
        other => panic!("unexpected {other:?}"),
    }
}

#[test]
fn blank_term_is_refused() {
    assert!(start_search("  ", "x").is_err());
}

#[test]
fn dictionary_headword_answers_compactly() {
    let mut s = start_search(" Haus ", "").unwrap();
    to_lookups(&mut s);
    assert!(matches!(search_next(&mut s, SearchEvent::Knowledge(None)), SearchAction::FindHeadword));
    assert!(matches!(search_next(&mut s, SearchEvent::Dictionary(hit("Haus"))), SearchAction::FindForm));
    let (h, src) = compact_of(search_next(&mut s, SearchEvent::Dictionary(None)));
    assert_eq!((h.as_str(), src.as_str()), ("Haus", "字典直达"));
}

#[test]
fn stored_entry_answers() {
    let mut s = start_search("Haus", "").unwrap();
    to_lookups(&mut s);
    let k = KnowledgeHit {
        query_text: "Haus".to_string(),
        analysis: JsonValue::Object(vec![("markdown".to_string(), JsonValue::Str("## Haus".to_string()))]),
    };
    search_next(&mut s, SearchEvent::Knowledge(Some(k)));
    search_next(&mut s, SearchEvent::Dictionary(None));
    assert!(matches!(search_next(&mut s, SearchEvent::Dictionary(None)), SearchAction::AnswerKnowledge));
}

#[test]
fn inference_runs_fuzzy_then_embedding_then_model() {
    let mut s = start_search("Hauz", "").unwrap();
    to_lookups(&mut s);
    search_next(&mut s, SearchEvent::Knowledge(None));
    search_next(&mut s, SearchEvent::Dictionary(None));
    assert!(matches!(search_next(&mut s, SearchEvent::Dictionary(None)), SearchAction::ListFuzzyHeadwords));
    assert!(matches!(search_next(&mut s, SearchEvent::FuzzyCandidates(vec![])), SearchAction::AskEmbedding));
    assert!(matches!(search_next(&mut s, SearchEvent::Embedding(None)), SearchAction::AskModel));
    let (h, src) = compact_of(search_next(&mut s, SearchEvent::ModelReply(Some("Haus".to_string()))));
    assert_eq!((h.as_str(), src.as_str()), ("Haus", "AI推断"));
}

#[test]
fn local_fuzzy_match_answers_before_embeddings() {
    let mut s = start_search("Hauss", "").unwrap();
    to_lookups(&mut s);
    search_next(&mut s, SearchEvent::Knowledge(None));
    search_next(&mut s, SearchEvent::Dictionary(None));
    search_next(&mut s, SearchEvent::Dictionary(None));
    let (h, src) = compact_of(search_next(&mut s, SearchEvent::FuzzyCandidates(vec!["Haus".to_string()])));
    assert_eq!((h.as_str(), src.as_str()), ("Haus", "本地模糊推断"));
}

#[test]
fn model_failure_at_the_end_answers_pending() {
    let mut s = start_search("银行", "").unwrap();
    to_lookups(&mut s);
    search_next(&mut s, SearchEvent::Knowledge(None));
    search_next(&mut s, SearchEvent::Dictionary(None));
    search_next(&mut s, SearchEvent::Dictionary(None));
    search_next(&mut s, SearchEvent::FuzzyCandidates(vec![]));
    search_next(&mut s, SearchEvent::Embedding(None));
    assert!(matches!(search_next(&mut s, SearchEvent::ModelReply(None)), SearchAction::AnswerPending));
}

#[test]
fn hint_embedding_overrides_the_term() {
    let mut s = start_search("银行", "Geld").unwrap();
    assert!(matches!(search_next(&mut s, SearchEvent::Start), SearchAction::AskEmbedding));
    let (h, src) = compact_of(search_next(&mut s, SearchEvent::Embedding(Some("Bank".to_string()))));
    assert_eq!((h.as_str(), src.as_str()), ("Bank", "语义向量推断"));
}

#[test]
fn hint_model_failure_fails_the_search() {
    let mut s = start_search("银行", "Geld").unwrap();
    search_next(&mut s, SearchEvent::Start);
    assert!(matches!(search_next(&mut s, SearchEvent::Embedding(None)), SearchAction::AskModel));
    assert!(matches!(search_next(&mut s, SearchEvent::ModelReply(None)), SearchAction::Fail));
}

#[test]
fn hint_answer_equal_to_term_goes_on_with_lookups() {
    let mut s = start_search("Haus", "home").unwrap();
    search_next(&mut s, SearchEvent::Start);
    search_next(&mut s, SearchEvent::Embedding(Some("haus".to_string())));
    assert!(matches!(search_next(&mut s, SearchEvent::ModelReply(Some("Haus".to_string()))), SearchAction::FindKnowledge));
}
