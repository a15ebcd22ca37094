use de_ai_hilfer::analyze_flow::{
    add_query_alias, analysis_markdown, analysis_model, build_no_candidate_analysis,
    existing_entry_lookup, generated_source, generation_hint, is_stream_canceled,
    needs_form_lookup, request_query, resolve_prototype, should_persist, update_recent_searches,
    AnalysisMode, AnalyzeError, DictionaryHit, EntryChoice, ExistingLookup, RECENT_SEARCH_LIMIT,
};
use de_ai_hilfer::documents::QualityMode;
use de_ai_hilfer::json::JsonValue;

fn hit(h: &str, form_ref: bool) -> DictionaryHit {
    DictionaryHit { headword: h.to_string(), is_form_reference: form_ref }
}

#[test]
fn blank_query_is_refused() {
    assert_eq!(request_query("   ").unwrap_err(), AnalyzeError::EmptyQuery);
    assert_eq!(AnalyzeError::EmptyQuery.message(), "query_text cannot be empty");
    assert_eq!(request_query("  Haus ").unwrap(), "Haus");
}

#[test]
fn blank_hint_counts_as_none() {
    assert_eq!(generation_hint(Some("  ")), None);
    assert_eq!(generation_hint(None), None);
    assert_eq!(generation_hint(Some(" Bank als Möbel ")), Some("Bank als Möbel".to_string()));
}

#[test]
fn prototype_prefers_exact_headword() {
    let exact = hit("Haus", false);
    assert!(!needs_form_lookup(Some(&exact)));
    let r = resolve_prototype("Haus", Some(&exact), None);
    assert_eq!(r.prototype, "Haus");
    assert_eq!(r.entry, EntryChoice::Exact);
}

#[test]
fn form_reference_entry_resolves_to_its_headword() {
    let exact = hit("ging", true);
    assert!(needs_form_lookup(Some(&exact)));
    let form = hit("gehen", false);
    let r = resolve_prototype("ging", Some(&exact), Some(&form));
    assert_eq!(r.prototype, "gehen");
    assert_eq!(r.entry, EntryChoice::Form);
    let same = hit("ging", false);
    let r = resolve_prototype("ging", Some(&exact), Some(&same));
    assert_eq!(r.entry, EntryChoice::Exact);
}

#[test]
fn missing_entries_keep_the_query() {
    assert!(needs_form_lookup(None));
    let r = resolve_prototype("xyz", None, None);
    assert_eq!(r.prototype, "xyz");
    assert_eq!(r.entry, EntryChoice::Missing);
    let form = hit("gehen", false);
    assert_eq!(resolve_prototype("gingen", None, Some(&form)).prototype, "gehen");
}

#[test]
fn existing_entry_choice() {
    assert_eq!(existing_entry_lookup(Some(7), false), ExistingLookup::ById(7));
    assert_eq!(existing_entry_lookup(None, true), ExistingLookup::ByPrototype);
    assert_eq!(existing_entry_lookup(None, false), ExistingLookup::Skip);
}

#[test]
fn query_becomes_alias_once() {
    let mut aliases = vec!["ging".to_string()];
    add_query_alias(&mut aliases, "gehen", "ging");
    assert_eq!(aliases, vec!["ging".to_string()]);
    add_query_alias(&mut aliases, "gehen", "gegangen");
    assert_eq!(aliases, vec!["ging".to_string(), "gegangen".to_string()]);
    add_query_alias(&mut aliases, "gehen", "gehen");
    assert_eq!(aliases.len(), 2);
}

#[test]
fn persistence_and_source_labels() {
    assert!(should_persist(true, false));
    assert!(should_persist(false, true));
    assert!(!should_persist(false, false));
    assert_eq!(generated_source(AnalysisMode::Full, QualityMode::Pro, true), "Pro");
    assert_eq!(generated_source(AnalysisMode::Full, QualityMode::Default, false), "Flash");
    assert_eq!(generated_source(AnalysisMode::Compact, QualityMode::Pro, true), "generated");
    assert_eq!(generated_source(AnalysisMode::Compact, QualityMode::Pro, false), "待确认");
    assert_eq!(AnalysisMode::Compact.name(), "compact");
}

#[test]
fn recent_searches_move_to_front_and_stay_short() {
    let mut recent: Vec<String> = (0..20).map(|i| format!("w{i}")).collect();
    update_recent_searches(&mut recent, "w5");
    assert_eq!(recent[0], "w5");
    assert_eq!(recent.len(), 20);
    assert_eq!(recent.iter().filter(|w| w.as_str() == "w5").count(), 1);
    update_recent_searches(&mut recent, "neu");
    assert_eq!(recent.len(), RECENT_SEARCH_LIMIT);
    assert_eq!(recent[0], "neu");
    assert_eq!(recent[1], "w5");
    assert!(!recent.contains(&"w19".to_string()));
}

#[test]
fn canceled_streams_are_recognised() {
    assert!(is_stream_canceled("grounded: stream analyze canceled by client"));
    assert!(!is_stream_canceled("timeout"));
}

#[test]
fn stored_analysis_fields() {
    let a = JsonValue::Object(vec![
        ("markdown".to_string(), JsonValue::Str("## Haus".to_string())),
        ("model".to_string(), JsonValue::Str("gemini".to_string())),
    ]);
    assert_eq!(analysis_markdown(&a), "## Haus");
    assert_eq!(analysis_model(&a), Some("gemini".to_string()));
    assert_eq!(analysis_markdown(&JsonValue::Null), "");
    assert_eq!(analysis_model(&JsonValue::Null), None);
}

#[test]
fn no_candidate_answer_names_the_query() {
    let d = build_no_candidate_analysis("xq");
    assert!(d.markdown.starts_with("## 未找到可靠候选\n\n- `xq` 没有命中字典"));
    assert_eq!(d.tags, vec!["未找到可靠候选".to_string()]);
    assert!(d.prototype.is_none());
}
