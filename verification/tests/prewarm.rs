use de_ai_hilfer::json::JsonValue;
use de_ai_hilfer::prewarm::{
    frequency_candidates, is_short_all_caps, learning_order_fetch_limit, looks_like_frequency_token, max_cefr_rank,
    resolve_frequency_headword, should_skip_prewarm_entry, PrewarmSelection, PrewarmSelectionSource,
};

fn s(v: &str) -> JsonValue {
    JsonValue::Str(v.to_string())
}

fn raw(pos: &str, tags: &[&str]) -> JsonValue {
    JsonValue::Object(vec![
        ("pos".to_string(), s(pos)),
        (
            "senses".to_string(),
            JsonValue::Array(vec![JsonValue::Object(vec![(
                "tags".to_string(),
                JsonValue::Array(tags.iter().map(|t| s(t)).collect()),
            )])]),
        ),
    ])
}

#[test]
fn selection_source_setting() {
    assert_eq!(PrewarmSelectionSource::from_setting(Some(" FREQUENCY ")), PrewarmSelectionSource::Frequency);
    assert_eq!(PrewarmSelectionSource::from_setting(Some("other")), PrewarmSelectionSource::LearningOrder);
    assert_eq!(PrewarmSelectionSource::from_setting(None), PrewarmSelectionSource::LearningOrder);
    assert_eq!(PrewarmSelectionSource::Frequency.as_str(), "frequency");
    assert_eq!(PrewarmSelectionSource::LearningOrder.as_str(), "learning_order");
}

#[test]
fn cefr_levels_and_fetch_limit() {
    assert_eq!(max_cefr_rank(Some(" b2 ")), Some(4));
    assert_eq!(max_cefr_rank(Some("C2")), Some(6));
    assert_eq!(max_cefr_rank(Some("D1")), None);
    assert_eq!(max_cefr_rank(None), None);
    assert_eq!(learning_order_fetch_limit(0), 64);
    assert_eq!(learning_order_fetch_limit(10), 640);
    assert_eq!(learning_order_fetch_limit(78), 4992);
    assert_eq!(learning_order_fetch_limit(79), 5000);
}

#[test]
fn tokens_worth_looking_up() {
    assert!(is_short_all_caps("USA"));
    assert!(is_short_all_caps("B.R.D."));
    assert!(!is_short_all_caps("HALLO"));
    assert!(!is_short_all_caps("Usa"));
    assert!(looks_like_frequency_token("Haus"));
    assert!(!looks_like_frequency_token("EU"));
    assert!(!looks_like_frequency_token("a1"));
}

#[test]
fn skip_rules() {
    assert!(should_skip_prewarm_entry("Anna", &raw("Name", &[])));
    assert!(should_skip_prewarm_entry("ging", &raw("verb", &["form-of"])));
    assert!(should_skip_prewarm_entry("ABC", &raw("noun", &["initialism"])));
    assert!(should_skip_prewarm_entry("GmbH", &raw("noun", &["abbreviation"])) == false);
    assert!(should_skip_prewarm_entry("BRD", &raw("noun", &["abbreviation"])));
    assert!(should_skip_prewarm_entry("gibts", &raw("verb", &["contraction"])));
    assert!(!should_skip_prewarm_entry("is", &raw("verb", &["alt-of"])));
    assert!(should_skip_prewarm_entry("is", &raw("verb", &["colloquial", "alt-of"])));
    assert!(!should_skip_prewarm_entry("Haus", &raw("noun", &["neuter"])));
}

#[test]
fn frequency_list_candidates() {
    let content = "word,count\nHaus,100\nhaus,90\nEU,80\n  gehen ,70\nx\nHaus";
    assert_eq!(frequency_candidates(content), vec!["Haus".to_string(), "gehen".to_string()]);
    let no_header = "Maus\nmaus";
    assert_eq!(frequency_candidates(no_header), vec!["Maus".to_string()]);
}

#[test]
fn frequency_headword_lookup() {
    let hs = vec!["Essen".to_string(), "essen".to_string()];
    assert_eq!(resolve_frequency_headword("essen", &hs), Some("essen".to_string()));
    assert_eq!(resolve_frequency_headword("ESSEN", &hs), Some("Essen".to_string()));
    assert_eq!(resolve_frequency_headword("trinken", &hs), None);
}

#[test]
fn selection_stops_at_the_limit() {
    let mut sel = PrewarmSelection::new(2);
    sel.count_scanned();
    assert!(!sel.offer_learning_order("Anna", &raw("name", &[])));
    sel.count_scanned();
    assert!(!sel.offer_learning_order("Haus", &raw("noun", &[])));
    sel.count_scanned();
    assert!(sel.offer_learning_order("Maus", &raw("noun", &[])));
    let report = sel.report(PrewarmSelectionSource::LearningOrder);
    assert_eq!(report.headwords, vec!["Haus".to_string(), "Maus".to_string()]);
    assert_eq!(report.scanned_candidates, 3);

    let mut freq = PrewarmSelection::new(5);
    assert!(!freq.offer_frequency("Essen", &raw("noun", &[])));
    assert!(!freq.offer_frequency("essen", &raw("verb", &[])));
    assert_eq!(freq.headwords, vec!["Essen".to_string()]);
    assert_eq!(freq.seen, vec!["essen".to_string()]);
}
