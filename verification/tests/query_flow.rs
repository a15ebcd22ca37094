use de_ai_hilfer::analyze_flow::DictionaryHit;
use de_ai_hilfer::json::JsonValue;
use de_ai_hilfer::query_flow::{
    accept_hint_embedding, build_alias_suggestion, build_intelligent_search_pending_response, build_knowledge_suggestion, clamp_page_limit,
    get_suggestions, infer_headword_locally, intelligent_search_pending_markdown,
    is_semantic_override, lexeme_suggestion_preview, next_cursor, parse_library_cursor,
    plan_suggestions, relabel_source, route_intelligent_search, should_bypass_knowledge_hit,
    CursorError, KnowledgeCandidate, KnowledgeHit, LexemeCandidate, SearchRoute,
};

fn k(id: i64, q: &str) -> KnowledgeCandidate {
    KnowledgeCandidate {
        id,
        query_text: q.to_string(),
        preview: format!("preview {q}"),
        analysis_markdown: format!("## {q}"),
    }
}

fn lexeme(surface: &str, matched: &str, source: &str) -> LexemeCandidate {
    LexemeCandidate {
        surface: surface.to_string(),
        matched_surface: matched.to_string(),
        matched_source: source.to_string(),
        pos_summary: vec!["verb".to_string()],
        gloss_preview: JsonValue::Array(vec![JsonValue::Object(vec![(
            "glosses".to_string(),
            JsonValue::Array(vec![
                JsonValue::Str("to go".to_string()),
                JsonValue::Str("to walk".to_string()),
                JsonValue::Str("to leave".to_string()),
            ]),
        )])]),
    }
}

#[test]
fn short_queries_get_no_suggestions() {
    assert!(plan_suggestions(" a ").is_none());
    let p = plan_suggestions(" ge ").unwrap();
    assert_eq!(p.query, "ge");
    assert!(!p.fuzzy_enabled);
    assert!(plan_suggestions("geh").unwrap().fuzzy_enabled);
    assert!(plan_suggestions("ä").is_some());
}

#[test]
fn suggestion_builders() {
    let s = build_knowledge_suggestion(&k(3, "Haus"), "knowledge_prefix");
    assert_eq!((s.entry_id, s.query_text.as_str(), s.source.as_str()), (3, "Haus", "知识库"));
    let a = build_alias_suggestion(&k(3, "Haus"), "Häuser", "knowledge_alias_prefix");
    assert_eq!(a.preview, "↪ Häuser · preview Haus");
}

#[test]
fn lexeme_preview_lines() {
    assert_eq!(lexeme_suggestion_preview(&lexeme("gehen", "gehen", "headword")), "词典候选 · verb · to go / to walk");
    assert_eq!(lexeme_suggestion_preview(&lexeme("gehen", "ging", "form_of")), "词典候选 · verb · to go / to walk ↪ ging");
    let mut bare = lexeme("x", "x", "alias");
    bare.pos_summary.clear();
    bare.gloss_preview = JsonValue::Null;
    assert_eq!(lexeme_suggestion_preview(&bare), "词典候选 · 未知词性");
}

#[test]
fn suggestions_rank_prefix_matches_first() {
    let r = get_suggestions(
        "hau",
        &vec![k(1, "Haus"), k(2, "Haupt")],
        &vec![],
        &vec![],
        &vec![k(3, "Bau")],
        &vec![],
    );
    let texts: Vec<&str> = r.iter().map(|s| s.query_text.as_str()).collect();
    assert_eq!(texts, vec!["Haus", "Haupt", "Bau"]);
}

#[test]
fn lexemes_hide_alias_matches() {
    let r = get_suggestions(
        "ging",
        &vec![],
        &vec![(k(9, "gehen"), "ging".to_string())],
        &vec![lexeme("gehen", "ging", "form_of")],
        &vec![],
        &vec![],
    );
    assert_eq!(r.len(), 1);
    assert_eq!(r[0].source, "词典");
    assert_eq!(r[0].suggestion_type, "dictionary_lexeme");
}

#[test]
fn knowledge_hit_answers_unless_stored_under_a_form() {
    let hit = KnowledgeHit {
        query_text: "Haus".to_string(),
        analysis: JsonValue::Object(vec![("markdown".to_string(), JsonValue::Str("## Haus".to_string()))]),
    };
    assert!(matches!(route_intelligent_search("Haus", Some(&hit), None, None), SearchRoute::Knowledge));
    let form = DictionaryHit { headword: "gehen".to_string(), is_form_reference: false };
    let stored_form = KnowledgeHit {
        query_text: "ging".to_string(),
        analysis: JsonValue::Object(vec![(
            "dictionary_excerpt".to_string(),
            JsonValue::Object(vec![(
                "senses".to_string(),
                JsonValue::Array(vec![JsonValue::Object(vec![(
                    "tags".to_string(),
                    JsonValue::Array(vec![JsonValue::Str("form-of".to_string())]),
                )])]),
            )]),
        )]),
    };
    match route_intelligent_search("ging", Some(&stored_form), None, Some(&form)) {
        SearchRoute::Compact { headword, source } => {
            assert_eq!(headword, "gehen");
            assert_eq!(source, "字典变形推断");
        },
        _ => panic!("expected compact route"),
    }
}

#[test]
fn dictionary_routes() {
    let direct = DictionaryHit { headword: "Haus".to_string(), is_form_reference: false };
    match route_intelligent_search("Haus", None, Some(&direct), None) {
        SearchRoute::Compact { headword, source } => assert_eq!((headword.as_str(), source.as_str()), ("Haus", "字典直达")),
        _ => panic!("expected compact"),
    }
    assert!(matches!(route_intelligent_search("qqq", None, None, None), SearchRoute::Infer));
}

#[test]
fn low_confidence_hits_are_bypassed() {
    let hit = KnowledgeHit {
        query_text: "银行".to_string(),
        analysis: JsonValue::Object(vec![(
            "markdown".to_string(),
            JsonValue::Str("- 核心判断：暂未命中字典或知识库。".to_string()),
        )]),
    };
    assert!(should_bypass_knowledge_hit("银行", &hit));
    assert!(!should_bypass_knowledge_hit("Bank", &hit));
}

#[test]
fn inference_helpers() {
    assert!(is_semantic_override("Bank", "Geldinstitut"));
    assert!(!is_semantic_override("Straße", "strasse"));
    assert!(accept_hint_embedding("银行", "Bank"));
    assert!(!accept_hint_embedding("银行", "银行"));
    assert_eq!(relabel_source("generated", "字典直达"), "字典直达");
    assert_eq!(relabel_source("知识库", "字典直达"), "知识库");
}

#[test]
fn local_fuzzy_picks_the_closest_first() {
    let cands = vec!["Hause".to_string(), "Haus".to_string(), "Hass".to_string(), "Maus".to_string()];
    assert_eq!(infer_headword_locally("Haas", &cands), Some("Haus".to_string()));
    assert_eq!(infer_headword_locally("Hauz", &cands), None);
    assert_eq!(infer_headword_locally("xyzxyz", &cands), None);
}

#[test]
fn pending_markdown_mentions_the_hint() {
    assert!(intelligent_search_pending_markdown("").contains("且这个查询场景仍需要 AI 做语义推断"));
    assert!(intelligent_search_pending_markdown("Geld").contains("线索“Geld”仍需要"));
}

#[test]
fn library_cursors() {
    assert_eq!(parse_library_cursor(None), Ok(0));
    assert_eq!(parse_library_cursor(Some("  ")), Ok(0));
    assert_eq!(parse_library_cursor(Some(" 40 ")), Ok(40));
    assert_eq!(parse_library_cursor(Some("+7")), Ok(7));
    assert_eq!(parse_library_cursor(Some("-1")), Err(CursorError::Invalid));
    assert_eq!(parse_library_cursor(Some("12a")), Err(CursorError::Invalid));
    assert_eq!(parse_library_cursor(Some("9223372036854775808")), Err(CursorError::Invalid));
    assert_eq!(parse_library_cursor(Some("9223372036854775807")), Ok(i64::MAX));
    assert_eq!(CursorError::Invalid.message(), "invalid library cursor");
}

#[test]
fn cursors_round_trip() {
    for n in [0i64, 5, 60, 123456] {
        let c = next_cursor(Some(n)).unwrap();
        assert_eq!(parse_library_cursor(Some(&c)), Ok(n));
    }
    assert_eq!(next_cursor(None), None);
}

#[test]
fn page_limits_are_clamped() {
    assert_eq!(clamp_page_limit(0), 1);
    assert_eq!(clamp_page_limit(30), 30);
    assert_eq!(clamp_page_limit(500), 60);
}

#[test]
fn pending_response_has_no_entry() {
    let r = build_intelligent_search_pending_response("银行", "Geld");
    assert_eq!(r.entry_id, 0);
    assert_eq!(r.query_text, "银行");
    assert_eq!(r.source, "需要AI推断");
    assert!(r.analysis_markdown.starts_with("## 高级查询暂未完成\n\n- 当前本地字典没有直接命中，线索“Geld”"));
    assert!(r.structured_analysis.is_none() && r.model.is_none() && r.follow_ups.is_empty());
}

#[test]
fn suggestions_are_distinct_and_at_most_ten() {
    let r = get_suggestions("haus", &vec![k(1, "Haus")], &vec![], &vec![], &vec![k(2, "Haus")], &vec![]);
    assert_eq!(r.len(), 1);
    assert_eq!(r[0].entry_id, 1);
    let many: Vec<KnowledgeCandidate> = (0..12).map(|i| k(i, &format!("Haus{}", i))).collect();
    let r = get_suggestions("haus", &many, &vec![], &vec![], &vec![], &vec![]);
    assert_eq!(r.len(), 10);
}

#[test]
fn short_query_gets_no_suggestions_whatever_was_found() {
    let r = get_suggestions(" a ", &vec![k(1, "Auto")], &vec![], &vec![lexeme("Auto", "Auto", "headword")], &vec![], &vec![]);
    assert!(r.is_empty());
}

#[test]
fn two_letter_query_ignores_fuzzy_results() {
    let r = get_suggestions(" au ", &vec![k(1, "Auto")], &vec![], &vec![], &vec![k(2, "Aue")], &vec![(k(3, "Haus"), "Au".to_string())]);
    assert_eq!(r.len(), 1);
    assert_eq!(r[0].query_text, "Auto");
    assert_eq!(r[0].suggestion_type, "knowledge_prefix");
}
