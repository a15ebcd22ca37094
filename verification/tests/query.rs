use de_ai_hilfer::query_match::{
    fold_match_char, fuzzy_score, fuzzy_threshold, levenshtein_distance, looks_like_german_candidate,
    normalize_for_match,
};
use de_ai_hilfer::query_suggestions::{
    case_match_tier, lexeme_relation_tier, rank_candidate, sort_and_limit, DBSuggestion,
    RankedSuggestion,
};

fn chars(s: &str) -> Vec<char> {
    s.chars().collect()
}

fn suggestion(text: &str, kind: &str, source: &str) -> DBSuggestion {
    DBSuggestion {
        suggestion_type: kind.to_string(),
        entry_id: 0,
        query_text: text.to_string(),
        preview: String::new(),
        analysis_markdown: String::new(),
        source: source.to_string(),
    }
}

#[test]
fn folding_spells_out_umlauts_and_drops_punctuation() {
    assert_eq!(normalize_for_match("  Straße-Übergang! "), "strasseubergang");
    assert_eq!(fold_match_char('ß'), vec!['s', 's']);
    assert_eq!(fold_match_char('-'), Vec::<char>::new());
    assert_eq!(fold_match_char('7'), vec!['7']);
}

#[test]
fn german_candidates_need_a_latin_letter() {
    assert!(looks_like_german_candidate(" Haus-Tür 2 "));
    assert!(!looks_like_german_candidate("   "));
    assert!(!looks_like_german_candidate("12 34"));
    assert!(!looks_like_german_candidate("房子"));
}

#[test]
fn levenshtein_distances() {
    assert_eq!(levenshtein_distance(&chars("kitten"), &chars("sitting")), 3);
    assert_eq!(levenshtein_distance(&chars(""), &chars("abc")), 3);
    assert_eq!(levenshtein_distance(&chars("haus"), &chars("haus")), 0);
    assert_eq!(levenshtein_distance(&chars("flaw"), &chars("lawn")), 2);
}

#[test]
fn thresholds_and_scores() {
    assert_eq!(fuzzy_threshold(4), 1);
    assert_eq!(fuzzy_threshold(5), 2);
    assert_eq!(fuzzy_threshold(8), 3);
    assert_eq!(fuzzy_score(&chars("haus"), &chars("haus")), 0);
    assert_eq!(fuzzy_score(&chars("haus"), &chars("maus")), 1 + 2 + 1);
    assert_eq!(fuzzy_score(&chars("hau"), &chars("haus")), 1 + 1);
}

#[test]
fn case_tiers() {
    assert_eq!(case_match_tier("Haus", "Haus"), 0);
    assert_eq!(case_match_tier("Haus", "Hausen"), 1);
    assert_eq!(case_match_tier("haus", " HAUS "), 2);
    assert_eq!(case_match_tier("haus", "Maus"), 3);
    assert_eq!(lexeme_relation_tier("form_of"), 1);
    assert_eq!(lexeme_relation_tier("other"), 4);
}

#[test]
fn ranking_tiers_and_rejection() {
    let r = rank_candidate("Hau", "Haus", "知识库", suggestion("Haus", "knowledge_prefix", "知识库"), 0).unwrap();
    assert_eq!(r.match_tier, 0);
    assert_eq!(r.source_tier, 0);
    assert_eq!(r.case_tier, 1);
    assert_eq!(r.distance, 1);
    assert_eq!(r.normalized_query_text, "haus");
    let fuzzy = rank_candidate("Hous", "Haus", "词典", suggestion("Haus", "dictionary_fuzzy", "词典"), 2).unwrap();
    assert_eq!(fuzzy.match_tier, 2);
    assert_eq!(fuzzy.source_tier, 5);
    assert!(rank_candidate("xyz", "Haus", "词典", suggestion("Haus", "dictionary_fuzzy", "词典"), 0).is_none());
    assert!(rank_candidate("!!", "Haus", "词典", suggestion("Haus", "dictionary_fuzzy", "词典"), 0).is_none());
}

fn ranked(text: &str, match_tier: u8, source_tier: u8) -> RankedSuggestion {
    RankedSuggestion {
        suggestion: suggestion(text, "k", "s"),
        normalized_query_text: text.to_lowercase(),
        match_tier,
        source_tier,
        relation_tier: 0,
        case_tier: 0,
        distance: 0,
    }
}

#[test]
fn sorting_orders_dedupes_and_limits() {
    let input = vec![ranked("b", 1, 0), ranked("a", 0, 2), ranked("c", 0, 1), ranked("a", 0, 0), ranked("d", 2, 0)];
    let out = sort_and_limit(input, 3);
    let texts: Vec<String> = out.iter().map(|s| s.query_text.clone()).collect();
    assert_eq!(texts, vec!["a".to_string(), "c".to_string(), "b".to_string()]);
    assert!(sort_and_limit(Vec::new(), 5).is_empty());
}
