use de_ai_hilfer::model_a::{
    normalize_case, normalize_model_a_output, normalize_pos, normalize_string_list,
    normalize_transitivity, ListKind, ModelAEntry, ModelAGrammar, ModelAOutput,
};
use de_ai_hilfer::models::StructuredBranchMeaning;

fn normalized_grammar(grammar: ModelAGrammar) -> ModelAGrammar {
    normalize_model_a_output(ModelAOutput {
        word: "test".to_string(),
        entries: vec![ModelAEntry { pos: "verb".to_string(), grammar, ..ModelAEntry::default() }],
    })
    .entries
    .remove(0)
    .grammar
}

#[test]
fn defaults_empty_transitive_government_to_accusative() {
    let grammar = normalized_grammar(ModelAGrammar {
        transitivity: "transitive".to_string(),
        governs_cases: Vec::new(),
        ..ModelAGrammar::default()
    });

    assert_eq!(grammar.governs_cases, ["accusative"]);
}

#[test]
fn defaults_empty_mixed_transitivity_government_to_accusative() {
    let grammar = normalized_grammar(ModelAGrammar {
        transitivity: "both".to_string(),
        governs_cases: Vec::new(),
        ..ModelAGrammar::default()
    });

    assert_eq!(grammar.governs_cases, ["accusative"]);
}

#[test]
fn preserves_explicit_non_default_government() {
    let grammar = normalized_grammar(ModelAGrammar {
        transitivity: "transitive".to_string(),
        governs_cases: vec!["dative".to_string()],
        ..ModelAGrammar::default()
    });

    assert_eq!(grammar.governs_cases, ["dative"]);
}

#[test]
fn leaves_intransitive_government_empty() {
    let grammar = normalized_grammar(ModelAGrammar {
        transitivity: "intransitive".to_string(),
        governs_cases: Vec::new(),
        ..ModelAGrammar::default()
    });

    assert!(grammar.governs_cases.is_empty());
}

#[test]
fn maps_vocabulary_and_drops_empty_entries() {
    let out = normalize_model_a_output(ModelAOutput {
        word: "  Haus ".to_string(),
        entries: vec![
            ModelAEntry {
                pos: " Substantiv ".to_string(),
                meanings: vec![
                    StructuredBranchMeaning { zh: " 房子 ".to_string(), en: "house".to_string() },
                    StructuredBranchMeaning { zh: " ".to_string(), en: "".to_string() },
                ],
                grammar: ModelAGrammar {
                    genders: vec!["N".to_string(), "neutrum".to_string(), "x".to_string()],
                    plural_forms: vec![" Häuser ".to_string(), "Häuser".to_string()],
                    ..ModelAGrammar::default()
                },
                ..ModelAEntry::default()
            },
            ModelAEntry::default(),
        ],
    });

    assert_eq!(out.word, "Haus");
    assert_eq!(out.entries.len(), 1);
    assert_eq!(out.entries[0].pos, "noun");
    assert_eq!(out.entries[0].meanings.len(), 1);
    assert_eq!(out.entries[0].meanings[0].zh, "房子");
    assert_eq!(out.entries[0].grammar.genders, ["neuter"]);
    assert_eq!(out.entries[0].grammar.plural_forms, ["Häuser"]);
}

#[test]
fn canonical_words_for_single_values() {
    assert_eq!(normalize_pos("Präposition"), "preposition");
    assert_eq!(normalize_pos(" Numerale "), "Numerale");
    assert_eq!(normalize_transitivity("Transitiv / Intransitiv"), "both");
    assert_eq!(normalize_case("Dativ"), "dative");
    assert_eq!(normalize_case("mit Akkusativ"), "accusative");
    assert_eq!(normalize_case("?"), "");
    let cases = normalize_string_list(
        &vec!["Akk".to_string(), "Dat".to_string(), "akkusativ".to_string()],
        ListKind::Case,
    );
    assert_eq!(cases, ["accusative", "dative"]);
}
