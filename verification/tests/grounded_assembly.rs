use de_ai_hilfer::grounded_assembly::{
    assemble_grounded_structured_document, first_ipa_from_dictionary_facts,
};
use de_ai_hilfer::json::JsonValue;
use de_ai_hilfer::model_a::{ModelAEntry, ModelAGrammar, ModelAOutput};
use de_ai_hilfer::models::{StructuredAnalysisDocument, StructuredBranchMeaning, StructuredUsageModule};

fn s(x: &str) -> JsonValue {
    JsonValue::Str(x.to_string())
}

fn facts(rows: Vec<JsonValue>) -> JsonValue {
    JsonValue::Object(vec![("dictionary_rows".to_string(), JsonValue::Array(rows))])
}

fn row(ipas: Vec<JsonValue>) -> JsonValue {
    JsonValue::Object(vec![("ipas".to_string(), JsonValue::Array(ipas))])
}

#[test]
fn first_ipa_skips_blank_and_non_string_values() {
    let f = facts(vec![
        JsonValue::Object(vec![]),
        row(vec![s("  "), JsonValue::Null]),
        row(vec![JsonValue::Number("1".to_string()), s(" /haʊs/ "), s("/x/")]),
    ]);
    assert_eq!(first_ipa_from_dictionary_facts(Some(&f)), Some("/haʊs/".to_string()));
    assert_eq!(first_ipa_from_dictionary_facts(None), None);
    assert_eq!(first_ipa_from_dictionary_facts(Some(&JsonValue::Null)), None);
    assert_eq!(first_ipa_from_dictionary_facts(Some(&facts(vec![row(vec![])]))), None);
}

fn entry(selector: &str, pos: &str, zh: &str, grammar: ModelAGrammar) -> ModelAEntry {
    ModelAEntry {
        selector: selector.to_string(),
        pos: pos.to_string(),
        meanings: vec![StructuredBranchMeaning { zh: zh.to_string(), en: String::new() }],
        grammar,
    }
}

#[test]
fn single_entry_rows_use_plain_labels() {
    let out = ModelAOutput {
        word: "Haus".to_string(),
        entries: vec![entry(
            "",
            " noun ",
            " 房子 ",
            ModelAGrammar {
                genders: vec!["neuter".to_string()],
                plural_forms: vec!["Häuser".to_string(), "Hause".to_string()],
                ..ModelAGrammar::default()
            },
        )],
    };
    let module = StructuredAnalysisDocument {
        usage_modules: vec![StructuredUsageModule {
            title: "t".to_string(),
            explanation: "e".to_string(),
            example_de: "d".to_string(),
            example_zh: "z".to_string(),
        }],
        ..StructuredAnalysisDocument::default()
    };
    let f = facts(vec![row(vec![s("haʊs")])]);

    let doc = assemble_grounded_structured_document(" Haus ", Some(&f), &out, module);

    assert_eq!(doc.headword, "Haus");
    assert_eq!(doc.phonetic, "haʊs");
    assert_eq!(doc.usage_modules.len(), 1);
    assert_eq!(doc.meanings.len(), 1);
    assert_eq!(doc.meanings[0].part_of_speech, "noun");
    assert_eq!(doc.meanings[0].chinese, "房子");
    let rows: Vec<(String, String)> = doc.grammar_rows.iter().map(|r| (r.key.clone(), r.value.clone())).collect();
    assert_eq!(
        rows,
        vec![
            ("词性".to_string(), "noun".to_string()),
            ("性".to_string(), "neuter".to_string()),
            ("复数".to_string(), "Häuser/Hause".to_string()),
        ]
    );
    assert_eq!(doc.grammar_branches.len(), 1);
    assert_eq!(doc.grammar_branches[0].selector, "noun");
    assert_eq!(doc.grammar_branches[0].grammar.genders, ["neuter"]);
}

#[test]
fn several_entries_prefix_row_keys_with_selector() {
    let out = ModelAOutput {
        word: "laufen".to_string(),
        entries: vec![
            entry("laufen (verb)", "verb", "跑", ModelAGrammar { auxiliaries: vec!["sein".to_string()], ..ModelAGrammar::default() }),
            entry("", "", "", ModelAGrammar::default()),
        ],
    };
    let doc = assemble_grounded_structured_document("laufen", None, &out, StructuredAnalysisDocument::default());
    assert_eq!(doc.phonetic, "");
    assert_eq!(doc.grammar_rows[0].key, "laufen (verb) / 词性");
    assert_eq!(doc.grammar_rows[1].key, "laufen (verb) / 助动词");
    assert_eq!(doc.grammar_rows[1].value, "sein");
    assert_eq!(doc.grammar_rows.len(), 2);
    assert_eq!(doc.grammar_branches.len(), 1);
}
