use de_ai_hilfer::facts::{
    build_light_dictionary_facts_payload, collect_fact_forms, collect_form_values, collect_head_templates,
    collect_ipas, collect_senses, detect_case_signal, preferred_headword_rows, DictionaryRow, FormKind,
};
use de_ai_hilfer::json::JsonValue;

fn s(x: &str) -> JsonValue {
    JsonValue::Str(x.to_string())
}

fn arr(xs: Vec<JsonValue>) -> JsonValue {
    JsonValue::Array(xs)
}

fn obj(ms: Vec<(&str, JsonValue)>) -> JsonValue {
    JsonValue::Object(ms.into_iter().map(|(k, v)| (k.to_string(), v)).collect())
}

fn strs(xs: &[&str]) -> JsonValue {
    arr(xs.iter().map(|x| s(x)).collect())
}

fn show(v: &JsonValue) -> String {
    match v {
        JsonValue::Null => "null".to_string(),
        JsonValue::Bool(b) => b.to_string(),
        JsonValue::Number(n) => n.clone(),
        JsonValue::Str(t) => format!("\"{}\"", t),
        JsonValue::Array(xs) => format!("[{}]", xs.iter().map(show).collect::<Vec<_>>().join(",")),
        JsonValue::Object(ms) => format!(
            "{{{}}}",
            ms.iter().map(|(k, v)| format!("\"{}\":{}", k, show(v))).collect::<Vec<_>>().join(",")
        ),
    }
}

fn form(f: &str, tags: &[&str]) -> JsonValue {
    obj(vec![("form", s(f)), ("tags", strs(tags))])
}

fn haus() -> JsonValue {
    obj(vec![
        ("word", s("Haus")),
        ("pos", s("Noun")),
        ("sounds", arr(vec![obj(vec![("ipa", s(" /haʊ̯s/ "))]), obj(vec![("ipa", s("/a/"))]), obj(vec![("ipa", s("/a/"))])])),
        ("head_templates", arr(vec![obj(vec![("expansion", s("Haus n"))]), obj(vec![("expansion", s(" "))])])),
        (
            "senses",
            arr(vec![
                obj(vec![("glosses", strs(&["house", " ", "home", "building", "extra"])), ("tags", strs(&["neuter"]))]),
                obj(vec![("glosses", strs(&[" "]))]),
            ]),
        ),
        (
            "forms",
            arr(vec![
                form("Häuser", &["plural", "nominative"]),
                form("Häusern", &["plural", "dative"]),
                form("Hauses", &["genitive", "singular"]),
                form("de-ndecl", &["plural"]),
            ]),
        ),
    ])
}

#[test]
fn case_signal_of_the_first_letter() {
    assert_eq!(detect_case_signal("Haus"), "titlecase_or_uppercase");
    assert_eq!(detect_case_signal("1. gehen"), "lowercase");
    assert_eq!(detect_case_signal("123"), "other");
}

#[test]
fn ipas_and_templates_are_sorted_and_distinct() {
    assert_eq!(collect_ipas(&haus()), vec!["/a/".to_string(), "/haʊ̯s/".to_string()]);
    assert_eq!(collect_head_templates(&haus()), vec!["Haus n".to_string()]);
    assert!(collect_ipas(&JsonValue::Null).is_empty());
}

#[test]
fn senses_keep_three_glosses_and_drop_empty_ones() {
    let senses = collect_senses(&haus());
    assert_eq!(senses.len(), 1);
    assert_eq!(show(&senses[0]), "{\"glosses\":[\"house\",\"home\",\"building\"],\"tags\":[\"neuter\"]}");
}

#[test]
fn forms_by_kind() {
    let forms = vec![
        form("ist", &["present", "singular", "third-person"]),
        form("war", &["past"]),
        form("wäre", &["past", "subjunctive"]),
        form("gewesen", &["participle", "past"]),
        form("sein", &["auxiliary"]),
        form("sein", &["auxiliary"]),
    ];
    assert_eq!(collect_form_values(&forms, FormKind::Present3sg, 4), vec!["ist".to_string()]);
    assert_eq!(collect_form_values(&forms, FormKind::Preterite3sg, 4), vec!["war".to_string()]);
    assert_eq!(collect_form_values(&forms, FormKind::PartizipII, 4), vec!["gewesen".to_string()]);
    assert_eq!(collect_form_values(&forms, FormKind::Auxiliary, 4), vec!["sein".to_string()]);
    assert_eq!(collect_form_values(&forms, FormKind::Auxiliary, 0), vec!["sein".to_string()]);
    assert_eq!(
        show(&collect_fact_forms(&haus())),
        "{\"auxiliaries\":[],\"present_3sg\":[],\"preterite_3sg\":[],\"partizip_ii\":[],\"plural_forms\":[\"Häuser\"],\"genitive_forms\":[\"Hauses\"],\"comparative\":[],\"superlative\":[]}"
    );
}

#[test]
fn preferred_rows_are_own_entries_of_the_first_headword() {
    let row = |h: &str, form_of: bool| DictionaryRow {
        headword: h.to_string(),
        raw_data: obj(vec![("word", s(h))]),
        is_form_of: form_of,
        pos: None,
    };
    let rows = vec![row("Haus", true), row("haus", false), row("Haus", false), row("Haus", true)];
    assert_eq!(preferred_headword_rows(&rows), vec![2]);
    let forms_only = vec![row("ging", true), row("ging", true)];
    assert_eq!(preferred_headword_rows(&forms_only), vec![0, 1]);
    assert!(preferred_headword_rows(&vec![]).is_empty());
}

#[test]
fn payload_lists_the_preferred_rows() {
    let rows = vec![DictionaryRow { headword: "Haus".to_string(), raw_data: haus(), is_form_of: false, pos: None }];
    let p = build_light_dictionary_facts_payload("Haus", &rows);
    let text = show(&p);
    assert!(text.starts_with("{\"query\":\"Haus\",\"case_signal\":\"titlecase_or_uppercase\",\"dictionary_rows\":[{\"word\":\"Haus\",\"pos\":\"unknown\",\"is_form_of\":false,\"ipas\":[\"/a/\",\"/haʊ̯s/\"],\"head_templates\":[\"Haus n\"]"));
}
