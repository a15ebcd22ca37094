use de_ai_hilfer::json::JsonValue;
use de_ai_hilfer::lexeme_bundles::{build_lexeme_bundles, ImportedRawEntry};
use de_ai_hilfer::model_a::split_model_string;
use de_ai_hilfer::lexeme_extract::{
    build_embedding_query_input, bundle_surface_links, clean_entry, extract_form_of_words, extract_forms,
    is_reliable_embedding_candidate, normalize_surface, prepare_raw_entry, sense_has_tag, LinkSource,
};

fn s(x: &str) -> JsonValue {
    JsonValue::Str(x.to_string())
}

fn arr(xs: Vec<JsonValue>) -> JsonValue {
    JsonValue::Array(xs)
}

fn obj(ms: Vec<(&str, JsonValue)>) -> JsonValue {
    JsonValue::Object(ms.into_iter().map(|(k, v)| (k.to_string(), v)).collect())
}

fn strs(xs: &[&str]) -> JsonValue {
    arr(xs.iter().map(|x| s(x)).collect())
}

fn ging() -> JsonValue {
    obj(vec![
        ("word", s("ging")),
        ("lang_code", s("de")),
        ("pos", s("verb")),
        (
            "senses",
            arr(vec![
                obj(vec![("tags", strs(&["form-of", "past"])), ("form_of", arr(vec![obj(vec![("word", s("gehen"))])]))]),
                obj(vec![("tags", strs(&["obsolete"])), ("form_of", arr(vec![obj(vec![("word", s("alt"))])]))]),
                obj(vec![("form_of", arr(vec![obj(vec![("word", s("gehen"))]), obj(vec![("word", s("Gang"))])]))]),
            ]),
        ),
        (
            "forms",
            arr(vec![
                obj(vec![("form", s(" gingen "))]),
                obj(vec![("form", s("de-conj")), ("tags", strs(&["inflection-template"]))]),
                obj(vec![("form", s("ginge"))]),
                obj(vec![("form", s("gingen"))]),
                obj(vec![("form", s(" "))]),
            ]),
        ),
    ])
}

fn senses_len(v: &JsonValue) -> usize {
    match v.get("senses") {
        Some(JsonValue::Array(xs)) => xs.len(),
        _ => usize::MAX,
    }
}

#[test]
fn tags_and_form_references() {
    assert!(sense_has_tag(&ging(), "past"));
    assert!(!sense_has_tag(&ging(), "plural"));
    assert_eq!(
        extract_form_of_words(&ging()),
        vec!["Gang".to_string(), "alt".to_string(), "gehen".to_string()]
    );
    assert_eq!(extract_forms(&ging()), vec!["ginge".to_string(), "gingen".to_string()]);
}

#[test]
fn cleaning_drops_obsolete_senses_only() {
    let c = clean_entry(ging());
    assert_eq!(senses_len(&c), 2);
    assert_eq!(extract_form_of_words(&c), vec!["Gang".to_string(), "gehen".to_string()]);
    assert!(matches!(clean_entry(JsonValue::Null), JsonValue::Null));
}

#[test]
fn surfaces_fold_umlauts() {
    assert_eq!(normalize_surface("  Größe "), "grosse");
    assert_eq!(normalize_surface("Übermaß"), "ubermass");
}

#[test]
fn embedding_inputs() {
    assert_eq!(build_embedding_query_input("Bank", " "), "Bank");
    assert_eq!(build_embedding_query_input("Bank", " money "), "Bank\nmoney");
    assert_eq!(build_embedding_query_input("银行", " Geld "), "Geld");
    assert!(is_reliable_embedding_candidate("银行", "", "AB"));
    assert!(is_reliable_embedding_candidate("Bank", "Geld", "AB"));
    assert!(!is_reliable_embedding_candidate("银行", "Geld", "AB"));
    assert!(!is_reliable_embedding_candidate("银行", "Geld", "ABC"));
    assert!(is_reliable_embedding_candidate("银行", "Geld", "Bank"));
}

#[test]
fn raw_entries_are_prepared_for_german_words() {
    let r = prepare_raw_entry(ging(), 41).unwrap();
    assert_eq!(r.source_key, "de-line-42");
    assert_eq!(r.headword, "ging");
    assert_eq!(r.normalized_headword, "ging");
    assert_eq!(r.pos, "verb");
    assert!(r.is_form_of);
    assert_eq!(r.form_of_words, vec!["Gang".to_string(), "gehen".to_string()]);
    assert_eq!(senses_len(&r.raw_data), 2);
    let en = obj(vec![("word", s("go")), ("lang_code", s("en"))]);
    assert!(prepare_raw_entry(en, 0).is_none());
    assert!(prepare_raw_entry(obj(vec![("lang_code", s("de"))]), 0).is_none());
}

#[test]
fn bundle_links_start_with_the_headword() {
    let links = bundle_surface_links("gehen", "gehen", &vec![(7, ging())]);
    assert_eq!(links[0].source, LinkSource::Headword);
    assert_eq!(links[0].raw_entry_id, None);
    let forms: Vec<&str> = links[1..].iter().map(|l| l.surface.as_str()).collect();
    assert_eq!(forms, vec!["ginge", "gingen"]);
    assert!(links[1..].iter().all(|l| l.source == LinkSource::Form && l.raw_entry_id == Some(7)));
    assert_eq!(LinkSource::FormOf.as_str(), "form_of");
}

#[test]
fn lines_group_into_ordered_lexemes() {
    let line = |id: i64, h: &str, n: &str, form_of: bool| ImportedRawEntry {
        id,
        headword: h.to_string(),
        normalized_headword: n.to_string(),
        pos: "noun".to_string(),
        is_form_of: form_of,
        raw_data: JsonValue::Null,
    };
    let bundles = build_lexeme_bundles(vec![
        line(1, "haus", "haus", false),
        line(2, "Haus", "haus", false),
        line(3, "ging", "ging", true),
        line(4, "haus", "haus", false),
        line(5, "Bau", "bau", false),
    ]);
    let keys: Vec<(&str, &str)> =
        bundles.iter().map(|b| (b.surface.as_str(), b.normalized_surface.as_str())).collect();
    assert_eq!(keys, vec![("Bau", "bau"), ("Haus", "haus"), ("haus", "haus")]);
    let ids: Vec<Vec<i64>> = bundles.iter().map(|b| b.raw_entries.iter().map(|e| e.id).collect()).collect();
    assert_eq!(ids, vec![vec![5], vec![2], vec![1, 4]]);
    assert!(build_lexeme_bundles(vec![line(3, "ging", "ging", true)]).is_empty());
}

#[test]
fn model_lists_split_on_slashes() {
    assert_eq!(split_model_string(" haben / sein /"), vec!["haben".to_string(), "sein".to_string()]);
    assert!(split_model_string(" / ").is_empty());
    assert_eq!(split_model_string("Akkusativ"), vec!["Akkusativ".to_string()]);
}
