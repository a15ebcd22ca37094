use de_ai_hilfer::entry_form::{
    classify_form_status, is_form_reference_analysis, is_form_reference_entry, strip_form_of_senses,
    EntryFormStatus,
};
use de_ai_hilfer::json::JsonValue;

fn s(x: &str) -> JsonValue {
    JsonValue::Str(x.to_string())
}

fn arr(xs: Vec<JsonValue>) -> JsonValue {
    JsonValue::Array(xs)
}

fn obj(ms: Vec<(&str, JsonValue)>) -> JsonValue {
    JsonValue::Object(ms.into_iter().map(|(k, v)| (k.to_string(), v)).collect())
}

fn sense(tags: &[&str], form_of: Option<&str>, gloss: &str) -> JsonValue {
    let mut ms = vec![("tags", arr(tags.iter().map(|t| s(t)).collect()))];
    if let Some(w) = form_of {
        ms.push(("form_of", arr(vec![obj(vec![("word", s(w))])])));
    }
    ms.push(("glosses", arr(vec![s(gloss)])));
    obj(ms)
}

#[test]
fn mixed_entry_is_not_treated_as_pure_form() {
    let entry = obj(vec![(
        "senses",
        arr(vec![
            sense(&["form-of"], Some("anziehen"), "verbal noun of anziehen"),
            sense(&["masculine"], None, "suit"),
        ]),
    )]);
    assert_eq!(classify_form_status(&entry), EntryFormStatus::Mixed);
}

#[test]
fn stripping_form_senses_keeps_independent_meanings() {
    let entry = obj(vec![(
        "senses",
        arr(vec![
            sense(&["form-of"], Some("aufziehen"), "verbal noun of aufziehen"),
            sense(&["masculine"], None, "elevator"),
        ]),
    )]);
    let stripped = strip_form_of_senses(entry);
    let senses = stripped.get("senses").and_then(|v| v.as_array()).expect("senses array");
    assert_eq!(senses.len(), 1);
    let gloss = senses[0]
        .get("glosses")
        .and_then(|g| g.as_array())
        .and_then(|g| g[0].as_str());
    assert_eq!(gloss, Some("elevator"));
}

#[test]
fn pure_form_entry_stays_pure_form() {
    let entry = obj(vec![(
        "senses",
        arr(vec![sense(&["form-of", "participle"], Some("fühlen"), "past participle of fühlen")]),
    )]);
    assert_eq!(classify_form_status(&entry), EntryFormStatus::PureForm);
}

#[test]
fn entry_without_senses_is_independent() {
    assert_eq!(classify_form_status(&obj(vec![("word", s("Haus"))])), EntryFormStatus::Independent);
    assert_eq!(
        classify_form_status(&obj(vec![("senses", arr(vec![sense(&["neuter"], None, "house")]))])),
        EntryFormStatus::Independent
    );
}

#[test]
fn stripped_entry_classifies_as_independent() {
    let entry = obj(vec![
        ("word", s("ging")),
        ("senses", arr(vec![sense(&["form-of"], Some("gehen"), "past of gehen")])),
    ]);
    let stripped = strip_form_of_senses(entry);
    assert_eq!(classify_form_status(&stripped), EntryFormStatus::Independent);
    assert_eq!(stripped.get("word").and_then(|w| w.as_str()), Some("ging"));
}

#[test]
fn form_of_list_alone_marks_a_form_sense() {
    let entry = obj(vec![("senses", arr(vec![sense(&[], Some("gehen"), "x")]))]);
    assert_eq!(classify_form_status(&entry), EntryFormStatus::PureForm);
    assert!(!is_form_reference_entry(&entry));
}

#[test]
fn form_reference_checks_read_the_form_of_tag() {
    let entry = obj(vec![("senses", arr(vec![sense(&["form-of"], None, "x")]))]);
    assert!(is_form_reference_entry(&entry));
    let analysis = obj(vec![("dictionary_excerpt", entry)]);
    assert!(is_form_reference_analysis(&analysis));
    assert!(!is_form_reference_analysis(&obj(vec![("markdown", s("## x"))])));
}
