use de_ai_hilfer::json_repair::{
    extract_outcome, json_candidate, json_extract_attempts, repair_json_inner_quotes,
    repair_truncated_json, JsonRepairKind,
};

#[test]
fn inner_quote_repair_only_changes_when_needed() {
    let raw = r#"{"ok":"plain","nested":"already \"escaped\""}"#;
    assert!(repair_json_inner_quotes(raw).is_none());
    assert!(repair_truncated_json(raw).is_some());
}

#[test]
fn candidate_is_cut_between_outer_braces() {
    assert_eq!(json_candidate("Antwort: {\"a\":1} fertig"), "{\"a\":1}");
    assert_eq!(json_candidate("Antwort: {\"a\":1"), "{\"a\":1");
    assert_eq!(json_candidate("kein json"), "kein json");
}

#[test]
fn inner_quotes_are_escaped() {
    let raw = r#"{"t":"say "hi" now"}"#;
    assert_eq!(repair_json_inner_quotes(raw), Some(r#"{"t":"say \"hi\" now"}"#.to_string()));
}

#[test]
fn truncated_objects_are_closed() {
    assert_eq!(repair_truncated_json(r#"{"a": [1, 2"#), Some(r#"{"a": [1, 2]}"#.to_string()));
    assert_eq!(repair_truncated_json(r#"{"a": "abc"#), Some(r#"{"a": "abc"}"#.to_string()));
    assert_eq!(repair_truncated_json(r#"{"a":"#), None);
    assert_eq!(repair_truncated_json("   "), None);
}

#[test]
fn attempts_come_in_repair_order() {
    let raw = r#"x {"t":"a "b" c"}"#;
    let attempts = json_extract_attempts(raw);
    let seen: Vec<(String, Option<JsonRepairKind>)> = attempts.iter().map(|a| (a.text.clone(), a.repair)).collect();
    assert_eq!(
        seen,
        vec![
            (r#"{"t":"a "b" c"}"#.to_string(), None),
            (r#"{"t":"a \"b\" c"}"#.to_string(), Some(JsonRepairKind::InnerQuotes)),
            (r#"{"t":"a \"b\" c"}"#.to_string(), Some(JsonRepairKind::InnerQuotesAndTruncation)),
            (r#"{"t":"a "}"#.to_string(), Some(JsonRepairKind::TruncatedPayload)),
        ]
    );
    assert_eq!(JsonRepairKind::InnerQuotesAndTruncation.as_str(), "inner_quotes_and_truncation");
    let outcome = extract_outcome(raw, &attempts[1], 7u8);
    assert_eq!(outcome.value, 7);
    assert_eq!(outcome.raw_len, raw.len());
    assert_eq!(outcome.candidate_len, raw.len() - 2);
    assert_eq!(outcome.repaired_len, Some(attempts[1].text.len()));
}

fn first_parsing_attempt(raw: &str) -> Option<(serde_json::Value, Option<JsonRepairKind>)> {
    for attempt in json_extract_attempts(raw) {
        if let Ok(v) = serde_json::from_str::<serde_json::Value>(&attempt.text) {
            return Some((v, attempt.repair));
        }
    }
    None
}

#[test]
fn extract_json_repairs_unescaped_inner_quotes() {
    let raw = r#"{
          "title": "Absolut! (als Antwort)",
          "explanation": "作为独立的感叹词，表示强烈的赞同。相当于"没错！"或"当然！"。"
        }"#;
    let (parsed, repair) = first_parsing_attempt(raw).expect("json should be repaired");
    let expected: serde_json::Value = serde_json::from_str(
        r#"{"title": "Absolut! (als Antwort)", "explanation": "作为独立的感叹词，表示强烈的赞同。相当于\"没错！\"或\"当然！\"。"}"#,
    )
    .unwrap();
    assert_eq!(parsed, expected);
    assert_eq!(repair, Some(JsonRepairKind::InnerQuotes));
}

#[test]
fn extract_json_repairs_unescaped_quotes_before_truncation_repair() {
    let raw = r#"{
          "usage_modules": [
            {
              "title": "etwas nicht pauschal sagen",
              "explanation": "表示"不能一概而论"。",
              "example_de": "Das kann man nicht pauschal sagen."
        "#;
    let (parsed, repair) = first_parsing_attempt(raw).expect("json should be repaired");
    let expected: serde_json::Value = serde_json::from_str(
        r#"{"usage_modules": [{"title": "etwas nicht pauschal sagen", "explanation": "表示\"不能一概而论\"。", "example_de": "Das kann man nicht pauschal sagen."}]}"#,
    )
    .unwrap();
    assert_eq!(parsed, expected);
    assert_eq!(repair, Some(JsonRepairKind::InnerQuotesAndTruncation));
}
