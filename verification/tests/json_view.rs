use de_ai_hilfer::json::JsonValue;
use de_ai_hilfer::json_view::{build_dictionary_excerpt, build_gloss_preview, clone_json};

fn s(x: &str) -> JsonValue {
    JsonValue::Str(x.to_string())
}

fn arr(xs: Vec<JsonValue>) -> JsonValue {
    JsonValue::Array(xs)
}

fn obj(ms: Vec<(&str, JsonValue)>) -> JsonValue {
    JsonValue::Object(ms.into_iter().map(|(k, v)| (k.to_string(), v)).collect())
}

fn show(v: &JsonValue) -> String {
    match v {
        JsonValue::Null => "null".to_string(),
        JsonValue::Bool(b) => b.to_string(),
        JsonValue::Number(n) => n.clone(),
        JsonValue::Str(t) => format!("\"{}\"", t),
        JsonValue::Array(xs) => format!("[{}]", xs.iter().map(show).collect::<Vec<_>>().join(",")),
        JsonValue::Object(ms) => format!(
            "{{{}}}",
            ms.iter().map(|(k, v)| format!("\"{}\":{}", k, show(v))).collect::<Vec<_>>().join(",")
        ),
    }
}

fn sense(g: &str) -> JsonValue {
    obj(vec![("glosses", arr(vec![s(g)])), ("tags", arr(vec![s("t")])), ("examples", arr(vec![]))])
}

#[test]
fn copies_are_equal() {
    let v = obj(vec![("a", arr(vec![JsonValue::Number("1.5".to_string()), JsonValue::Bool(true), JsonValue::Null]))]);
    assert_eq!(show(&clone_json(&v)), show(&v));
}

#[test]
fn excerpt_keeps_three_senses_and_the_raw_parts() {
    let raw = obj(vec![
        ("word", s("Haus")),
        ("pos", s("noun")),
        ("forms", arr(vec![obj(vec![("form", s("Häuser"))])])),
        ("senses", arr(vec![sense("house"), sense("home"), obj(vec![("tags", arr(vec![]))]), sense("firm")])),
    ]);
    assert_eq!(
        show(&build_dictionary_excerpt(&raw)),
        "{\"word\":\"Haus\",\"pos\":\"noun\",\"sounds\":null,\"forms\":[{\"form\":\"Häuser\"}],\"senses\":[{\"glosses\":[\"house\"],\"tags\":[\"t\"]},{\"glosses\":[\"home\"],\"tags\":[\"t\"]},{\"glosses\":null,\"tags\":[]}]}"
    );
    assert_eq!(
        show(&build_dictionary_excerpt(&JsonValue::Null)),
        "{\"word\":null,\"pos\":null,\"sounds\":null,\"forms\":null,\"senses\":[]}"
    );
}

#[test]
fn gloss_preview_of_the_first_sense() {
    let raw = obj(vec![("senses", arr(vec![sense("house"), sense("home")]))]);
    assert_eq!(show(&build_gloss_preview("noun", &raw)), "{\"pos\":\"noun\",\"glosses\":[\"house\"]}");
    assert_eq!(show(&build_gloss_preview("verb", &obj(vec![]))), "{\"pos\":\"verb\",\"glosses\":[]}");
    let no_glosses = obj(vec![("senses", arr(vec![obj(vec![])]))]);
    assert_eq!(show(&build_gloss_preview("x", &no_glosses)), "{\"pos\":\"x\",\"glosses\":[]}");
}
