use de_ai_hilfer::dictionary::{
    build_compact_analysis_from_dictionary, build_full_analysis_from_dictionary, build_tags,
    build_unavailable_analysis, collect_examples, compact_forms, compact_senses, detailed_senses,
    dictionary_ipa_text, dictionary_pos, find_auxiliary, is_noise_tag, summarize_dictionary_entry,
    truncate_for_prompt, usage_note,
};
use de_ai_hilfer::json::JsonValue;

fn s(x: &str) -> JsonValue {
    JsonValue::Str(x.to_string())
}

fn arr(xs: Vec<JsonValue>) -> JsonValue {
    JsonValue::Array(xs)
}

fn obj(ms: Vec<(&str, JsonValue)>) -> JsonValue {
    JsonValue::Object(ms.into_iter().map(|(k, v)| (k.to_string(), v)).collect())
}

fn strs(xs: &[&str]) -> JsonValue {
    arr(xs.iter().map(|x| s(x)).collect())
}

fn gehen() -> JsonValue {
    obj(vec![
        ("word", s("gehen")),
        ("pos", s("verb")),
        ("sounds", arr(vec![obj(vec![("audio", s("x.ogg"))]), obj(vec![("ipa", s("ˈɡeːən"))])])),
        (
            "forms",
            arr(vec![
                obj(vec![("form", s("geht")), ("tags", strs(&["present", "singular", "third-person"]))]),
                obj(vec![("form", s("ging")), ("source", s("conjugation")), ("tags", strs(&["past"]))]),
                obj(vec![("form", s("gegangen")), ("source", s("inflection"))]),
                obj(vec![("form", s("sein")), ("tags", strs(&["auxiliary"]))]),
            ]),
        ),
        (
            "senses",
            arr(vec![
                obj(vec![
                    ("glosses", strs(&["to go", "to walk", "to leave"])),
                    ("tags", strs(&["class-7", "intransitive", "strong"])),
                    ("examples", arr(vec![obj(vec![("text", s(" Ich gehe. ")), ("english", s("I go."))])])),
                ]),
                obj(vec![("glosses", strs(&["to work"])), ("tags", strs(&["colloquial"]))]),
            ]),
        ),
    ])
}

#[test]
fn noise_tags() {
    assert!(is_noise_tag("class-7"));
    assert!(is_noise_tag("strong"));
    assert!(!is_noise_tag("intransitive"));
}

#[test]
fn tags_lead_with_the_part_of_speech() {
    assert_eq!(build_tags(&gehen(), "verb"), vec!["verb", "intransitive", "colloquial"]);
    assert_eq!(build_tags(&obj(vec![]), "noun"), vec!["noun"]);
    let e = obj(vec![("senses", arr(vec![obj(vec![("tags", strs(&["noun", "a", "b", "c", "d"]))])]))]);
    assert_eq!(build_tags(&e, "noun"), vec!["noun", "a", "b", "c"]);
}

#[test]
fn pos_ipa_and_auxiliary() {
    assert_eq!(dictionary_pos(&gehen()), "verb");
    assert_eq!(dictionary_pos(&obj(vec![])), "未知词性");
    assert_eq!(dictionary_ipa_text(&gehen()), "ˈɡeːən");
    assert_eq!(dictionary_ipa_text(&obj(vec![])), "");
    assert_eq!(find_auxiliary(&gehen()), Some("sein"));
}

#[test]
fn prompt_texts_are_cut_with_ellipsis() {
    assert_eq!(truncate_for_prompt("abcdef", 3), "abc...");
    assert_eq!(truncate_for_prompt("abc", 3), "abc");
}

#[test]
fn forms_without_source_or_from_conjugation() {
    assert_eq!(
        compact_forms(&gehen(), 3, 2),
        vec!["geht (present, singular)", "ging (past)", "sein (auxiliary)"]
    );
    assert_eq!(compact_forms(&gehen(), 1, 3), vec!["geht (present, singular, third-person)"]);
}

#[test]
fn senses_compact_and_detailed() {
    assert_eq!(
        compact_senses(&gehen(), 2, " / "),
        vec!["to go / to walk [class-7, intransitive, strong]", "to work [colloquial]"]
    );
    assert_eq!(detailed_senses(&gehen(), 1), vec!["- to go / to walk（intransitive）"]);
}

#[test]
fn examples_and_notes() {
    assert_eq!(collect_examples(&gehen(), 2), vec!["- `Ich gehe.`\n  释义：I go."]);
    assert_eq!(usage_note(&gehen()), Some("部分义项带有语域/用法标签：colloquial。".to_string()));
    assert_eq!(usage_note(&obj(vec![])), None);
}

#[test]
fn compact_analysis_from_dictionary() {
    let d = build_compact_analysis_from_dictionary("gehen", &gehen());
    assert!(d.markdown.starts_with("## gehen\n\n*/ˈɡeːən/*\n\n- 核心释义：to go / to walk [class-7, intransitive, strong]；to work [colloquial]（verb）"));
    assert!(d.markdown.contains("- 关键形式：geht (present, singular, third-person)；ging (past)；sein (auxiliary)"));
    assert_eq!(d.tags, vec!["verb"]);
    assert_eq!(d.prototype.as_deref(), Some("gehen"));
}

#[test]
fn full_analysis_from_dictionary() {
    let d = build_full_analysis_from_dictionary("gehen", &gehen());
    assert!(d.markdown.starts_with("## gehen\n\n- 词性：verb | 音标：/ˈɡeːən/ | 完成时助动词：sein"));
    assert!(d.markdown.contains("### 例句\n- `Ich gehe.`\n  释义：I go."));
    assert!(d.markdown.contains("### 使用提示\n- 部分义项带有语域/用法标签：colloquial。"));
    assert!(d.markdown.ends_with("用于在模型不可用或超时时提供稳定结果。"));
}

#[test]
fn unavailable_analysis() {
    let d = build_unavailable_analysis("xyz");
    assert!(d.markdown.starts_with("## xyz\n\n- 当前未命中本地字典"));
    assert_eq!(d.tags, vec!["待确认"]);
}

#[test]
fn entry_summary_for_prompts() {
    let t = summarize_dictionary_entry(&gehen());
    assert!(t.starts_with("lemma: gehen\npos: verb\nipa: ˈɡeːən\nkey senses:\n- to go; to walk [class-7, intransitive, strong]\n- to work [colloquial]\nforms: "));
    assert!(t.ends_with("\netymology: "));
}
