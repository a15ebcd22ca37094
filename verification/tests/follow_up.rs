use de_ai_hilfer::follow_up::{
    detect_follow_up_intent, first_summary_line, section_lines, select_relevant_form_lines,
    FollowUpIntent,
};
use de_ai_hilfer::follow_up_answer::{
    build_follow_up_fallback, dictionary_forms, dictionary_ipa, dictionary_senses,
    fallback_ready, normalize_answer, truncate_text,
};
use de_ai_hilfer::json::JsonValue;

fn s(x: &str) -> JsonValue {
    JsonValue::Str(x.to_string())
}

fn obj(members: Vec<(&str, JsonValue)>) -> JsonValue {
    JsonValue::Object(members.into_iter().map(|(k, v)| (k.to_string(), v)).collect())
}

fn strings(xs: &[&str]) -> Vec<String> {
    xs.iter().map(|x| x.to_string()).collect()
}

#[test]
fn intents_follow_cue_word_groups_in_order() {
    assert!(matches!(detect_follow_up_intent("它的过去式是什么？"), FollowUpIntent::Form));
    assert!(matches!(detect_follow_up_intent("这个词是什么意思"), FollowUpIntent::Meaning));
    assert!(matches!(detect_follow_up_intent("怎么读"), FollowUpIntent::Pronunciation));
    assert!(matches!(detect_follow_up_intent("给我一个例句"), FollowUpIntent::Example));
    assert!(matches!(detect_follow_up_intent("还有吗"), FollowUpIntent::Generic));
    assert!(matches!(detect_follow_up_intent("时态和意思"), FollowUpIntent::Form));
}

#[test]
fn form_lines_pick_asked_forms_and_drop_markup() {
    let lines = strings(&[
        "ging (past)",
        "ging (past)",
        "gegangen (participle)",
        "table-tags x",
        "geht (third-person)",
        "sein (auxiliary)",
    ]);
    assert_eq!(select_relevant_form_lines("过去式和过去分词", &lines), strings(&["ging (past)", "gegangen (participle)"]));
    assert_eq!(
        select_relevant_form_lines("你好", &lines),
        strings(&["ging (past)", "ging (past)", "gegangen (participle)", "geht (third-person)"])
    );
    assert_eq!(select_relevant_form_lines("助动词", &lines), strings(&["sein (auxiliary)"]));
}

#[test]
fn section_lines_collect_under_matching_heading() {
    let md = "## 概要\n说明\n### 关键形式\n- ging\n- - gegangen\n\n### 例句\nIch ging.\n";
    assert_eq!(section_lines(md, "关键形式"), strings(&["ging", "gegangen"]));
    assert_eq!(section_lines(md, "例句"), strings(&["Ich ging."]));
    assert!(section_lines(md, "无").is_empty());
}

#[test]
fn summary_line_skips_headings_fences_and_blanks() {
    assert_eq!(first_summary_line("# T\n\n```\n  Kern des Wortes  \n"), Some("Kern des Wortes".to_string()));
    assert_eq!(first_summary_line("# T\n*/\n"), None);
}

#[test]
fn answers_are_normalized_and_truncated() {
    assert_eq!(normalize_answer(" a\n b\t\tc "), "a b c");
    assert_eq!(truncate_text("abcdef", 3), "abc...");
    assert_eq!(truncate_text("abc", 3), "abc");
    assert!(fallback_ready("a", "b"));
    assert!(!fallback_ready("a", "a"));
    assert!(!fallback_ready("a", ""));
}

fn excerpt() -> JsonValue {
    obj(vec![
        (
            "senses",
            JsonValue::Array(vec![
                obj(vec![("glosses", JsonValue::Array(vec![s("to go"), s("to walk"), s("to leave")]))]),
                obj(vec![("glosses", JsonValue::Array(vec![]))]),
                obj(vec![("glosses", JsonValue::Array(vec![s("to work")]))]),
                obj(vec![("glosses", JsonValue::Array(vec![s("ignored")]))]),
            ]),
        ),
        (
            "forms",
            JsonValue::Array(vec![
                obj(vec![("form", s("strong"))]),
                obj(vec![("form", s("ging")), ("tags", JsonValue::Array(vec![s("past"), s("class"), s("indicative")]))]),
                obj(vec![("form", s("gegangen"))]),
            ]),
        ),
        ("sounds", JsonValue::Array(vec![obj(vec![("audio", s("x"))]), obj(vec![("ipa", s("ˈɡeːən"))])])),
    ])
}

#[test]
fn dictionary_excerpt_readers() {
    let ex = excerpt();
    assert_eq!(dictionary_senses(&ex), Some("to go / to walk；to work".to_string()));
    assert_eq!(dictionary_forms(&ex), Some("ging (past, indicative)；gegangen".to_string()));
    assert_eq!(dictionary_ipa(&ex), Some("ˈɡeːən".to_string()));
    assert_eq!(dictionary_senses(&JsonValue::Null), None);
}

#[test]
fn fallback_answers_follow_the_intent() {
    let analysis = obj(vec![
        ("markdown", s("# gehen\nGrundverb der Bewegung.\n### 例句\n- Ich gehe.\n### 使用提示\n- 注意 sein")),
        ("dictionary_excerpt", excerpt()),
    ]);
    assert_eq!(
        build_follow_up_fallback("gehen", "怎么读", &analysis),
        "先按当前条目直接回答：`gehen` 的音标是 /ˈɡeːən/。如果你要记忆，先抓重音和长元音。"
    );
    assert_eq!(
        build_follow_up_fallback("gehen", "例句呢", &analysis),
        "先按当前条目直接回答：可以先看这个例子 Ich gehe. 提醒：注意 sein"
    );
    assert_eq!(
        build_follow_up_fallback("gehen", "还有吗", &analysis),
        "先按当前条目直接回答：`gehen` 的核心还是 to go / to walk；to work。你可以先抓住这一点：Grundverb der Bewegung."
    );
    assert_eq!(
        build_follow_up_fallback("gehen", "过去式", &analysis),
        "先按当前条目直接回答：`gehen` 常用形式是 ging (past, indicative)；gegangen。"
    );
    let bare = build_follow_up_fallback("gehen", "？", &JsonValue::Null);
    assert_eq!(
        bare,
        "先按当前条目直接回答：`gehen` 的核心信息已经在当前分析里，建议先抓住词义和关键形式，再继续细问。"
    );
}
