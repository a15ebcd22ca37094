use de_ai_hilfer::documents::{AttachedPhraseModule, PhraseLookupConfidence, Timestamp};
use de_ai_hilfer::models::{PhraseUsageModule, PhraseUsagePreview};
use de_ai_hilfer::phrase_attachments::{
    attach_host_headword, attach_module, attach_phrase, build_attachment, detach_attachment, first_non_empty,
    is_phrase_entry, normalize_usage_module, persisted_phrase_id, phrase_covered, preview_attachment_markdown,
    preview_phrase_text, render_phrase_preview_markdown, sort_attachments, switch_to_fallback, unrelated_phrase_message, AttachError,
    DetachError, PhraseModuleError,
};

fn module(title: &str, explanation: &str, de: &str, zh: &str) -> PhraseUsageModule {
    PhraseUsageModule {
        title: title.to_string(),
        explanation: explanation.to_string(),
        example_de: de.to_string(),
        example_zh: zh.to_string(),
    }
}

fn ts(secs: i64, nanos: u32) -> Timestamp {
    Timestamp { secs, nanos }
}

fn att(phrase: &str, host: &str, id: i64, at: i64) -> AttachedPhraseModule {
    att_at(phrase, host, id, ts(at, 0))
}

fn att_at(phrase: &str, host: &str, id: i64, at: Timestamp) -> AttachedPhraseModule {
    AttachedPhraseModule {
        phrase: phrase.to_string(),
        host_headword: host.to_string(),
        source_phrase_entry_id: id,
        usage_module: None,
        analysis_markdown: String::new(),
        confidence: PhraseLookupConfidence::High,
        attached_at: at,
    }
}

fn phrases(v: &[AttachedPhraseModule]) -> Vec<&str> {
    v.iter().map(|a| a.phrase.as_str()).collect()
}

#[test]
fn preview_markdown_layout() {
    let p = PhraseUsagePreview {
        meaning_zh: " 放弃 ".to_string(),
        meaning_en: "to give up".to_string(),
        usage_module: module("Alltag", "Wird oft gesagt.", "Er gibt auf.", "他放弃了。"),
    };
    assert_eq!(
        render_phrase_preview_markdown("aufgeben", &p),
        "### aufgeben\n\n#### 核心释义 (Bedeutung)\n* **Phrase** **放弃** * *to give up*\n\n#### 应用与例句 (Anwendung & Beispiele)\n\nAlltag: Wird oft gesagt.\nEr gibt auf.\n（他放弃了。）"
    );
    let bare = PhraseUsagePreview { meaning_en: "  ".to_string(), ..p };
    assert!(render_phrase_preview_markdown("aufgeben", &bare).contains("**放弃**\n\n####"));
}

#[test]
fn usage_module_checks_in_order() {
    assert_eq!(normalize_usage_module(None, "x").err().unwrap(), PhraseModuleError::MissingUsageModule);
    assert_eq!(
        normalize_usage_module(Some(module("t", " ", "", "")), "x").err().unwrap(),
        PhraseModuleError::MissingExplanation
    );
    assert_eq!(
        normalize_usage_module(Some(module("t", "e", " ", "")), "x").err().unwrap(),
        PhraseModuleError::MissingGermanExample
    );
    assert_eq!(
        normalize_usage_module(Some(module("t", "e", "d", "")), "x").err().unwrap(),
        PhraseModuleError::MissingChineseTranslation
    );
    let m = normalize_usage_module(Some(module(" ", " e ", " d ", " z ")), " Titel ").unwrap();
    assert_eq!(
        (m.title.as_str(), m.explanation.as_str(), m.example_de.as_str(), m.example_zh.as_str()),
        ("Titel", "e", "d", "z")
    );
    assert_eq!(PhraseModuleError::MissingGermanExample.message(), "phrase module missing German example");
    assert_eq!(first_non_empty(" a ", "b"), "a");
    assert_eq!(first_non_empty("  ", " b "), "b");
}

#[test]
fn unrelated_message_adds_reason() {
    assert_eq!(unrelated_phrase_message("  "), "phrase is not related to host");
    assert_eq!(unrelated_phrase_message(" other word "), "phrase is not related to host: other word");
}

#[test]
fn attachments_sort_newest_first_then_by_phrase() {
    let sorted = sort_attachments(vec![att("b", "h", 1, 10), att("a", "h", 2, 30), att("c", "h", 3, 10), att("a", "h", 4, 10)]);
    assert_eq!(phrases(&sorted), vec!["a", "a", "b", "c"]);
    assert_eq!(sorted[0].attached_at, ts(30, 0));
    assert_eq!(sorted[1].source_phrase_entry_id, 4);
}

#[test]
fn attach_module_replaces_the_same_phrase_case_insensitively() {
    let existing = vec![att("Gib auf", "geben", 1, 10), att("gib nach", "geben", 2, 20)];
    let r = attach_module(existing, att(" gib AUF ", "geben", 3, 30));
    assert_eq!(r.len(), 2);
    assert_eq!(r[0].source_phrase_entry_id, 3);
    assert_eq!(r[1].source_phrase_entry_id, 2);
}

#[test]
fn attach_phrase_replaces_by_source_or_host_and_phrase() {
    let existing = vec![att("p", "h", 1, 10), att("q", "h", 2, 20), att("q", "other", 5, 5)];
    let r = attach_phrase(existing, att("q", "h", 1, 40), false);
    assert_eq!(r.iter().map(|a| a.source_phrase_entry_id).collect::<Vec<_>>(), vec![1, 5]);
    assert_eq!(r[0].attached_at, ts(40, 0));
    let covered = attach_phrase(vec![att("p", "h", 1, 10)], att("p", "h", 9, 50), true);
    assert!(covered.is_empty());
    assert!(phrase_covered("Man sagt: GIB AUF!", "gib auf"));
    assert!(!phrase_covered("nichts", "gib auf"));
}

#[test]
fn detach_removes_or_refuses() {
    let r = detach_attachment(vec![att("p", "h", 1, 10), att("q", "h", 2, 20)], 1).unwrap();
    assert_eq!(phrases(&r), vec!["q"]);
    assert_eq!(detach_attachment(vec![att("p", "h", 1, 10)], 7).unwrap_err(), DetachError::NotAttached);
    assert_eq!(DetachError::NotAttached.message(), "attached phrase not found on host entry");
}

#[test]
fn request_checks() {
    assert_eq!(attach_host_headword("  "), Err(AttachError::EmptyHost));
    assert_eq!(attach_host_headword(" Haus "), Ok("Haus".to_string()));
    assert_eq!(persisted_phrase_id(Some(0)), None);
    assert_eq!(persisted_phrase_id(Some(-3)), None);
    assert_eq!(persisted_phrase_id(Some(12)), Some(12));
    assert_eq!(persisted_phrase_id(None), None);
    assert!(is_phrase_entry("PHRASE", false));
    assert!(is_phrase_entry("WORD", true));
    assert!(!is_phrase_entry("WORD", false));
    assert!(preview_phrase_text(None).is_err());
    assert!(preview_phrase_text(Some(" ")).is_err());
    assert_eq!(preview_phrase_text(Some(" auf jeden Fall ")), Ok("auf jeden Fall".to_string()));
}

#[test]
fn attachment_markdown_prefers_the_stored_text() {
    let p = PhraseUsagePreview {
        meaning_zh: "总之".to_string(),
        meaning_en: String::new(),
        usage_module: module("T", "E", "D", "Z"),
    };
    assert_eq!(preview_attachment_markdown("x", &p, Some("## stored")), "## stored");
    assert!(preview_attachment_markdown("x", &p, Some(" ")).starts_with("### x\n"));
    let a = build_attachment("Fall", " auf jeden Fall ", module("T", "E", "D", "Z"), 7, ts(99, 5));
    assert_eq!(a.phrase, "auf jeden Fall");
    assert_eq!(a.host_headword, "Fall");
    assert_eq!((a.source_phrase_entry_id, a.attached_at), (7, ts(99, 5)));
    assert_eq!(a.confidence, PhraseLookupConfidence::High);
    assert!(a.analysis_markdown.contains("* **Phrase** **T**\n"));
}

#[test]
fn attachments_within_one_second_sort_by_nanoseconds() {
    let sorted = sort_attachments(vec![
        att_at("a", "h", 1, ts(10, 500)),
        att_at("b", "h", 2, ts(10, 501)),
        att_at("c", "h", 3, ts(9, 999_999_999)),
    ]);
    assert_eq!(phrases(&sorted), vec!["b", "a", "c"]);
}

#[test]
fn only_hard_failures_switch_to_a_distinct_fallback() {
    assert!(switch_to_fallback(true, "a", "b"));
    assert!(!switch_to_fallback(false, "a", "b"));
    assert!(!switch_to_fallback(true, "a", "a"));
    assert!(!switch_to_fallback(true, "a", ""));
}
