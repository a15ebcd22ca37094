use de_ai_hilfer::json::JsonValue;
use de_ai_hilfer::snapshot::{
    build_restore_plan, check_restore_allowed, resolve_target_lexeme, restore_summary, restore_target,
    unique_lexeme_id, validate_snapshot, validate_snapshot_entry, ApplyRestoreOptions, KnowledgeEntry,
    LearningProgress, ResolutionMode, ResolvedLexeme, KNOWLEDGE_RESTORE_PLAN_FORMAT,
};

fn analysis(word: Option<&str>, prototype: Option<&str>) -> JsonValue {
    let mut fields = Vec::new();
    if let Some(w) = word {
        fields.push((
            "dictionary_excerpt".to_string(),
            JsonValue::Object(vec![("word".to_string(), JsonValue::Str(w.to_string()))]),
        ));
    }
    if let Some(p) = prototype {
        fields.push(("prototype".to_string(), JsonValue::Str(p.to_string())));
    }
    JsonValue::Object(fields)
}

fn entry(id: i64, query: &str, prototype: Option<&str>, entry_type: &str, a: JsonValue) -> KnowledgeEntry<()> {
    KnowledgeEntry {
        id,
        query_text: query.to_string(),
        lexeme_id: None,
        prototype: prototype.map(|p| p.to_string()),
        entry_type: entry_type.to_string(),
        analysis: a,
        rest: (),
    }
}

fn good(id: i64, word: &str) -> KnowledgeEntry<()> {
    entry(id, word, Some(word), "WORD", analysis(Some(word), Some(word)))
}

#[test]
fn a_consistent_word_entry_passes() {
    assert!(validate_snapshot_entry(&good(1, "Haus")).is_empty());
    assert_eq!(restore_target(&good(1, "Haus")), Some("Haus".to_string()));
}

#[test]
fn every_mismatch_is_reported_in_order() {
    let e = entry(2, "ging", Some("gehen"), "PHRASE", analysis(Some("gegangen"), Some("geh")));
    assert_eq!(
        validate_snapshot_entry(&e),
        vec![
            "unsupported entry_type: PHRASE".to_string(),
            "query_text/prototype mismatch: ging != gehen".to_string(),
            "dictionary_excerpt.word mismatch: gehen != gegangen".to_string(),
            "analysis.prototype mismatch: gehen != geh".to_string(),
        ]
    );
    let bare = entry(3, "x", None, "WORD", JsonValue::Null);
    assert_eq!(
        validate_snapshot_entry(&bare),
        vec!["missing prototype".to_string(), "missing analysis.dictionary_excerpt.word".to_string()]
    );
    assert_eq!(restore_target(&bare), None);
}

#[test]
fn snapshot_counts_add_up() {
    let s = validate_snapshot(&vec![good(1, "a"), entry(2, "b", None, "WORD", JsonValue::Null), good(3, "c")]);
    assert_eq!((s.total_entries, s.valid_entries, s.invalid_entries), (3, 2, 1));
    assert_eq!(s.issues.len(), 1);
    assert_eq!(s.issues[0].entry_id, 2);
    assert_eq!(s.issues[0].prototype, None);
}

#[test]
fn lexeme_resolution_prefers_the_exact_surface() {
    assert_eq!(unique_lexeme_id(&vec![4]), Some(4));
    assert_eq!(unique_lexeme_id(&vec![4, 5]), None);
    assert_eq!(unique_lexeme_id(&vec![]), None);
    assert_eq!(
        resolve_target_lexeme(Some(1), true, Some(2), true),
        Some(ResolvedLexeme { lexeme_id: 1, mode: ResolutionMode::Exact })
    );
    assert_eq!(resolve_target_lexeme(Some(1), false, Some(2), true), None);
    assert_eq!(
        resolve_target_lexeme(None, false, Some(2), true),
        Some(ResolvedLexeme { lexeme_id: 2, mode: ResolutionMode::CaseInsensitive })
    );
    assert_eq!(resolve_target_lexeme(None, false, Some(2), false), None);
}

#[test]
fn restore_plan_partitions_entries_and_progress() {
    let entries = vec![good(1, "Haus"), entry(2, "b", None, "WORD", JsonValue::Null), good(3, "Maus")];
    let resolutions = vec![
        Some(ResolvedLexeme { lexeme_id: 10, mode: ResolutionMode::CaseInsensitive }),
        None,
        None,
    ];
    let progress = vec![
        LearningProgress { entry_id: 3, rest: "p3" },
        LearningProgress { entry_id: 1, rest: "p1" },
        LearningProgress { entry_id: 2, rest: "p2" },
    ];
    let plan = build_restore_plan(entries, &resolutions, progress, "snap_v1");
    assert_eq!(plan.format, KNOWLEDGE_RESTORE_PLAN_FORMAT);
    assert_eq!(plan.source_snapshot_format, "snap_v1");
    assert_eq!(plan.total_entries, 3);
    assert_eq!(plan.restorable_entries.len(), 1);
    assert_eq!(plan.restorable_entries[0].entry.id, 1);
    assert_eq!(plan.restorable_entries[0].entry.lexeme_id, Some(10));
    assert_eq!(plan.restorable_entries[0].resolution_mode, "case_insensitive");
    assert_eq!(plan.rejected_entries.iter().map(|r| r.entry_id).collect::<Vec<_>>(), vec![2, 3]);
    assert_eq!(plan.rejected_entries[0].reasons, vec!["missing prototype".to_string(), "missing analysis.dictionary_excerpt.word".to_string()]);
    assert_eq!(
        plan.rejected_entries[1].reasons,
        vec!["prototype did not resolve to a unique restorable lexeme".to_string()]
    );
    assert_eq!(plan.retained_learning_progress.len(), 1);
    assert_eq!(plan.retained_learning_progress[0].rest, "p1");
    assert_eq!(plan.skipped_learning_progress.iter().map(|s| s.entry_id).collect::<Vec<_>>(), vec![3, 2]);
    assert_eq!(plan.skipped_learning_progress[0].reasons, vec!["owning knowledge entry is not restorable".to_string()]);
    let summary = restore_summary(&plan, 4);
    assert_eq!((summary.restored_entries, summary.restored_learning_progress, summary.dropped_follow_ups), (1, 1, 4));
}

#[test]
fn restore_refuses_to_drop_follow_ups_unless_allowed() {
    assert_eq!(
        check_restore_allowed(3, ApplyRestoreOptions { allow_drop_follow_ups: false }),
        Err("refusing to restore because follow_ups still contains 3 rows; rerun with --allow-drop-follow-ups after confirming they can be discarded".to_string())
    );
    assert_eq!(check_restore_allowed(3, ApplyRestoreOptions { allow_drop_follow_ups: true }), Ok(()));
    assert_eq!(check_restore_allowed(0, ApplyRestoreOptions { allow_drop_follow_ups: false }), Ok(()));
}
