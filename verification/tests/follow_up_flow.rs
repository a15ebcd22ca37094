use de_ai_hilfer::documents::QualityMode;
use de_ai_hilfer::follow_up_answer::build_follow_up_fallback;
use de_ai_hilfer::follow_up_flow::{
    build_follow_up_prompt, fallback_model_for, follow_up_next, follow_up_question, primary_model_for, Attempt,
    FollowUpAction, FollowUpError, FollowUpModels, FollowUpTurn, ModelReply,
};
use de_ai_hilfer::json::JsonValue;

fn analysis(markdown: &str) -> JsonValue {
    JsonValue::Object(vec![("markdown".to_string(), JsonValue::Str(markdown.to_string()))])
}

fn models() -> FollowUpModels {
    FollowUpModels {
        follow_up: "fast".to_string(),
        follow_up_pro: "pro".to_string(),
        fallback_fast: "fast-b".to_string(),
        fallback_pro: "pro-b".to_string(),
    }
}

#[test]
fn question_is_trimmed_or_refused() {
    assert_eq!(follow_up_question("  wieso? "), Ok("wieso?".to_string()));
    assert_eq!(follow_up_question(" \n "), Err(FollowUpError::EmptyQuestion));
    assert_eq!(FollowUpError::EmptyQuestion.message(), "question cannot be empty");
}

#[test]
fn models_follow_the_quality_tier() {
    let m = models();
    assert_eq!(primary_model_for(&m, QualityMode::Default), "fast");
    assert_eq!(primary_model_for(&m, QualityMode::Pro), "pro");
    assert_eq!(fallback_model_for(&m, QualityMode::Default), "fast-b");
    assert_eq!(fallback_model_for(&m, QualityMode::Pro), "pro-b");
}

#[test]
fn answers_are_normalized_and_credited() {
    let a = analysis("## Haus");
    match follow_up_next(Attempt::Primary, ModelReply::Answer(" ein \n Haus ".to_string()), "m1", "m2", "Haus", "q", &a) {
        FollowUpAction::Finish { answer, model } => {
            assert_eq!(answer, "ein Haus");
            assert_eq!(model, Some("m1".to_string()));
        },
        other => panic!("unexpected {:?}", other),
    }
    match follow_up_next(Attempt::Fallback, ModelReply::Answer("ok".to_string()), "m1", "m2", "Haus", "q", &a) {
        FollowUpAction::Finish { model, .. } => assert_eq!(model, Some("m2".to_string())),
        other => panic!("unexpected {:?}", other),
    }
}

#[test]
fn hard_failure_moves_to_a_distinct_fallback() {
    let a = analysis("## Haus");
    assert!(matches!(
        follow_up_next(Attempt::Primary, ModelReply::HardFailure, "m1", "m2", "Haus", "q", &a),
        FollowUpAction::AskFallback
    ));
    let expected = build_follow_up_fallback("Haus", "q", &a);
    for fallback in ["", "m1"] {
        match follow_up_next(Attempt::Primary, ModelReply::HardFailure, "m1", fallback, "Haus", "q", &a) {
            FollowUpAction::Finish { answer, model } => {
                assert_eq!(answer, expected);
                assert_eq!(model, None);
            },
            other => panic!("unexpected {:?}", other),
        }
    }
    match follow_up_next(Attempt::Primary, ModelReply::SoftFailure, "m1", "m2", "Haus", "q", &a) {
        FollowUpAction::Finish { model, .. } => assert_eq!(model, None),
        other => panic!("unexpected {:?}", other),
    }
    assert!(matches!(
        follow_up_next(Attempt::Fallback, ModelReply::SoftFailure, "m1", "m2", "Haus", "q", &a),
        FollowUpAction::Fail
    ));
    assert!(matches!(
        follow_up_next(Attempt::Fallback, ModelReply::HardFailure, "m1", "m2", "Haus", "q", &a),
        FollowUpAction::Fail
    ));
}

#[test]
fn prompt_fills_the_template() {
    let history: Vec<FollowUpTurn> = (1..=4)
        .map(|i| FollowUpTurn { question: format!("q{}", i), answer: format!("a{}", i) })
        .collect();
    let p = build_follow_up_prompt(
        "V={vocabulary_list}|C={context}|Q={question}",
        "LIMITS",
        &vec!["Haus".to_string(), "Maus".to_string()],
        "wieso?",
        &analysis("## Haus"),
        &history,
    );
    assert_eq!(
        p,
        "V=Haus, Maus|C=原始分析:\n## Haus\n\n历史问答:\nQ: q2\nA: a2\n\nQ: q3\nA: a3\n\nQ: q4\nA: a4|Q=wieso?\n\nLIMITS"
    );
    let empty = build_follow_up_prompt("{context}", "L", &vec![], "x", &JsonValue::Null, &vec![]);
    assert_eq!(empty, "原始分析:\n\n\n历史问答:\n暂无历史问答\n\nL");
}

#[test]
fn prompt_cuts_long_turns() {
    let long_q = "x".repeat(81);
    let p = build_follow_up_prompt(
        "{context}",
        "L",
        &vec![],
        "q",
        &analysis("m"),
        &vec![FollowUpTurn { question: long_q, answer: "a".to_string() }],
    );
    assert!(p.contains(&format!("Q: {}...\nA: a", "x".repeat(80))));
}
