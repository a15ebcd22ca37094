use de_ai_hilfer::learning_session::{
    repetitions_left, session_item, should_complete_today, LearningPhase, LearningRecallRating,
    LearningSessionItem, LearningSessionRuntime, ReviewError, MAX_INTRADAY_APPEARANCES,
};

fn empty_item(phase: LearningPhase) -> LearningSessionItem<()> {
    session_item((), 1, phase, 0)
}

#[test]
fn first_known_completes_today() {
    let mut item = empty_item(LearningPhase::New);
    item.first_rating = Some(LearningRecallRating::Known);
    item.appearance_count_today = 1;

    assert!(should_complete_today(&mut item, LearningRecallRating::Known, true));
}

#[test]
fn first_fuzzy_needs_one_later_known() {
    let mut item = empty_item(LearningPhase::New);
    item.first_rating = Some(LearningRecallRating::Fuzzy);
    item.appearance_count_today = 1;

    assert!(!should_complete_today(&mut item, LearningRecallRating::Fuzzy, true));

    item.appearance_count_today = 2;
    assert!(should_complete_today(&mut item, LearningRecallRating::Known, false));
}

#[test]
fn first_forgotten_needs_two_later_known_answers() {
    let mut item = empty_item(LearningPhase::Review);
    item.first_rating = Some(LearningRecallRating::Forgotten);
    item.appearance_count_today = 2;

    assert!(!should_complete_today(&mut item, LearningRecallRating::Known, false));

    item.appearance_count_today = 3;
    assert!(should_complete_today(&mut item, LearningRecallRating::Known, false));
}

#[test]
fn max_appearance_caps_intraday_loop() {
    let mut item = empty_item(LearningPhase::Intraday);
    item.first_rating = Some(LearningRecallRating::Forgotten);
    item.appearance_count_today = MAX_INTRADAY_APPEARANCES;

    assert!(should_complete_today(&mut item, LearningRecallRating::Forgotten, false));
}

fn card(id: i64, phase: LearningPhase) -> LearningSessionItem<&'static str> {
    session_item("card", id, phase, 0)
}

#[test]
fn session_shows_review_before_new_and_requeues_forgotten_cards() {
    let mut s = LearningSessionRuntime::new(
        "s1".to_string(),
        738000,
        vec![card(1, LearningPhase::Review)],
        vec![card(2, LearningPhase::New)],
    );
    assert_eq!(s.total_count, 2);
    s.select_next(0);
    assert_eq!(s.current.as_ref().unwrap().entry_id, 1);
    assert_eq!(s.current.as_ref().unwrap().appearance_count_today, 1);
    assert_eq!(s.seen_cursor, 1);

    assert_eq!(s.take_card_for_review(2, LearningRecallRating::Known).unwrap_err(), ReviewError::CardMismatch);
    assert!(s.current.is_some());

    let (item, first) = s.take_card_for_review(1, LearningRecallRating::Forgotten).unwrap();
    assert!(first);
    assert_eq!(item.first_rating, Some(LearningRecallRating::Forgotten));
    assert!(!s.finish_review(item, LearningRecallRating::Forgotten, true, 1_000));
    assert_eq!(s.intraday_items.len(), 1);
    assert_eq!(s.intraday_items[0].due_after_seen, 3);
    assert_eq!(s.intraday_items[0].earliest_review_at, 46_000);

    s.select_next(2_000);
    assert_eq!(s.current.as_ref().unwrap().entry_id, 2);
    let (item, _) = s.take_card_for_review(2, LearningRecallRating::Known).unwrap();
    assert!(s.finish_review(item, LearningRecallRating::Known, true, 3_000));
    assert_eq!(s.completed_count, 1);

    s.select_next(3_000);
    let shown = s.current.as_ref().unwrap();
    assert_eq!(shown.entry_id, 1);
    assert_eq!(shown.phase, LearningPhase::Intraday);
    assert_eq!(shown.appearance_count_today, 2);
    assert_eq!(repetitions_left(shown), 4);
    assert!(!s.is_completed());
    assert_eq!(
        s.take_card_for_review(9, LearningRecallRating::Known).unwrap_err().message(),
        "reviewed entry does not match active learning card"
    );
}

#[test]
fn due_intraday_cards_come_first_in_order() {
    let mut s = LearningSessionRuntime::new("s".to_string(), 0, vec![card(5, LearningPhase::Review)], vec![]);
    let mut a = card(1, LearningPhase::Intraday);
    a.due_after_seen = 0;
    a.earliest_review_at = 500;
    let mut b = card(2, LearningPhase::Intraday);
    b.due_after_seen = 0;
    b.earliest_review_at = 100;
    s.intraday_items.push(a);
    s.intraday_items.push(b);
    s.select_next(50);
    assert_eq!(s.current.as_ref().unwrap().entry_id, 5);
    s.current = None;
    s.select_next(1_000);
    assert_eq!(s.current.as_ref().unwrap().entry_id, 2);
}
