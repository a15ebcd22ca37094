use de_ai_hilfer::learning_rules::{
    count_due, counts_after_first_rating, counts_after_quality_review, estimate_repetitions_left, is_new_progress,
    long_term_state, map_quality_to_rating, next_state_value, split_due_words, DueWord,
};
use de_ai_hilfer::learning_session::{LearningPhase, LearningRecallRating};

#[test]
fn quality_maps_to_four_ratings() {
    let r: Vec<i32> = (-1..=6).map(map_quality_to_rating).collect();
    assert_eq!(r, vec![1, 1, 1, 2, 3, 3, 4, 4]);
}

#[test]
fn state_after_a_review() {
    assert_eq!(next_state_value(1, 10), 3);
    assert_eq!(next_state_value(3, 1), 1);
    assert_eq!(next_state_value(3, 2), 2);
    assert_eq!(long_term_state(LearningRecallRating::Forgotten, true), 3);
    assert_eq!(long_term_state(LearningRecallRating::Forgotten, false), 2);
    assert_eq!(long_term_state(LearningRecallRating::Fuzzy, true), 2);
    assert!(is_new_progress(0, 2));
    assert!(is_new_progress(4, 0));
    assert!(!is_new_progress(4, 2));
    assert_eq!(estimate_repetitions_left(0, 0), 1);
    assert_eq!(estimate_repetitions_left(3, 1), 2);
    assert_eq!(estimate_repetitions_left(3, 5), 1);
}

#[test]
fn lapses_count_failures_of_reviewed_words() {
    assert_eq!(counts_after_quality_review(0, 0, 1), (1, 0));
    assert_eq!(counts_after_quality_review(1, 0, 0), (2, 1));
    assert_eq!(counts_after_quality_review(5, 2, 4), (6, 2));
    assert_eq!(counts_after_first_rating(0, 0, LearningRecallRating::Forgotten), (1, 0));
    assert_eq!(counts_after_first_rating(2, 1, LearningRecallRating::Forgotten), (3, 2));
    assert_eq!(counts_after_first_rating(2, 1, LearningRecallRating::Known), (3, 1));
}

#[test]
fn due_words_split_into_review_and_limited_new() {
    let words = vec![
        DueWord { data: "a", entry_id: 1, is_new: true },
        DueWord { data: "b", entry_id: 2, is_new: false },
        DueWord { data: "c", entry_id: 3, is_new: true },
        DueWord { data: "d", entry_id: 4, is_new: true },
        DueWord { data: "e", entry_id: 5, is_new: false },
    ];
    let (review, fresh) = split_due_words(words, 2, 1000);
    assert_eq!(review.iter().map(|i| i.entry_id).collect::<Vec<_>>(), vec![2, 5]);
    assert!(review.iter().all(|i| i.phase == LearningPhase::Review));
    assert_eq!(fresh.iter().map(|i| i.data).collect::<Vec<_>>(), vec!["a", "c"]);
    assert!(fresh.iter().all(|i| i.phase == LearningPhase::New));
    let (_, none) = split_due_words(vec![DueWord { data: 0, entry_id: 1, is_new: true }], -3, 0);
    assert!(none.is_empty());
}

#[test]
fn counts_due_records() {
    assert_eq!(count_due(&vec![5, 10, 11, 3], 10), 3);
    assert_eq!(count_due(&vec![], 10), 0);
}
