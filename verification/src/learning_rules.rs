//! The integer rules of long-term scheduling: ratings from review
//! qualities, the progress state after a review, lapses, and which due
//! words open a session.

use vstd::prelude::*;
use crate::learning_session::{session_item, LearningPhase, LearningRecallRating, LearningSessionItem};

verus! {

/// The four-step rating of a review quality: 1 up to quality 1, 2 for 2, 3
/// for 3 and 4, 4 above.
pub open spec fn rating_of(quality: i32) -> i32 {
    if quality <= 1 {
        1
    } else if quality == 2 {
        2
    } else if quality == 3 || quality == 4 {
        3
    } else {
        4
    }
}

pub fn map_quality_to_rating(quality: i32) -> (r: i32)
    ensures
        r == rating_of(quality),
        1 <= r <= 4,
{
    if quality <= 1 {
        1
    } else if quality == 2 {
        2
    } else if quality == 3 || quality == 4 {
        3
    } else {
        4
    }
}

/// The progress state after a quality review: 3 (relearning) after a
/// failure, 1 (learning) when due again within a day, 2 (review) otherwise.
pub fn next_state_value(quality: i32, scheduled_days: i64) -> (r: i32)
    ensures
        quality <= 1 ==> r == 3,
        quality > 1 && scheduled_days <= 1 ==> r == 1,
        quality > 1 && scheduled_days > 1 ==> r == 2,
{
    if quality <= 1 {
        3
    } else if scheduled_days <= 1 {
        1
    } else {
        2
    }
}

/// The progress state after the first rating of the day: relearning when a
/// reviewed word was forgotten, review otherwise.
pub fn long_term_state(first_rating: LearningRecallRating, had_prior_review: bool) -> (r: i32)
    ensures
        r == (if first_rating == LearningRecallRating::Forgotten && had_prior_review {
            3i32
        } else {
            2i32
        }),
{
    if first_rating == LearningRecallRating::Forgotten && had_prior_review {
        3
    } else {
        2
    }
}

/// A word never reviewed, or in state 0, is new.
pub fn is_new_progress(review_count: i64, state: i32) -> (r: bool)
    ensures
        r == (review_count == 0 || state == 0),
{
    review_count == 0 || state == 0
}

/// How many repetitions a due word is expected to need today.
pub fn estimate_repetitions_left(review_count: i64, scheduled_days: i64) -> (r: i32)
    ensures
        review_count == 0 ==> r == 1,
        review_count != 0 && scheduled_days <= 1 ==> r == 2,
        review_count != 0 && scheduled_days > 1 ==> r == 1,
{
    if review_count == 0 {
        1
    } else if scheduled_days <= 1 {
        2
    } else {
        1
    }
}

/// The review and lapse counts after a quality review: one more review,
/// and one more lapse for a failure of a word reviewed before.
pub fn counts_after_quality_review(review_count: i64, lapses: i64, quality: i32) -> (r: (i64, i64))
    requires
        review_count < i64::MAX,
        lapses < i64::MAX,
    ensures
        r.0 == review_count + 1,
        r.1 == (if quality <= 1 && review_count + 1 > 1 {
            lapses + 1
        } else {
            lapses as int
        }),
{
    let n = review_count + 1;
    let l = if quality <= 1 && n > 1 {
        lapses + 1
    } else {
        lapses
    };
    (n, l)
}

/// The review and lapse counts after the first rating of the day: one more
/// review, and one more lapse when a reviewed word was forgotten.
pub fn counts_after_first_rating(review_count: i64, lapses: i64, first_rating: LearningRecallRating) -> (r: (
    i64,
    i64,
))
    requires
        review_count < i64::MAX,
        lapses < i64::MAX,
    ensures
        r.0 == review_count + 1,
        r.1 == (if first_rating == LearningRecallRating::Forgotten && review_count > 0 {
            lapses + 1
        } else {
            lapses as int
        }),
{
    let l = if first_rating == LearningRecallRating::Forgotten && review_count > 0 {
        lapses + 1
    } else {
        lapses
    };
    (review_count + 1, l)
}

/// A word due for review: what the session keeps of it, whether it is new,
/// and its id.
#[derive(Debug)]
pub struct DueWord<T> {
    pub data: T,
    pub entry_id: i64,
    pub is_new: bool,
}

/// The review items (every word that is not new) and the new items (the
/// first `limit_new_words` new ones), each in due order.
pub open spec fn review_words<T>(ws: Seq<DueWord<T>>) -> Seq<DueWord<T>> {
    crate::text::keep(ws, |w: DueWord<T>| !w.is_new)
}

pub open spec fn new_words<T>(ws: Seq<DueWord<T>>, limit: int) -> Seq<DueWord<T>> {
    let all = crate::text::keep(ws, |w: DueWord<T>| w.is_new);
    if all.len() <= limit {
        all
    } else {
        all.take(if limit < 0 { 0 } else { limit })
    }
}

/// A session card made from a due word in the given phase.
pub open spec fn item_of<T>(item: LearningSessionItem<T>, w: DueWord<T>, phase: LearningPhase) -> bool {
    item.entry_id == w.entry_id && item.data == w.data && item.phase == phase
}

/// Splits the due words of a new session into review and new queues.
pub fn split_due_words<T>(words: Vec<DueWord<T>>, limit_new_words: i64, now: i64) -> (r: (
    Vec<LearningSessionItem<T>>,
    Vec<LearningSessionItem<T>>,
))
    ensures
        r.0@.len() == review_words(words@).len(),
        forall|k: int|
            0 <= k < r.0@.len() ==> item_of(#[trigger] r.0@[k], review_words(words@)[k], LearningPhase::Review),
        r.1@.len() == new_words(words@, limit_new_words as int).len(),
        forall|k: int|
            0 <= k < r.1@.len() ==> item_of(
                #[trigger] r.1@[k],
                new_words(words@, limit_new_words as int)[k],
                LearningPhase::New,
            ),
{
    let ghost ws = words@;
    let ghost nl: int = if limit_new_words < 0 { 0 } else { limit_new_words as int };
    let mut rest = words;
    let mut review: Vec<LearningSessionItem<T>> = Vec::new();
    let mut fresh: Vec<LearningSessionItem<T>> = Vec::new();
    let mut d: usize = 0;
    let total = rest.len();
    assert(ws.skip(0) =~= ws);
    while rest.len() > 0
        invariant
            d + rest@.len() == ws.len(),
            total == ws.len(),
            rest@ == ws.skip(d as int),
            nl == (if limit_new_words < 0 { 0 } else { limit_new_words as int }),
            review@.len() == review_words(ws.take(d as int)).len(),
            forall|k: int|
                0 <= k < review@.len() ==> item_of(
                    #[trigger] review@[k],
                    review_words(ws.take(d as int))[k],
                    LearningPhase::Review,
                ),
            fresh@.len() == new_words(ws.take(d as int), limit_new_words as int).len(),
            fresh@.len() <= nl,
            forall|k: int|
                0 <= k < fresh@.len() ==> item_of(
                    #[trigger] fresh@[k],
                    new_words(ws.take(d as int), limit_new_words as int)[k],
                    LearningPhase::New,
                ),
        decreases rest@.len(),
    {
        let w = rest.remove(0);
        let ghost pre = ws.take(d as int);
        let ghost cur = ws.take(d + 1);
        let ghost wv = w;
        assert(cur.drop_last() =~= pre);
        assert(cur.last() == w);
        assert(rest@ =~= ws.skip(d + 1));
        let ghost allp = crate::text::keep(pre, |x: DueWord<T>| x.is_new);
        let ghost allc = crate::text::keep(cur, |x: DueWord<T>| x.is_new);
        let ghost rb = review@;
        let ghost fb = fresh@;
        if w.is_new {
            assert(allc == allp.push(w));
            assert(review_words(cur) == review_words(pre));
            if (fresh.len() as i64) < limit_new_words {
                assert(allp.len() <= nl) by {
                    if allp.len() > nl {
                        assert(new_words(pre, limit_new_words as int).len() == nl);
                    }
                }
                assert(new_words(cur, limit_new_words as int) =~= new_words(pre, limit_new_words as int).push(wv));
                let it = session_item(w.data, w.entry_id, LearningPhase::New, now);
                assert(item_of(it, wv, LearningPhase::New));
                fresh.push(it);
                assert forall|k: int| 0 <= k < fresh@.len() implies item_of(
                    #[trigger] fresh@[k],
                    new_words(cur, limit_new_words as int)[k],
                    LearningPhase::New,
                ) by {
                    if k < fb.len() {
                        assert(fresh@[k] == fb[k]);
                    }
                }
            } else {
                assert(new_words(cur, limit_new_words as int) =~= new_words(pre, limit_new_words as int));
            }
        } else {
            assert(allc == allp);
            assert(review_words(cur) == review_words(pre).push(wv));
            let it = session_item(w.data, w.entry_id, LearningPhase::Review, now);
            assert(item_of(it, wv, LearningPhase::Review));
            review.push(it);
            assert forall|k: int| 0 <= k < review@.len() implies item_of(
                #[trigger] review@[k],
                review_words(cur)[k],
                LearningPhase::Review,
            ) by {
                if k < rb.len() {
                    assert(review@[k] == rb[k]);
                }
            }
        }
        d = d + 1;
    }
    assert(ws.take(d as int) =~= ws);
    (review, fresh)
}

/// How many progress records are due at `now` (times in milliseconds).
pub fn count_due(due_dates: &Vec<i64>, now: i64) -> (r: usize)
    ensures
        r == crate::text::keep(due_dates@, |d: i64| d <= now).len(),
{
    let mut n: usize = 0;
    let mut i: usize = 0;
    while i < due_dates.len()
        invariant
            0 <= i <= due_dates@.len(),
            n == crate::text::keep(due_dates@.take(i as int), |d: i64| d <= now).len(),
            n <= i,
        decreases due_dates@.len() - i,
    {
        assert(due_dates@.take(i + 1).drop_last() =~= due_dates@.take(i as int));
        assert(due_dates@.take(i + 1).last() == due_dates@[i as int]);
        if due_dates[i] <= now {
            n = n + 1;
        }
        i = i + 1;
    }
    assert(due_dates@.take(i as int) =~= due_dates@);
    n
}

} // verus!
