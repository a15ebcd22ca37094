//! A day's learning session: which card comes next, and when a card is done
//! for the day.  Times are milliseconds on one clock, read by the caller.

use vstd::prelude::*;

verus! {

/// How well a card was recalled.
#[derive(Debug, Clone, Copy, PartialEq, Eq, Structural)]
pub enum LearningRecallRating {
    Known,
    Fuzzy,
    Forgotten,
}

impl LearningRecallRating {
    pub fn as_str(self) -> (r: &'static str)
        ensures
            r@ == (match self {
                LearningRecallRating::Known => "known"@,
                LearningRecallRating::Fuzzy => "fuzzy"@,
                LearningRecallRating::Forgotten => "forgotten"@,
            }),
    {
        match self {
            LearningRecallRating::Known => "known",
            LearningRecallRating::Fuzzy => "fuzzy",
            LearningRecallRating::Forgotten => "forgotten",
        }
    }
}

/// Why a card is shown.
#[derive(Debug, Clone, Copy, PartialEq, Eq, Structural)]
pub enum LearningPhase {
    New,
    Review,
    Intraday,
}

impl LearningPhase {
    pub fn as_str(self) -> (r: &'static str)
        ensures
            r@ == (match self {
                LearningPhase::New => "new"@,
                LearningPhase::Review => "review"@,
                LearningPhase::Intraday => "intraday"@,
            }),
    {
        match self {
            LearningPhase::New => "new",
            LearningPhase::Review => "review",
            LearningPhase::Intraday => "intraday",
        }
    }
}

/// How often a card may be shown in one day.
pub const MAX_INTRADAY_APPEARANCES: i32 = 6;

/// A card of the session; `data` is what the caller keeps with it.
#[derive(Debug)]
pub struct LearningSessionItem<T> {
    pub data: T,
    pub entry_id: i64,
    pub phase: LearningPhase,
    pub first_rating: Option<LearningRecallRating>,
    pub appearance_count_today: i32,
    pub success_streak: i32,
    pub due_after_seen: i32,
    pub earliest_review_at: i64,
}

/// A new card of the session, due at once.
pub fn session_item<T>(data: T, entry_id: i64, phase: LearningPhase, now: i64) -> (r: LearningSessionItem<T>)
    ensures
        r.data == data,
        r.entry_id == entry_id,
        r.phase == phase,
        r.first_rating is None,
        r.appearance_count_today == 0,
        r.success_streak == 0,
        r.due_after_seen == 0,
        r.earliest_review_at == now,
{
    LearningSessionItem {
        data,
        entry_id,
        phase,
        first_rating: None,
        appearance_count_today: 0,
        success_streak: 0,
        due_after_seen: 0,
        earliest_review_at: now,
    }
}

// ---------------------------------------------------------------------------
// Finishing a card for the day
// ---------------------------------------------------------------------------

/// How many answers in a row a card needs, by its first answer of the day.
pub open spec fn required_streak(first: Option<LearningRecallRating>) -> int {
    match first {
        Some(LearningRecallRating::Forgotten) => 2,
        _ => 1,
    }
}

/// The streak after an answer: one longer when known, reset otherwise.
pub open spec fn streak_after(s: int, r: LearningRecallRating) -> int {
    if r == LearningRecallRating::Known {
        s + 1
    } else {
        0
    }
}

/// Whether the card is done for the day after this answer: a first answer
/// that is known, a card shown the maximum number of times, or a long enough
/// streak of known answers.
pub open spec fn completes_today<T>(it: LearningSessionItem<T>, r: LearningRecallRating, is_first_today: bool) -> bool {
    ||| is_first_today && r == LearningRecallRating::Known
    ||| it.appearance_count_today >= MAX_INTRADAY_APPEARANCES
    ||| streak_after(it.success_streak as int, r) >= required_streak(it.first_rating)
}

/// A known answer lengthens the streak by one; any other answer resets it
/// to nothing, whatever it was.
pub proof fn law_streak_resets_unless_known(s: int, r: LearningRecallRating)
    ensures
        r == LearningRecallRating::Known ==> streak_after(s, r) == s + 1,
        r != LearningRecallRating::Known ==> streak_after(s, r) == 0,
{
}

/// A card whose first answer of the day was forgotten needs two known
/// answers in a row: after an answer that is not known, one known answer
/// does not finish it for the day (while it has appearances left), however
/// long the streak was before; two known answers in a row do.
pub proof fn law_forgotten_card_needs_two_known_in_a_row<T>(
    it: LearningSessionItem<T>,
    miss: LearningRecallRating,
)
    requires
        it.first_rating == Some(LearningRecallRating::Forgotten),
        it.appearance_count_today < MAX_INTRADAY_APPEARANCES,
        miss != LearningRecallRating::Known,
    ensures
        ({
            let after_miss = LearningSessionItem {
                success_streak: streak_after(it.success_streak as int, miss) as i32,
                ..it
            };
            &&& !completes_today(after_miss, LearningRecallRating::Known, false)
            &&& completes_today(
                LearningSessionItem {
                    success_streak: streak_after(after_miss.success_streak as int, LearningRecallRating::Known) as i32,
                    ..after_miss
                },
                LearningRecallRating::Known,
                false,
            )
        }),
{
}

/// When an answer finishes a card for the day: a known first answer of the
/// day always does; so does reaching the most appearances a day allows; a
/// card whose first answer was not forgotten is finished by one known
/// answer; and a card shown fewer times than allowed is never finished by
/// an answer that is not known, except as its first answer being known.
pub proof fn law_completion_rules<T>(it: LearningSessionItem<T>, r: LearningRecallRating, first: bool)
    requires
        it.success_streak >= 0,
    ensures
        first && r == LearningRecallRating::Known ==> completes_today(it, r, first),
        it.appearance_count_today >= MAX_INTRADAY_APPEARANCES ==> completes_today(it, r, first),
        it.first_rating != Some(LearningRecallRating::Forgotten) && r == LearningRecallRating::Known
            ==> completes_today(it, r, first),
        it.appearance_count_today < MAX_INTRADAY_APPEARANCES && r != LearningRecallRating::Known
            ==> !completes_today(it, r, first),
{
}

fn required_success_streak(first: Option<LearningRecallRating>) -> (r: i32)
    ensures
        r == required_streak(first),
{
    match first {
        Some(LearningRecallRating::Forgotten) => 2,
        _ => 1,
    }
}

/// Records the answer in the card's streak and tells whether the card is
/// done for the day.
pub fn should_complete_today<T>(
    item: &mut LearningSessionItem<T>,
    rating: LearningRecallRating,
    is_first_today: bool,
) -> (r: bool)
    requires
        old(item).success_streak < i32::MAX,
    ensures
        final(item).success_streak == streak_after(old(item).success_streak as int, rating),
        final(item).data == old(item).data,
        final(item).entry_id == old(item).entry_id,
        final(item).phase == old(item).phase,
        final(item).first_rating == old(item).first_rating,
        final(item).appearance_count_today == old(item).appearance_count_today,
        final(item).due_after_seen == old(item).due_after_seen,
        final(item).earliest_review_at == old(item).earliest_review_at,
        r == completes_today(*old(item), rating, is_first_today),
{
    match rating {
        LearningRecallRating::Known => {
            item.success_streak = item.success_streak + 1;
        },
        LearningRecallRating::Fuzzy | LearningRecallRating::Forgotten => {
            item.success_streak = 0;
        },
    }
    if is_first_today && rating == LearningRecallRating::Known {
        return true;
    }
    if item.appearance_count_today >= MAX_INTRADAY_APPEARANCES {
        return true;
    }
    item.success_streak >= required_success_streak(item.first_rating)
}

// ---------------------------------------------------------------------------
// The session
// ---------------------------------------------------------------------------

/// The cards of a session and its counters.
#[derive(Debug)]
pub struct LearningSessionRuntime<T> {
    pub id: String,
    pub business_date: i32,
    pub review_items: Vec<LearningSessionItem<T>>,
    pub new_items: Vec<LearningSessionItem<T>>,
    pub intraday_items: Vec<LearningSessionItem<T>>,
    pub current: Option<LearningSessionItem<T>>,
    pub completed_count: i32,
    pub total_count: i32,
    pub seen_cursor: i32,
}

#[verifier::ext_equal]
pub struct SessionV<T> {
    pub id: Seq<char>,
    pub business_date: i32,
    pub review: Seq<LearningSessionItem<T>>,
    pub new: Seq<LearningSessionItem<T>>,
    pub intraday: Seq<LearningSessionItem<T>>,
    pub current: Option<LearningSessionItem<T>>,
    pub completed_count: i32,
    pub total_count: i32,
    pub seen_cursor: i32,
}

impl<T> View for LearningSessionRuntime<T> {
    type V = SessionV<T>;

    open spec fn view(&self) -> SessionV<T> {
        SessionV {
            id: self.id@,
            business_date: self.business_date,
            review: self.review_items@,
            new: self.new_items@,
            intraday: self.intraday_items@,
            current: self.current,
            completed_count: self.completed_count,
            total_count: self.total_count,
            seen_cursor: self.seen_cursor,
        }
    }
}

/// How many cards the session holds, the one shown included.
pub open spec fn cards_in<T>(s: SessionV<T>) -> int {
    s.review.len() + s.new.len() + s.intraday.len() + if s.current is Some {
        1int
    } else {
        0int
    }
}

/// A session with nothing shown and nothing left to show.
pub open spec fn completed<T>(s: SessionV<T>) -> bool {
    s.current is None && s.review.len() == 0 && s.new.len() == 0 && s.intraday.len() == 0
}

/// A card that may come back now: its gap in cards has passed and its
/// earliest time has come.
pub open spec fn is_due<T>(it: LearningSessionItem<T>, cursor: i32, now: i64) -> bool {
    it.due_after_seen <= cursor && it.earliest_review_at <= now
}

/// Cards order by the card count they wait for, then by their earliest time.
pub open spec fn comes_before<T>(a: LearningSessionItem<T>, b: LearningSessionItem<T>) -> bool {
    a.due_after_seen < b.due_after_seen || (a.due_after_seen == b.due_after_seen
        && a.earliest_review_at < b.earliest_review_at)
}

/// `k` is the first of the cards that satisfy `ok` and that no other such
/// card comes before.
pub open spec fn is_first_min<T>(items: Seq<LearningSessionItem<T>>, ok: spec_fn(LearningSessionItem<T>) -> bool, k: int) -> bool {
    &&& 0 <= k < items.len()
    &&& ok(items[k])
    &&& forall|j: int| 0 <= j < items.len() && ok(#[trigger] items[j]) ==> !comes_before(items[j], items[k])
    &&& forall|j: int| 0 <= j < k && ok(#[trigger] items[j]) ==> comes_before(items[k], items[j])
}

/// The index of the first card that no other acceptable card comes before.
pub open spec fn first_min<T>(items: Seq<LearningSessionItem<T>>, ok: spec_fn(LearningSessionItem<T>) -> bool) -> Option<int> {
    if exists|k: int| is_first_min(items, ok, k) {
        Some(choose|k: int| is_first_min(items, ok, k))
    } else {
        None
    }
}

pub proof fn lemma_first_min_unique<T>(
    items: Seq<LearningSessionItem<T>>,
    ok: spec_fn(LearningSessionItem<T>) -> bool,
    k: int,
)
    requires
        is_first_min(items, ok, k),
    ensures
        first_min(items, ok) == Some(k),
{
    let c = choose|c: int| is_first_min(items, ok, c);
    assert(is_first_min(items, ok, c));
    if c < k {
        assert(ok(items[c]));
        assert(comes_before(items[k], items[c]));
    } else if k < c {
        assert(ok(items[k]));
        assert(comes_before(items[c], items[k]));
    }
}

/// The card as it is shown: a card seen before today is now an intraday
/// card, and it has been shown once more.
pub open spec fn entered<T>(it: LearningSessionItem<T>) -> LearningSessionItem<T> {
    LearningSessionItem {
        phase: if it.appearance_count_today > 0 {
            LearningPhase::Intraday
        } else {
            it.phase
        },
        appearance_count_today: (it.appearance_count_today + 1) as i32,
        ..it
    }
}

/// The session after choosing what to show: nothing changes while a card is
/// shown; otherwise the first due intraday card, else the first review card,
/// else the first new card, else the intraday card that will be due first.
pub open spec fn after_select<T>(s: SessionV<T>, now: i64) -> SessionV<T> {
    let due = |it: LearningSessionItem<T>| is_due(it, s.seen_cursor, now);
    let any = |it: LearningSessionItem<T>| true;
    if s.current is Some {
        s
    } else if first_min(s.intraday, due) is Some {
        let k = first_min(s.intraday, due).unwrap();
        SessionV {
            intraday: s.intraday.remove(k),
            current: Some(entered(s.intraday[k])),
            seen_cursor: (s.seen_cursor + 1) as i32,
            ..s
        }
    } else if s.review.len() > 0 {
        SessionV {
            review: s.review.drop_first(),
            current: Some(entered(s.review[0])),
            seen_cursor: (s.seen_cursor + 1) as i32,
            ..s
        }
    } else if s.new.len() > 0 {
        SessionV {
            new: s.new.drop_first(),
            current: Some(entered(s.new[0])),
            seen_cursor: (s.seen_cursor + 1) as i32,
            ..s
        }
    } else if s.intraday.len() > 0 {
        let k = first_min(s.intraday, any).unwrap();
        SessionV {
            intraday: s.intraday.remove(k),
            current: Some(entered(s.intraday[k])),
            seen_cursor: (s.seen_cursor + 1) as i32,
            ..s
        }
    } else {
        s
    }
}

/// Cards that may still be shown again today and a cursor with room to count.
pub open spec fn session_ok<T>(s: SessionV<T>) -> bool {
    &&& 0 <= s.seen_cursor < i32::MAX - 5
    &&& forall|i: int| 0 <= i < s.review.len() ==> 0 <= #[trigger] s.review[i].appearance_count_today < MAX_INTRADAY_APPEARANCES
    &&& forall|i: int| 0 <= i < s.new.len() ==> 0 <= #[trigger] s.new[i].appearance_count_today < MAX_INTRADAY_APPEARANCES
    &&& forall|i: int| 0 <= i < s.intraday.len() ==> 0 <= #[trigger] s.intraday[i].appearance_count_today < MAX_INTRADAY_APPEARANCES
}

impl<T> LearningSessionRuntime<T> {
    /// A session over the review cards and the new cards, nothing shown yet.
    pub fn new(
        id: String,
        business_date: i32,
        review_items: Vec<LearningSessionItem<T>>,
        new_items: Vec<LearningSessionItem<T>>,
    ) -> (r: Self)
        requires
            review_items@.len() + new_items@.len() <= usize::MAX,
        ensures
            r@.id == id@,
            r@.business_date == business_date,
            r@.review == review_items@,
            r@.new == new_items@,
            r@.intraday.len() == 0,
            r@.current is None,
            r@.completed_count == 0,
            r@.total_count == (review_items@.len() + new_items@.len()) as i32,
            r@.seen_cursor == 0,
    {
        let total = review_items.len() + new_items.len();
        LearningSessionRuntime {
            id,
            business_date,
            review_items,
            new_items,
            intraday_items: Vec::new(),
            current: None,
            completed_count: 0,
            total_count: total as i32,
            seen_cursor: 0,
        }
    }

    /// Whether nothing is shown and nothing is left to show.
    pub fn is_completed(&self) -> (r: bool)
        ensures
            r == completed(self@),
    {
        self.current.is_none() && self.review_items.len() == 0 && self.new_items.len() == 0
            && self.intraday_items.len() == 0
    }

    fn comes_before_exec(a: &LearningSessionItem<T>, b: &LearningSessionItem<T>) -> (r: bool)
        ensures
            r == comes_before(*a, *b),
    {
        a.due_after_seen < b.due_after_seen || (a.due_after_seen == b.due_after_seen
            && a.earliest_review_at < b.earliest_review_at)
    }

    /// The first intraday card that is due and that no due card comes before.
    pub fn next_due_intraday_index(&self, now: i64) -> (r: Option<usize>)
        ensures
            r matches Some(k) ==> is_first_min(
                self@.intraday,
                |it: LearningSessionItem<T>| is_due(it, self@.seen_cursor, now),
                k as int,
            ),
            r is None ==> forall|j: int|
                0 <= j < self@.intraday.len() ==> !is_due(#[trigger] self@.intraday[j], self@.seen_cursor, now),
    {
        let items = &self.intraday_items;
        let cursor = self.seen_cursor;
        let ghost ok = |it: LearningSessionItem<T>| is_due(it, cursor, now);
        let mut best: Option<usize> = None;
        let mut i: usize = 0;
        while i < items.len()
            invariant
                0 <= i <= items@.len(),
                cursor == self@.seen_cursor,
                items@ == self@.intraday,
                ok == (|it: LearningSessionItem<T>| is_due(it, cursor, now)),
                best matches Some(k) ==> is_first_min(items@.take(i as int), ok, k as int),
                best is None ==> forall|j: int| 0 <= j < i ==> !is_due(#[trigger] items@[j], cursor, now),
            decreases items@.len() - i,
        {
            let it = &items[i];
            let due = it.due_after_seen <= cursor && it.earliest_review_at <= now;
            let ghost prev = items@.take(i as int);
            let ghost next = items@.take(i + 1);
            assert(forall|j: int| 0 <= j < i ==> next[j] == prev[j]);
            assert(next[i as int] == items@[i as int]);
            if due {
                match best {
                    None => {
                        best = Some(i);
                        assert(is_first_min(next, ok, i as int));
                    },
                    Some(k) => {
                        if Self::comes_before_exec(it, &items[k]) {
                            best = Some(i);
                            assert forall|j: int| 0 <= j < next.len() && ok(#[trigger] next[j]) implies !comes_before(next[j], next[i as int]) by {
                                if j < i {
                                    assert(!comes_before(prev[j], prev[k as int]));
                                }
                            }
                            assert forall|j: int| 0 <= j < i && ok(#[trigger] next[j]) implies comes_before(next[i as int], next[j]) by {
                                assert(!comes_before(prev[j], prev[k as int]));
                            }
                            assert(is_first_min(next, ok, i as int));
                        } else {
                            assert(is_first_min(next, ok, k as int));
                        }
                    },
                }
            } else {
                match best {
                    Some(k) => {
                        assert(is_first_min(next, ok, k as int));
                    },
                    None => {},
                }
            }
            i = i + 1;
        }
        assert(items@.take(items@.len() as int) =~= items@);
        best
    }

    /// The intraday card that no other comes before, the first such.
    pub fn closest_intraday_index(&self) -> (r: usize)
        requires
            self@.intraday.len() > 0,
        ensures
            is_first_min(self@.intraday, |it: LearningSessionItem<T>| true, r as int),
    {
        let items = &self.intraday_items;
        let ghost ok = |it: LearningSessionItem<T>| true;
        let mut best: usize = 0;
        let mut i: usize = 1;
        assert(is_first_min(items@.take(1), ok, 0));
        while i < items.len()
            invariant
                1 <= i <= items@.len(),
                items@ == self@.intraday,
                ok == (|it: LearningSessionItem<T>| true),
                best < i,
                is_first_min(items@.take(i as int), ok, best as int),
            decreases items@.len() - i,
        {
            let ghost prev = items@.take(i as int);
            let ghost next = items@.take(i + 1);
            assert(forall|j: int| 0 <= j < i ==> next[j] == prev[j]);
            assert(next[i as int] == items@[i as int]);
            if Self::comes_before_exec(&items[i], &items[best]) {
                let k = best;
                best = i;
                assert forall|j: int| 0 <= j < next.len() && ok(#[trigger] next[j]) implies !comes_before(next[j], next[i as int]) by {
                    if j < i {
                        assert(!comes_before(prev[j], prev[k as int]));
                    }
                }
                assert forall|j: int| 0 <= j < i && ok(#[trigger] next[j]) implies comes_before(next[i as int], next[j]) by {
                    assert(!comes_before(prev[j], prev[k as int]));
                }
            }
            i = i + 1;
        }
        assert(items@.take(items@.len() as int) =~= items@);
        best
    }

    fn set_current(&mut self, item: LearningSessionItem<T>)
        requires
            old(self)@.seen_cursor < i32::MAX,
            item.appearance_count_today < i32::MAX,
        ensures
            final(self)@ == (SessionV {
                current: Some(entered(item)),
                seen_cursor: (old(self)@.seen_cursor + 1) as i32,
                ..old(self)@
            }),
    {
        let mut item = item;
        if item.appearance_count_today > 0 {
            item.phase = LearningPhase::Intraday;
        }
        item.appearance_count_today = item.appearance_count_today + 1;
        self.seen_cursor = self.seen_cursor + 1;
        self.current = Some(item);
    }

    /// Chooses the card to show, when none is shown.
    pub fn select_next(&mut self, now: i64)
        requires
            session_ok(old(self)@),
        ensures
            final(self)@ == after_select(old(self)@, now),
    {
        let ghost s = self@;
        let ghost due = |it: LearningSessionItem<T>| is_due(it, s.seen_cursor, now);
        let ghost any = |it: LearningSessionItem<T>| true;
        if self.current.is_some() {
            return;
        }
        match self.next_due_intraday_index(now) {
            Some(index) => {
                proof {
                    lemma_first_min_unique(s.intraday, due, index as int);
                }
                let item = self.intraday_items.remove(index);
                self.set_current(item);
                assert(self@ =~= after_select(s, now));
                return;
            },
            None => {
                assert(first_min(s.intraday, due) is None) by {
                    if exists|k: int| is_first_min(s.intraday, due, k) {
                        let k = choose|k: int| is_first_min(s.intraday, due, k);
                        assert(due(s.intraday[k]));
                    }
                }
            },
        }
        if self.review_items.len() > 0 {
            let item = self.review_items.remove(0);
            self.set_current(item);
            assert(self@ =~= after_select(s, now));
            return;
        }
        if self.new_items.len() > 0 {
            let item = self.new_items.remove(0);
            self.set_current(item);
            assert(self@ =~= after_select(s, now));
            return;
        }
        if self.intraday_items.len() > 0 {
            let index = self.closest_intraday_index();
            proof {
                lemma_first_min_unique(s.intraday, any, index as int);
            }
            let item = self.intraday_items.remove(index);
            self.set_current(item);
            assert(self@ =~= after_select(s, now));
        }
    }
}

/// How many cards must pass before a card comes back, by its answer.
pub open spec fn card_gap(r: LearningRecallRating) -> int {
    match r {
        LearningRecallRating::Forgotten => 2,
        LearningRecallRating::Fuzzy => 5,
        LearningRecallRating::Known => 5,
    }
}

/// How long a card waits before it comes back, in milliseconds.
pub open spec fn min_delay_ms(r: LearningRecallRating) -> int {
    match r {
        LearningRecallRating::Forgotten => 45_000,
        LearningRecallRating::Fuzzy => 120_000,
        LearningRecallRating::Known => 60_000,
    }
}

pub fn card_gap_for_rating(rating: LearningRecallRating) -> (r: i32)
    ensures
        r == card_gap(rating),
{
    match rating {
        LearningRecallRating::Forgotten => 2,
        LearningRecallRating::Fuzzy => 5,
        LearningRecallRating::Known => 5,
    }
}

pub fn min_delay_for_rating(rating: LearningRecallRating) -> (r: i64)
    ensures
        r == min_delay_ms(rating),
{
    match rating {
        LearningRecallRating::Forgotten => 45_000,
        LearningRecallRating::Fuzzy => 120_000,
        LearningRecallRating::Known => 60_000,
    }
}

/// The card as it waits in the intraday queue.
pub open spec fn requeued<T>(it: LearningSessionItem<T>, cursor: i32, r: LearningRecallRating, now: i64) -> LearningSessionItem<T> {
    LearningSessionItem {
        phase: LearningPhase::Intraday,
        due_after_seen: (cursor + card_gap(r)) as i32,
        earliest_review_at: (now + min_delay_ms(r)) as i64,
        ..it
    }
}

/// Why an answer cannot be recorded.
#[derive(Debug, Clone, Copy, PartialEq, Eq, Structural)]
pub enum ReviewError {
    NoActiveCard,
    CardMismatch,
}

impl ReviewError {
    pub fn message(self) -> (r: &'static str)
        ensures
            r@ == (match self {
                ReviewError::NoActiveCard => "no active learning card"@,
                ReviewError::CardMismatch => "reviewed entry does not match active learning card"@,
            }),
    {
        match self {
            ReviewError::NoActiveCard => "no active learning card",
            ReviewError::CardMismatch => "reviewed entry does not match active learning card",
        }
    }
}

/// How many more times a card may be shown today.
pub fn repetitions_left<T>(item: &LearningSessionItem<T>) -> (r: i32)
    requires
        MAX_INTRADAY_APPEARANCES - item.appearance_count_today <= i32::MAX,
    ensures
        r == (if MAX_INTRADAY_APPEARANCES - item.appearance_count_today > 0 {
            MAX_INTRADAY_APPEARANCES - item.appearance_count_today
        } else {
            0
        }),
{
    if item.appearance_count_today < MAX_INTRADAY_APPEARANCES {
        MAX_INTRADAY_APPEARANCES - item.appearance_count_today
    } else {
        0
    }
}

impl<T> LearningSessionRuntime<T> {
    /// Puts a card back into the intraday queue, due after a gap in cards and
    /// a delay in time that depend on the answer.
    pub fn requeue_intraday(&mut self, item: LearningSessionItem<T>, rating: LearningRecallRating, now: i64)
        requires
            old(self)@.seen_cursor + 5 <= i32::MAX,
            now + 120_000 <= i64::MAX,
        ensures
            final(self)@ == (SessionV {
                intraday: old(self)@.intraday.push(requeued(item, old(self)@.seen_cursor, rating, now)),
                ..old(self)@
            }),
    {
        let mut item = item;
        item.phase = LearningPhase::Intraday;
        item.due_after_seen = self.seen_cursor + card_gap_for_rating(rating);
        item.earliest_review_at = now + min_delay_for_rating(rating);
        self.intraday_items.push(item);
    }

    /// Takes the shown card to record an answer for entry `entry_id`; the
    /// first answer of the day becomes the card's first rating.  The shown
    /// card stays when it is another entry.
    pub fn take_card_for_review(&mut self, entry_id: i64, rating: LearningRecallRating) -> (r: Result<
        (LearningSessionItem<T>, bool),
        ReviewError,
    >)
        ensures
            old(self)@.current is None ==> r == Err::<(LearningSessionItem<T>, bool), ReviewError>(
                ReviewError::NoActiveCard,
            ) && final(self)@ == old(self)@,
            old(self)@.current is Some && old(self)@.current.unwrap().entry_id != entry_id ==> r
                == Err::<(LearningSessionItem<T>, bool), ReviewError>(ReviewError::CardMismatch)
                && final(self)@ == old(self)@,
            old(self)@.current is Some && old(self)@.current.unwrap().entry_id == entry_id ==> ({
                let c = old(self)@.current.unwrap();
                &&& r is Ok
                &&& r.unwrap().1 == (c.first_rating is None)
                &&& r.unwrap().0 == (LearningSessionItem {
                    first_rating: if c.first_rating is None {
                        Some(rating)
                    } else {
                        c.first_rating
                    },
                    ..c
                })
                &&& final(self)@ == (SessionV { current: None, ..old(self)@ })
            }),
    {
        let item = match self.current.take() {
            None => {
                return Err(ReviewError::NoActiveCard);
            },
            Some(item) => item,
        };
        if item.entry_id != entry_id {
            self.current = Some(item);
            return Err(ReviewError::CardMismatch);
        }
        let mut item = item;
        let is_first_today = item.first_rating.is_none();
        if is_first_today {
            item.first_rating = Some(rating);
        }
        Ok((item, is_first_today))
    }

    /// Shows the card again, after its answer could not be kept.
    pub fn restore_current(&mut self, item: LearningSessionItem<T>)
        ensures
            final(self)@ == (SessionV { current: Some(item), ..old(self)@ }),
    {
        self.current = Some(item);
    }

    /// Records the answer for a taken card: the card is done for the day, or
    /// goes back into the intraday queue.  Tells whether it is done.
    pub fn finish_review(
        &mut self,
        item: LearningSessionItem<T>,
        rating: LearningRecallRating,
        is_first_today: bool,
        now: i64,
    ) -> (r: bool)
        requires
            item.success_streak < i32::MAX,
            old(self)@.completed_count < i32::MAX,
            old(self)@.seen_cursor + 5 <= i32::MAX,
            now + 120_000 <= i64::MAX,
        ensures
            r == completes_today(item, rating, is_first_today),
            r ==> final(self)@ == (SessionV {
                completed_count: (old(self)@.completed_count + 1) as i32,
                ..old(self)@
            }),
            !r ==> final(self)@ == (SessionV {
                intraday: old(self)@.intraday.push(
                    requeued(
                        LearningSessionItem {
                            success_streak: streak_after(item.success_streak as int, rating) as i32,
                            ..item
                        },
                        old(self)@.seen_cursor,
                        rating,
                        now,
                    ),
                ),
                ..old(self)@
            }),
    {
        let mut item = item;
        let done = should_complete_today(&mut item, rating, is_first_today);
        if done {
            self.completed_count = self.completed_count + 1;
        } else {
            self.requeue_intraday(item, rating, now);
        }
        done
    }
}

// ---------------------------------------------------------------------------
// Laws
// ---------------------------------------------------------------------------

/// Choosing the next card neither loses nor adds a card.
pub proof fn law_select_keeps_cards<T>(s: SessionV<T>, now: i64)
    ensures
        cards_in(after_select(s, now)) == cards_in(s),
{
    let due = |it: LearningSessionItem<T>| is_due(it, s.seen_cursor, now);
    let any = |it: LearningSessionItem<T>| true;
    if s.current is None {
        if first_min(s.intraday, due) is Some {
            let k = choose|k: int| is_first_min(s.intraday, due, k);
            assert(is_first_min(s.intraday, due, k));
        } else if s.review.len() == 0 && s.new.len() == 0 && s.intraday.len() > 0 {
            lemma_first_min_exists(s.intraday, any);
            let k = choose|k: int| is_first_min(s.intraday, any, k);
            assert(is_first_min(s.intraday, any, k));
        }
    }
}

/// While cards are left and none is shown, choosing shows one.
pub proof fn law_select_shows_a_card<T>(s: SessionV<T>, now: i64)
    requires
        s.current is None,
        !completed(s),
    ensures
        after_select(s, now).current is Some,
{
    let any = |it: LearningSessionItem<T>| true;
    if s.intraday.len() > 0 {
        let t = after_select(s, now);
        assert(t.current is Some) by {
            let due = |it: LearningSessionItem<T>| is_due(it, s.seen_cursor, now);
            if first_min(s.intraday, due) is None && s.review.len() == 0 && s.new.len() == 0 {
                lemma_first_min_exists(s.intraday, any);
            }
        }
    }
}

/// Among non-empty cards there is always a first card no other comes before.
pub proof fn lemma_first_min_exists<T>(items: Seq<LearningSessionItem<T>>, ok: spec_fn(LearningSessionItem<T>) -> bool)
    requires
        items.len() > 0,
        forall|i: int| 0 <= i < items.len() ==> ok(#[trigger] items[i]),
    ensures
        first_min(items, ok) is Some,
    decreases items.len(),
{
    if items.len() == 1 {
        assert(is_first_min(items, ok, 0));
    } else {
        let init = items.drop_last();
        lemma_first_min_exists(init, ok);
        let k = first_min(init, ok).unwrap();
        assert(is_first_min(init, ok, k));
        let last = items.len() - 1;
        if comes_before(items[last], items[k]) {
            assert forall|j: int| 0 <= j < items.len() && ok(#[trigger] items[j]) implies !comes_before(items[j], items[last]) by {
                if j < last {
                    assert(init[j] == items[j]);
                    assert(!comes_before(init[j], init[k]));
                }
            }
            assert forall|j: int| 0 <= j < last && ok(#[trigger] items[j]) implies comes_before(items[last], items[j]) by {
                assert(init[j] == items[j]);
                assert(!comes_before(init[j], init[k]));
            }
            assert(is_first_min(items, ok, last));
        } else {
            assert forall|j: int| 0 <= j < items.len() && ok(#[trigger] items[j]) implies !comes_before(items[j], items[k]) by {
                if j < last {
                    assert(init[j] == items[j]);
                }
            }
            assert forall|j: int| 0 <= j < k && ok(#[trigger] items[j]) implies comes_before(items[k], items[j]) by {
                assert(init[j] == items[j]);
            }
            assert(is_first_min(items, ok, k));
        }
    }
}

/// A session is finished after choosing exactly when it was before.
pub proof fn law_select_completed<T>(s: SessionV<T>, now: i64)
    ensures
        completed(after_select(s, now)) == completed(s),
{
    if s.current is None && !completed(s) {
        law_select_shows_a_card(s, now);
    }
}

/// A known first answer finishes the card for the day.
pub proof fn law_first_known_completes<T>(it: LearningSessionItem<T>)
    ensures
        completes_today(it, LearningRecallRating::Known, true),
{
}

/// A card shown the maximum number of times is finished whatever the answer.
pub proof fn law_appearance_cap<T>(it: LearningSessionItem<T>, r: LearningRecallRating, is_first_today: bool)
    requires
        it.appearance_count_today >= MAX_INTRADAY_APPEARANCES,
    ensures
        completes_today(it, r, is_first_today),
{
}

/// A card that comes back has been shown fewer times than the maximum.
pub proof fn law_requeued_below_cap<T>(it: LearningSessionItem<T>, r: LearningRecallRating, is_first_today: bool)
    requires
        !completes_today(it, r, is_first_today),
    ensures
        it.appearance_count_today < MAX_INTRADAY_APPEARANCES,
{
}

/// After a forgotten first answer, one known answer is not enough and two
/// known answers in a row are.
pub proof fn law_forgotten_needs_two_known<T>(it: LearningSessionItem<T>)
    requires
        it.first_rating == Some(LearningRecallRating::Forgotten),
        it.appearance_count_today < MAX_INTRADAY_APPEARANCES,
    ensures
        it.success_streak == 0 ==> !completes_today(it, LearningRecallRating::Known, false),
        it.success_streak == 1 ==> completes_today(it, LearningRecallRating::Known, false),
        !completes_today(it, LearningRecallRating::Fuzzy, false),
        !completes_today(it, LearningRecallRating::Forgotten, false),
{
}

/// After a fuzzy first answer, one later known answer is enough.
pub proof fn law_fuzzy_needs_one_known<T>(it: LearningSessionItem<T>)
    requires
        it.first_rating == Some(LearningRecallRating::Fuzzy),
        it.success_streak >= 0,
    ensures
        completes_today(it, LearningRecallRating::Known, false),
{
}

} // verus!
