//! The store of day aggregates: exactly one per calendar day, created on
//! first use and never removed.
use vstd::prelude::*;

use crate::votes::{
    day_key, day_start, empty_tally, lemma_vote_keeps_exclusive, tally_wf, with_vote, with_votes,
    Day, DayTally, EARLIEST_MILLIS,
};

verus! {

/// Why a stored day could not be handed out.
#[derive(Clone, Copy, Debug, PartialEq, Eq, Structural)]
pub enum StoreError {
    /// No aggregate exists for the requested day; this differs from a day
    /// with no votes.
    NotFound,
}

/// Index of the aggregate keyed `key`, or -1 when there is none (the last
/// one, were there several).
pub open spec fn find_day(days: Seq<DayTally>, key: i64) -> int
    decreases days.len(),
{
    if days.len() == 0 {
        -1
    } else if days.last().date == key {
        days.len() - 1
    } else {
        find_day(days.drop_last(), key)
    }
}

/// The days after asking for the one keyed `key`: unchanged when it exists,
/// else with an empty aggregate for it appended.
pub open spec fn with_day(days: Seq<DayTally>, key: i64) -> Seq<DayTally> {
    if find_day(days, key) >= 0 {
        days
    } else {
        days.push(empty_tally(key))
    }
}

/// The aggregate keyed `key` once it has been asked for.
pub open spec fn day_for(days: Seq<DayTally>, key: i64) -> DayTally {
    let opened = with_day(days, key);
    opened[find_day(opened, key)]
}

/// The days after `user_id` votes on the day keyed `key`, which is created
/// first when missing.
pub open spec fn with_vote_on(days: Seq<DayTally>, key: i64, user_id: i64, late: bool) -> Seq<
    DayTally,
> {
    let opened = with_day(days, key);
    let i = find_day(opened, key);
    opened.update(i, with_vote(opened[i], user_id, late))
}

/// Each aggregate well formed, and no two for the same day.
pub open spec fn store_wf(days: Seq<DayTally>) -> bool {
    &&& forall|i: int| 0 <= i < days.len() ==> tally_wf(#[trigger] days[i])
    &&& forall|i: int, j: int|
        0 <= i < j < days.len() ==> #[trigger] days[i].date != #[trigger] days[j].date
}

/// Whether anyone says the person was late that day.
pub open spec fn has_late_vote() -> spec_fn(DayTally) -> bool {
    |t: DayTally| t.late.len() > 0
}

/// How many days have at least one "late" vote.
pub open spec fn late_days(days: Seq<DayTally>) -> nat {
    days.filter(has_late_vote()).len()
}

/// What `find_day` returns: a valid index holding `key`, or -1 when no day
/// holds it.
pub proof fn lemma_find_day(days: Seq<DayTally>, key: i64)
    ensures
        -1 <= find_day(days, key) < days.len(),
        find_day(days, key) >= 0 ==> days[find_day(days, key)].date == key,
        find_day(days, key) == -1 ==> forall|j: int|
            0 <= j < days.len() ==> #[trigger] days[j].date != key,
    decreases days.len(),
{
    if days.len() > 0 {
        lemma_find_day(days.drop_last(), key);
        if find_day(days, key) == -1 {
            assert forall|j: int| 0 <= j < days.len() implies #[trigger] days[j].date != key by {
                if j < days.len() - 1 {
                    assert(days.drop_last()[j] == days[j]);
                }
            }
        }
    }
}

/// Where a day is found depends on the days' dates alone.
proof fn lemma_find_day_by_dates(a: Seq<DayTally>, b: Seq<DayTally>, key: i64)
    requires
        a.len() == b.len(),
        forall|j: int| 0 <= j < a.len() ==> #[trigger] a[j].date == b[j].date,
    ensures
        find_day(a, key) == find_day(b, key),
    decreases a.len(),
{
    if a.len() > 0 {
        lemma_find_day_by_dates(a.drop_last(), b.drop_last(), key);
    }
}

/// After a vote on a day, that day exists and holds the vote.
pub proof fn lemma_vote_lands(days: Seq<DayTally>, key: i64, user_id: i64, late: bool)
    ensures
        ({
            let after = with_vote_on(days, key, user_id, late);
            &&& with_day(after, key) == after
            &&& day_for(after, key) == with_vote(day_for(days, key), user_id, late)
        }),
{
    let opened = with_day(days, key);
    let i = find_day(opened, key);
    let after = with_vote_on(days, key, user_id, late);
    lemma_find_day(days, key);
    if find_day(days, key) < 0 {
        assert(opened.last().date == key);
    }
    lemma_find_day(opened, key);
    assert forall|j: int| 0 <= j < opened.len() implies #[trigger] opened[j].date
        == after[j].date by {}
    lemma_find_day_by_dates(opened, after, key);
}

/// Asking for a day keeps the store well formed and makes the day exist.
pub proof fn lemma_with_day(days: Seq<DayTally>, key: i64)
    requires
        store_wf(days),
    ensures
        store_wf(with_day(days, key)),
        0 <= find_day(with_day(days, key), key) < with_day(days, key).len(),
        with_day(days, key)[find_day(with_day(days, key), key)].date == key,
{
    lemma_find_day(days, key);
    let opened = with_day(days, key);
    if find_day(days, key) < 0 {
        assert(opened.drop_last() == days);
        assert forall|i: int, j: int| 0 <= i < j < opened.len() implies #[trigger] opened[i].date
            != #[trigger] opened[j].date by {
            if j == opened.len() - 1 {
                assert(opened[i] == days[i]);
            } else {
                assert(opened[i] == days[i] && opened[j] == days[j]);
            }
        }
    }
    lemma_find_day(opened, key);
}

/// Every day's aggregate, one per calendar day.
pub struct VoteStore {
    days: Vec<Day>,
}

impl View for VoteStore {
    type V = Seq<DayTally>;

    /// The aggregates in the order their days were first asked for.
    closed spec fn view(&self) -> Seq<DayTally> {
        self.days@.map_values(|d: Day| d@)
    }
}

impl VoteStore {
    /// One well-formed aggregate per day; every operation keeps this.
    pub open spec fn wf(&self) -> bool {
        store_wf(self@)
    }

    /// A store with no days.
    pub fn new() -> (r: VoteStore)
        ensures
            r@ == Seq::<DayTally>::empty(),
            r.wf(),
    {
        let r = VoteStore { days: Vec::new() };
        assert(r@ == Seq::<DayTally>::empty());
        r
    }

    /// Where the day keyed `key` is stored, if anywhere.
    fn position(&self, key: i64) -> (r: Option<usize>)
        ensures
            r is Some ==> r->0 == find_day(self@, key) && r->0 < self@.len(),
            r is None ==> find_day(self@, key) == -1,
    {
        let mut i: usize = self.days.len();
        assert(self@.subrange(0, i as int) == self@);
        while i > 0
            invariant
                i <= self.days@.len(),
                self@.len() == self.days@.len(),
                find_day(self@, key) == find_day(self@.subrange(0, i as int), key),
            decreases i,
        {
            assert(self@.subrange(0, i as int).drop_last() == self@.subrange(0, i as int - 1));
            if self.days[i - 1].date == key {
                return Some(i - 1);
            }
            i = i - 1;
        }
        None
    }

    /// Makes sure the day keyed `key` exists and returns where it is.
    fn open_day(&mut self, key: i64) -> (r: usize)
        ensures
            final(self)@ == with_day(old(self)@, key),
            r == find_day(final(self)@, key),
            r < final(self)@.len(),
            old(self).wf() ==> final(self).wf(),
    {
        proof {
            lemma_find_day(self@, key);
            if self.wf() {
                lemma_with_day(self@, key);
            }
        }
        match self.position(key) {
            Some(i) => i,
            None => {
                let ghost before = self@;
                self.days.push(Day::new(key));
                assert(self@ == before.push(empty_tally(key)));
                self.days.len() - 1
            },
        }
    }

    /// Adds one vote to the stored day at `i`.
    fn vote_at(&mut self, i: usize, user_id: i64, vote_yes: bool)
        requires
            i < old(self)@.len(),
        ensures
            final(self)@ == old(self)@.update(
                i as int,
                with_vote(old(self)@[i as int], user_id, vote_yes),
            ),
            old(self).wf() ==> final(self).wf(),
    {
        proof {
            if self.wf() {
                lemma_vote_keeps_exclusive(self@[i as int], user_id, vote_yes);
            }
        }
        let ghost before = self@;
        let mut day = self.days.remove(i);
        day.cast_vote(user_id, vote_yes);
        self.days.insert(i, day);
        assert(self@ == before.update(i as int, with_vote(before[i as int], user_id, vote_yes)));
    }

    /// Today's aggregate for `now_ms` (milliseconds since the Unix epoch),
    /// created empty first if the day has none yet. Asking twice on one day
    /// creates it once.
    pub fn check_today_document(&mut self, now_ms: i64) -> (r: Day)
        requires
            now_ms >= EARLIEST_MILLIS,
        ensures
            final(self)@ == with_day(old(self)@, day_key(now_ms as int) as i64),
            r@ == day_for(old(self)@, day_key(now_ms as int) as i64),
            old(self).wf() ==> final(self).wf(),
    {
        let key = day_start(now_ms);
        let i = self.open_day(key);
        self.days[i].snapshot()
    }

    /// Records `user_id`'s vote on today's aggregate for `now_ms`, creating
    /// the aggregate first if needed: the user joins the "late" side when
    /// `vote_yes`, the "not late" side otherwise, and leaves the other.
    pub fn vote(&mut self, now_ms: i64, user_id: i64, vote_yes: bool)
        requires
            now_ms >= EARLIEST_MILLIS,
        ensures
            final(self)@ == with_vote_on(
                old(self)@,
                day_key(now_ms as int) as i64,
                user_id,
                vote_yes,
            ),
            old(self).wf() ==> final(self).wf(),
    {
        let key = day_start(now_ms);
        let i = self.open_day(key);
        self.vote_at(i, user_id, vote_yes);
    }

    /// The aggregate of the day keyed `date`, if that day was ever asked for.
    pub fn get_day_stats(&self, date: i64) -> (r: Result<Day, StoreError>)
        ensures
            find_day(self@, date) >= 0 ==> r is Ok && r->Ok_0@ == self@[find_day(self@, date)],
            find_day(self@, date) < 0 ==> r == Err::<Day, StoreError>(StoreError::NotFound),
    {
        match self.position(date) {
            Some(i) => {
                assert(self@[i as int] == self.days@[i as int]@);
                Ok(self.days[i].snapshot())
            },
            None => Err(StoreError::NotFound),
        }
    }

    /// How many days have at least one "late" vote.
    pub fn get_total_late_days(&self) -> (r: usize)
        ensures
            r == late_days(self@),
    {
        let ghost p = has_late_vote();
        let mut n: usize = 0;
        let mut i: usize = 0;
        while i < self.days.len()
            invariant
                i <= self.days@.len(),
                p == has_late_vote(),
                n == self@.subrange(0, i as int).filter(p).len(),
                n <= i,
            decreases self.days@.len() - i,
        {
            proof {
                assert(self@.subrange(0, i as int + 1) == self@.subrange(0, i as int).push(
                    self@[i as int],
                ));
                self@.subrange(0, i as int).lemma_filter_push(self@[i as int], p);
            }
            if self.days[i].votes_yes.len() > 0 {
                n = n + 1;
            }
            i = i + 1;
        }
        assert(self@.subrange(0, self.days@.len() as int) == self@);
        n
    }

    /// Brings back a day read from persistent storage: every listed "late"
    /// voter, then every listed "not late" voter, votes in order on that
    /// day, which is created first if missing. Lists that repeat a user, or
    /// name one on both sides, so settle into one vote each, and two stored
    /// copies of one day merge into one aggregate.
    pub fn restore_day(&mut self, date: i64, votes_yes: &Vec<i64>, votes_no: &Vec<i64>)
        ensures
            ({
                let opened = with_day(old(self)@, date);
                let i = find_day(opened, date);
                final(self)@ == opened.update(
                    i,
                    with_votes(with_votes(opened[i], votes_yes@, true), votes_no@, false),
                )
            }),
            old(self).wf() ==> final(self).wf(),
    {
        let i = self.open_day(date);
        let ghost opened = self@;
        let mut k: usize = 0;
        while k < votes_yes.len()
            invariant
                i < opened.len(),
                k <= votes_yes@.len(),
                old(self).wf() ==> self.wf(),
                self@ == opened.update(
                    i as int,
                    with_votes(opened[i as int], votes_yes@.subrange(0, k as int), true),
                ),
            decreases votes_yes@.len() - k,
        {
            assert(votes_yes@.subrange(0, k as int + 1).drop_last() == votes_yes@.subrange(
                0,
                k as int,
            ));
            self.vote_at(i, votes_yes[k], true);
            k = k + 1;
        }
        assert(votes_yes@.subrange(0, votes_yes@.len() as int) == votes_yes@);
        let ghost mid = self@;
        let mut k: usize = 0;
        while k < votes_no.len()
            invariant
                i < opened.len(),
                mid.len() == opened.len(),
                k <= votes_no@.len(),
                old(self).wf() ==> self.wf(),
                self@ == mid.update(
                    i as int,
                    with_votes(mid[i as int], votes_no@.subrange(0, k as int), false),
                ),
            decreases votes_no@.len() - k,
        {
            assert(votes_no@.subrange(0, k as int + 1).drop_last() == votes_no@.subrange(
                0,
                k as int,
            ));
            self.vote_at(i, votes_no[k], false);
            k = k + 1;
        }
        assert(votes_no@.subrange(0, votes_no@.len() as int) == votes_no@);
    }
}

/// Asking for today's aggregate twice within one calendar day gives the same
/// aggregate both times and leaves one aggregate for that day, as after the
/// first request.
pub proof fn lemma_today_created_once(days: Seq<DayTally>, first_ms: int, second_ms: int)
    requires
        day_key(first_ms) == day_key(second_ms),
        i64::MIN <= day_key(first_ms) <= i64::MAX,
    ensures
        ({
            let key = day_key(first_ms) as i64;
            &&& with_day(with_day(days, key), key) == with_day(days, key)
            &&& day_for(with_day(days, key), key) == day_for(days, key)
        }),
{
    let key = day_key(first_ms) as i64;
    lemma_find_day(days, key);
    if find_day(days, key) < 0 {
        assert(days.push(empty_tally(key)).last().date == key);
    }
}

} // verus!
