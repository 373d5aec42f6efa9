//! The per-day vote aggregate and the store that keeps one per calendar day.
//!
//! Each user holds at most one effective vote a day, "late" or "not late",
//! and may switch sides; there is no way back to not having voted.
use vstd::prelude::*;

use crate::seqs::{lemma_filter_keeps_all, lemma_filter_member, lemma_filter_no_duplicates};

verus! {

/// Milliseconds in a day; day keys are midnight UTC in milliseconds since the
/// Unix epoch.
pub const DAY_MILLIS: i64 = 86_400_000;

/// The earliest instant whose day key fits in an `i64`: itself the start of
/// a day, as every earlier instant's day starts before `i64::MIN`.
pub const EARLIEST_MILLIS: i64 = -9_223_372_036_828_800_000;

/// The start of the UTC day that holds `now_ms` (floored, also before 1970).
pub open spec fn day_key(now_ms: int) -> int {
    now_ms - now_ms % (DAY_MILLIS as int)
}

/// From `EARLIEST_MILLIS` on, day keys are no earlier than it.
proof fn lemma_day_key_from_earliest(now_ms: int)
    requires
        now_ms >= EARLIEST_MILLIS,
    ensures
        EARLIEST_MILLIS <= day_key(now_ms) <= now_ms,
{
    let d = DAY_MILLIS as int;
    let y = now_ms - EARLIEST_MILLIS;
    assert(now_ms == d * (-106_751_991_167) + y);
    vstd::arithmetic::div_mod::lemma_mod_multiples_vanish(-106_751_991_167, y, d);
    assert(y % d <= y) by {
        vstd::arithmetic::div_mod::lemma_mod_decreases(y as nat, d as nat);
    }
}

/// Key of the calendar day (UTC) that holds `now_ms`.
pub fn day_start(now_ms: i64) -> (r: i64)
    requires
        now_ms >= EARLIEST_MILLIS,
    ensures
        r == day_key(now_ms as int),
{
    proof {
        lemma_day_key_from_earliest(now_ms as int);
    }
    let rem = now_ms % DAY_MILLIS;
    if rem < 0 {
        now_ms - rem - DAY_MILLIS
    } else {
        now_ms - rem
    }
}

/// A day's aggregate as plain values.
pub struct DayTally {
    pub date: i64,
    pub late: Seq<i64>,
    pub not_late: Seq<i64>,
}

/// The aggregate of a day nobody has voted on yet.
pub open spec fn empty_tally(date: i64) -> DayTally {
    DayTally { date, late: Seq::empty(), not_late: Seq::empty() }
}

/// Each voter listed once, and on one side only.
pub open spec fn tally_wf(t: DayTally) -> bool {
    &&& t.late.no_duplicates()
    &&& t.not_late.no_duplicates()
    &&& t.late.disjoint(t.not_late)
}

/// Everyone but `user_id`.
pub open spec fn other_than(user_id: i64) -> spec_fn(i64) -> bool {
    |x: i64| x != user_id
}

/// `voters` with `user_id` added at the end unless already there.
pub open spec fn with_voter(voters: Seq<i64>, user_id: i64) -> Seq<i64> {
    if voters.contains(user_id) {
        voters
    } else {
        voters.push(user_id)
    }
}

/// `voters` with every occurrence of `user_id` taken out.
pub open spec fn without_voter(voters: Seq<i64>, user_id: i64) -> Seq<i64> {
    voters.filter(other_than(user_id))
}

/// A voter added to a side is on it.
proof fn lemma_with_voter_contains(voters: Seq<i64>, user_id: i64)
    ensures
        with_voter(voters, user_id).contains(user_id),
{
    if !voters.contains(user_id) {
        assert(voters.push(user_id)[voters.len() as int] == user_id);
    }
}

/// The aggregate after `user_id` votes: added to the chosen side and taken
/// off the other, in one step.
pub open spec fn with_vote(t: DayTally, user_id: i64, late: bool) -> DayTally {
    if late {
        DayTally {
            date: t.date,
            late: with_voter(t.late, user_id),
            not_late: without_voter(t.not_late, user_id),
        }
    } else {
        DayTally {
            date: t.date,
            late: without_voter(t.late, user_id),
            not_late: with_voter(t.not_late, user_id),
        }
    }
}

/// The aggregate after each of `users`, in order, votes for `late`.
pub open spec fn with_votes(t: DayTally, users: Seq<i64>, late: bool) -> DayTally
    decreases users.len(),
{
    if users.len() == 0 {
        t
    } else {
        with_vote(with_votes(t, users.drop_last(), late), users.last(), late)
    }
}

/// One calendar day's votes.
#[derive(Debug)]
pub struct Day {
    /// Start of the day, in milliseconds since the Unix epoch (UTC).
    pub date: i64,
    /// Users who currently say the person was late.
    pub votes_yes: Vec<i64>,
    /// Users who currently say the person was on time.
    pub votes_no: Vec<i64>,
}

impl View for Day {
    type V = DayTally;

    open spec fn view(&self) -> DayTally {
        DayTally { date: self.date, late: self.votes_yes@, not_late: self.votes_no@ }
    }
}

/// What a user has voted on a day.
#[derive(Clone, Copy, Debug, PartialEq, Eq, Structural)]
pub enum UserVote {
    Late,
    NotLate,
    NotVoted,
}

/// Which side is ahead on a day.
#[derive(Clone, Copy, Debug, PartialEq, Eq, Structural)]
pub enum Standing {
    LateLeads,
    NotLateLeads,
    Tie,
}

/// `v` without `user_id`, order kept.
fn without(v: &Vec<i64>, user_id: i64) -> (r: Vec<i64>)
    ensures
        r@ == without_voter(v@, user_id),
{
    let ghost keep = other_than(user_id);
    let mut kept: Vec<i64> = Vec::new();
    let mut i: usize = 0;
    while i < v.len()
        invariant
            i <= v.len(),
            keep == other_than(user_id),
            kept@ == v@.subrange(0, i as int).filter(keep),
        decreases v.len() - i,
    {
        let x = v[i];
        proof {
            assert(v@.subrange(0, i as int + 1) == v@.subrange(0, i as int).push(x));
            v@.subrange(0, i as int).lemma_filter_push(x, keep);
        }
        if x != user_id {
            kept.push(x);
        }
        i = i + 1;
    }
    assert(v@.subrange(0, v.len() as int) == v@);
    kept
}

/// Whether `v` holds `x`.
fn holds(v: &Vec<i64>, x: i64) -> (r: bool)
    ensures
        r == v@.contains(x),
{
    let mut i: usize = 0;
    while i < v.len()
        invariant
            i <= v.len(),
            forall|j: int| 0 <= j < i ==> v@[j] != x,
        decreases v.len() - i,
    {
        if v[i] == x {
            return true;
        }
        i = i + 1;
    }
    false
}

/// A copy of `v`.
fn copy_ids(v: &Vec<i64>) -> (r: Vec<i64>)
    ensures
        r@ == v@,
{
    let mut r: Vec<i64> = Vec::new();
    let mut i: usize = 0;
    while i < v.len()
        invariant
            i <= v.len(),
            r@ == v@.subrange(0, i as int),
        decreases v.len() - i,
    {
        r.push(v[i]);
        i = i + 1;
    }
    r
}

/// A vote keeps each voter listed once and on one side only.
pub proof fn lemma_vote_keeps_exclusive(t: DayTally, user_id: i64, late: bool)
    requires
        tally_wf(t),
    ensures
        tally_wf(with_vote(t, user_id, late)),
{
    let n = with_vote(t, user_id, late);
    lemma_filter_no_duplicates(t.late, other_than(user_id));
    lemma_filter_no_duplicates(t.not_late, other_than(user_id));
    assert forall|x: i64| n.late.contains(x) implies !n.not_late.contains(x) by {
        lemma_filter_member(t.late, other_than(user_id), x);
        lemma_filter_member(t.not_late, other_than(user_id), x);
        if !t.late.contains(x) && !t.not_late.contains(x) {
            assert(x == user_id);
        }
    }
    assert(n.late.disjoint(n.not_late)) by {
        assert forall|i: int, j: int|
            0 <= i < n.late.len() && 0 <= j < n.not_late.len() implies n.late[i]
            != n.not_late[j] by {
            assert(n.late.contains(n.late[i]));
            assert(n.not_late.contains(n.not_late[j]));
        }
    }
}

impl Day {
    /// Each voter listed once, and on one side only.
    pub open spec fn wf(&self) -> bool {
        tally_wf(self@)
    }

    /// A day with no votes.
    pub fn new(date: i64) -> (r: Day)
        ensures
            r@ == empty_tally(date),
            r.wf(),
    {
        Day { date, votes_yes: Vec::new(), votes_no: Vec::new() }
    }

    /// An exact copy of this day.
    pub fn snapshot(&self) -> (r: Day)
        ensures
            r@ == self@,
    {
        Day { date: self.date, votes_yes: copy_ids(&self.votes_yes), votes_no: copy_ids(&self.votes_no) }
    }

    /// Records that `user_id` says the person was late (`vote_yes`) or was
    /// not: the user joins that side, unless already there, and leaves the
    /// other. Voting the same side again changes nothing.
    pub fn cast_vote(&mut self, user_id: i64, vote_yes: bool)
        ensures
            final(self)@ == with_vote(old(self)@, user_id, vote_yes),
            old(self).wf() ==> final(self).wf(),
    {
        proof {
            if self.wf() {
                lemma_vote_keeps_exclusive(self@, user_id, vote_yes);
            }
        }
        if vote_yes {
            if !holds(&self.votes_yes, user_id) {
                self.votes_yes.push(user_id);
            }
            self.votes_no = without(&self.votes_no, user_id);
        } else {
            if !holds(&self.votes_no, user_id) {
                self.votes_no.push(user_id);
            }
            self.votes_yes = without(&self.votes_yes, user_id);
        }
    }

    /// Number of users who say the person was late.
    pub fn late_count(&self) -> (r: usize)
        ensures
            r == self@.late.len(),
    {
        self.votes_yes.len()
    }

    /// Number of users who say the person was on time.
    pub fn not_late_count(&self) -> (r: usize)
        ensures
            r == self@.not_late.len(),
    {
        self.votes_no.len()
    }

    /// How `user_id` has voted on this day; a "late" vote is looked for first.
    pub fn vote_of(&self, user_id: i64) -> (r: UserVote)
        ensures
            r == (if self@.late.contains(user_id) {
                UserVote::Late
            } else if self@.not_late.contains(user_id) {
                UserVote::NotLate
            } else {
                UserVote::NotVoted
            }),
    {
        if holds(&self.votes_yes, user_id) {
            UserVote::Late
        } else if holds(&self.votes_no, user_id) {
            UserVote::NotLate
        } else {
            UserVote::NotVoted
        }
    }

    /// Which side has more votes.
    pub fn standing(&self) -> (r: Standing)
        ensures
            r == (if self@.late.len() > self@.not_late.len() {
                Standing::LateLeads
            } else if self@.not_late.len() > self@.late.len() {
                Standing::NotLateLeads
            } else {
                Standing::Tie
            }),
    {
        let yes = self.votes_yes.len();
        let no = self.votes_no.len();
        if yes > no {
            Standing::LateLeads
        } else if no > yes {
            Standing::NotLateLeads
        } else {
            Standing::Tie
        }
    }
}

/// Voting "late" and then "not late" leaves the user on the "not late" side
/// only, and the other way round; either way each voter stays on one side.
pub proof fn lemma_switching_sides(t: DayTally, user_id: i64, first: bool)
    requires
        tally_wf(t),
    ensures
        ({
            let after = with_vote(with_vote(t, user_id, first), user_id, !first);
            &&& tally_wf(after)
            &&& first ==> !after.late.contains(user_id) && after.not_late.contains(user_id)
            &&& !first ==> after.late.contains(user_id) && !after.not_late.contains(user_id)
        }),
{
    let mid = with_vote(t, user_id, first);
    lemma_vote_keeps_exclusive(t, user_id, first);
    lemma_vote_keeps_exclusive(mid, user_id, !first);
    lemma_filter_member(mid.late, other_than(user_id), user_id);
    lemma_filter_member(mid.not_late, other_than(user_id), user_id);
    lemma_with_voter_contains(mid.late, user_id);
    lemma_with_voter_contains(mid.not_late, user_id);
}

/// Voting the same side twice in a row gives the same aggregate as voting
/// it once.
pub proof fn lemma_vote_idempotent(t: DayTally, user_id: i64, late: bool)
    ensures
        with_vote(with_vote(t, user_id, late), user_id, late) == with_vote(t, user_id, late),
{
    let once = with_vote(t, user_id, late);
    let side = if late {
        t.late
    } else {
        t.not_late
    };
    let other = if late {
        t.not_late
    } else {
        t.late
    };
    lemma_with_voter_contains(side, user_id);
    let pruned = without_voter(other, user_id);
    assert forall|i: int| 0 <= i < pruned.len() implies #[trigger] other_than(user_id)(
        pruned[i],
    ) by {
        broadcast use vstd::seq_lib::group_filter_ensures;

    }
    lemma_filter_keeps_all(pruned, other_than(user_id));
}

} // verus!
