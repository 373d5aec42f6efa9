use latebot::votes::{day_start, Day, Standing, UserVote, DAY_MILLIS, EARLIEST_MILLIS};

fn sorted(v: &[i64]) -> Vec<i64> {
    let mut v = v.to_vec();
    v.sort();
    v
}

#[test]
fn day_start_truncates_to_utc_midnight() {
    assert_eq!(day_start(0), 0);
    assert_eq!(day_start(86_399_999), 0);
    assert_eq!(day_start(86_400_000), 86_400_000);
    // 2024-03-15T13:45:00Z
    assert_eq!(day_start(1_710_510_300_000), 1_710_460_800_000);
    // Before 1970 the day still starts at the earlier midnight.
    assert_eq!(day_start(-1), -DAY_MILLIS);
    assert_eq!(day_start(-DAY_MILLIS), -DAY_MILLIS);
    assert_eq!(day_start(i64::MIN + DAY_MILLIS), -9_223_372_036_828_800_000);
    assert_eq!(day_start(EARLIEST_MILLIS), EARLIEST_MILLIS);
    assert_eq!(day_start(EARLIEST_MILLIS + 1), EARLIEST_MILLIS);
    assert_eq!(day_start(i64::MAX), 9_223_372_036_828_800_000);
}

#[test]
fn same_day_same_key() {
    let morning = 1_710_460_800_000 + 1;
    let night = 1_710_460_800_000 + DAY_MILLIS - 1;
    assert_eq!(day_start(morning), day_start(night));
    assert_ne!(day_start(night), day_start(night + 1));
}

#[test]
fn new_day_is_empty() {
    let d = Day::new(86_400_000);
    assert_eq!(d.date, 86_400_000);
    assert!(d.votes_yes.is_empty());
    assert!(d.votes_no.is_empty());
    assert_eq!(d.late_count(), 0);
    assert_eq!(d.not_late_count(), 0);
}

#[test]
fn switching_late_to_not_late() {
    let mut d = Day::new(0);
    d.cast_vote(1, true);
    d.cast_vote(1, false);
    assert!(!d.votes_yes.contains(&1));
    assert_eq!(d.votes_no, vec![1]);
}

#[test]
fn switching_not_late_to_late() {
    let mut d = Day::new(0);
    d.cast_vote(1, false);
    d.cast_vote(1, true);
    assert_eq!(d.votes_yes, vec![1]);
    assert!(!d.votes_no.contains(&1));
}

#[test]
fn revote_same_side_is_idempotent() {
    let mut once = Day::new(0);
    once.cast_vote(2, false);
    once.cast_vote(1, true);
    let mut twice = Day::new(0);
    twice.cast_vote(2, false);
    twice.cast_vote(1, true);
    twice.cast_vote(1, true);
    assert_eq!(once.votes_yes, twice.votes_yes);
    assert_eq!(once.votes_no, twice.votes_no);
    assert_eq!(twice.votes_yes, vec![1]);
    assert_eq!(twice.votes_no, vec![2]);
}

#[test]
fn switching_keeps_other_voters_in_order() {
    let mut d = Day::new(0);
    d.cast_vote(1, false);
    d.cast_vote(2, false);
    d.cast_vote(3, false);
    d.cast_vote(4, true);
    d.cast_vote(2, true);
    assert_eq!(d.votes_no, vec![1, 3]);
    assert_eq!(d.votes_yes, vec![4, 2]);
}

#[test]
fn no_voter_on_both_sides() {
    let mut d = Day::new(0);
    let moves = [(1, true), (2, false), (1, false), (3, true), (2, true), (1, true), (3, true)];
    for (u, late) in moves {
        d.cast_vote(u, late);
        for x in &d.votes_yes {
            assert!(!d.votes_no.contains(x));
        }
    }
    assert_eq!(sorted(&d.votes_yes), vec![1, 2, 3]);
    assert!(d.votes_no.is_empty());
}

#[test]
fn vote_of_each_kind() {
    let mut d = Day::new(0);
    d.cast_vote(1, true);
    d.cast_vote(2, false);
    assert_eq!(d.vote_of(1), UserVote::Late);
    assert_eq!(d.vote_of(2), UserVote::NotLate);
    assert_eq!(d.vote_of(3), UserVote::NotVoted);
}

#[test]
fn standing_each_kind() {
    let mut d = Day::new(0);
    assert_eq!(d.standing(), Standing::Tie);
    d.cast_vote(1, true);
    assert_eq!(d.standing(), Standing::LateLeads);
    d.cast_vote(2, false);
    assert_eq!(d.standing(), Standing::Tie);
    d.cast_vote(3, false);
    assert_eq!(d.standing(), Standing::NotLateLeads);
    assert_eq!(d.late_count(), 1);
    assert_eq!(d.not_late_count(), 2);
}

#[test]
fn snapshot_is_an_exact_copy() {
    let mut d = Day::new(5);
    d.cast_vote(9, true);
    d.cast_vote(8, false);
    let s = d.snapshot();
    assert_eq!(s.date, 5);
    assert_eq!(s.votes_yes, vec![9]);
    assert_eq!(s.votes_no, vec![8]);
}
