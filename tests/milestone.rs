use latebot::milestone::{record_vote, should_announce, MILESTONE_INTERVAL};
use latebot::security::{BotSecurityConfig, CheckResult, SecurityManager};
use latebot::store::VoteStore;

const TODAY: i64 = 1_710_460_800_000;

#[test]
fn milestone_examples() {
    assert!(should_announce(5, 123));
    assert!(!should_announce(4, 123));
    assert!(!should_announce(10, 0));
}

#[test]
fn milestone_edges() {
    assert_eq!(MILESTONE_INTERVAL, 5);
    assert!(!should_announce(0, 123));
    assert!(should_announce(10, -1));
    assert!(!should_announce(11, 123));
    assert!(should_announce(usize::MAX - usize::MAX % 5, 1));
}

#[test]
fn five_users_reach_the_first_milestone() {
    let mut store = VoteStore::new();
    for user in 1..=4i64 {
        assert!(!record_vote(&mut store, TODAY + user, user, true, 123));
    }
    assert!(record_vote(&mut store, TODAY + 5, 5, true, 123));
    let day = store.check_today_document(TODAY + 6);
    assert_eq!(day.votes_yes.len(), 5);
    assert!(should_announce(day.late_count(), 123));
}

#[test]
fn not_late_votes_never_announce() {
    let mut store = VoteStore::new();
    for user in 1..=4i64 {
        record_vote(&mut store, TODAY, user, true, 123);
    }
    assert!(!record_vote(&mut store, TODAY, 9, false, 123));
    // Re-voting "late" on a count of four adds nobody.
    assert!(!record_vote(&mut store, TODAY, 4, true, 123));
    assert!(record_vote(&mut store, TODAY, 5, true, 123));
}

#[test]
fn no_announcement_without_a_chat() {
    let mut store = VoteStore::new();
    for user in 1..=5i64 {
        assert!(!record_vote(&mut store, TODAY, user, true, 0));
    }
}

#[test]
fn throttled_second_vote_leaves_the_day_unchanged() {
    let policy = BotSecurityConfig {
        request_limit: 1,
        time_window_seconds: 60,
        ddos_protection_enabled: true,
        whitelist: Vec::new(),
        blacklist: Vec::new(),
    };
    let mut gate = SecurityManager::new(policy);
    let mut store = VoteStore::new();
    let user = 77;

    assert_eq!(gate.check_request_rate(user, 1_000), CheckResult::Pass);
    record_vote(&mut store, TODAY + 1_000, user, true, 123);

    let second = gate.check_request_rate(user, 1_900);
    assert!(matches!(second, CheckResult::Block(_)));
    let day = store.check_today_document(TODAY + 1_900);
    assert_eq!(day.votes_yes, vec![user]);
    assert!(day.votes_no.is_empty());
}
