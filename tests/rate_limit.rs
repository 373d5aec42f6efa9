use latebot::security::{BotSecurityConfig, CheckResult, SecurityManager};

fn policy(limit: u32, window_seconds: u32) -> BotSecurityConfig {
    BotSecurityConfig {
        request_limit: limit,
        time_window_seconds: window_seconds,
        ddos_protection_enabled: true,
        whitelist: Vec::new(),
        blacklist: Vec::new(),
    }
}

#[test]
fn default_policy_values() {
    let p = BotSecurityConfig::default();
    assert_eq!(p.request_limit, 30);
    assert_eq!(p.time_window_seconds, 60);
    assert!(p.ddos_protection_enabled);
    assert!(p.whitelist.is_empty());
    assert!(p.blacklist.is_empty());
}

#[test]
fn admits_up_to_limit_then_blocks_until_oldest_expires() {
    let mut m = SecurityManager::new(policy(3, 60));
    assert_eq!(m.check_request_rate(7, 1_000), CheckResult::Pass);
    assert_eq!(m.check_request_rate(7, 2_000), CheckResult::Pass);
    assert_eq!(m.check_request_rate(7, 3_000), CheckResult::Pass);
    // Full: the oldest admitted request (at 1 s) expires at 61 s.
    assert_eq!(m.check_request_rate(7, 4_000), CheckResult::Block(57_000));
    assert_eq!(m.check_request_rate(7, 60_999), CheckResult::Block(1));
    // The window was opened at 1 s; a full window later it is cleared whole.
    assert_eq!(m.check_request_rate(7, 61_000), CheckResult::Pass);
    assert_eq!(m.check_request_rate(7, 61_500), CheckResult::Pass);
    assert_eq!(m.check_request_rate(7, 61_600), CheckResult::Pass);
    assert_eq!(m.check_request_rate(7, 61_700), CheckResult::Block(59_300));
}

#[test]
fn blocked_requests_are_not_recorded() {
    let mut m = SecurityManager::new(policy(1, 10));
    assert_eq!(m.check_request_rate(1, 0), CheckResult::Pass);
    for t in 1..20u64 {
        assert_eq!(m.check_request_rate(1, t * 100), CheckResult::Block(10_000 - t * 100));
    }
    // Had the blocked ones counted, this would still be blocked.
    assert_eq!(m.check_request_rate(1, 10_000), CheckResult::Pass);
}

#[test]
fn users_are_counted_separately() {
    let mut m = SecurityManager::new(policy(1, 60));
    assert!(m.handle_request(1, 0));
    assert!(!m.handle_request(1, 10));
    assert!(m.handle_request(2, 10));
    assert!(!m.handle_request(2, 20));
}

#[test]
fn full_reset_after_a_quiet_window() {
    let mut m = SecurityManager::new(policy(2, 1));
    assert!(m.handle_request(5, 0));
    assert!(m.handle_request(5, 500));
    assert!(!m.handle_request(5, 900));
    // The last reset (at 0) is a full window old: everything is cleared.
    assert!(m.handle_request(5, 1_000));
    assert!(m.handle_request(5, 1_001));
    assert_eq!(m.check_request_rate(5, 1_002), CheckResult::Block(998));
}

#[test]
fn blacklisted_user_is_always_banned() {
    let mut p = policy(100, 60);
    p.blacklist = vec![13];
    p.whitelist = vec![13];
    let mut m = SecurityManager::new(p);
    for t in 0..50u64 {
        assert_eq!(m.check_request_rate(13, t), CheckResult::Banned);
        assert!(!m.handle_request(13, t));
    }
    assert_eq!(m.check_request_rate(14, 0), CheckResult::Pass);
}

#[test]
fn whitelisted_user_always_passes() {
    let mut p = policy(1, 60);
    p.whitelist = vec![42];
    let mut m = SecurityManager::new(p);
    for t in 0..1_000u64 {
        assert_eq!(m.check_request_rate(42, t), CheckResult::Pass);
    }
    assert!(m.handle_request(43, 0));
    assert!(!m.handle_request(43, 1));
}

#[test]
fn protection_off_passes_everyone() {
    let mut p = policy(0, 60);
    p.ddos_protection_enabled = false;
    p.blacklist = vec![1];
    let mut m = SecurityManager::new(p);
    for t in 0..100u64 {
        assert_eq!(m.check_request_rate(1, t), CheckResult::Pass);
        assert_eq!(m.check_request_rate(2, t), CheckResult::Pass);
    }
}

#[test]
fn zero_limit_blocks_for_a_whole_window() {
    let mut m = SecurityManager::new(policy(0, 60));
    assert_eq!(m.check_request_rate(3, 5), CheckResult::Block(60_000));
}

#[test]
fn clock_going_back_counts_as_no_time_elapsed() {
    let mut m = SecurityManager::new(policy(1, 60));
    assert!(m.handle_request(9, 10_000));
    assert_eq!(m.check_request_rate(9, 9_000), CheckResult::Block(60_000));
}

#[test]
fn wait_is_measured_from_the_oldest_request() {
    let mut m = SecurityManager::new(policy(2, 10));
    assert!(m.handle_request(4, 5_000));
    assert!(m.handle_request(4, 9_000));
    // Opened at 5 s: at 14 s the window (4 s, 14 s] still holds both.
    assert_eq!(m.check_request_rate(4, 14_000), CheckResult::Block(1_000));
    // At 15 s the reset clears both at once.
    assert!(m.handle_request(4, 15_000));
}

#[test]
fn largest_window_and_clock_values() {
    let mut m = SecurityManager::new(policy(1, u32::MAX));
    assert_eq!(m.check_request_rate(1, 0), CheckResult::Pass);
    assert_eq!(m.check_request_rate(1, 1), CheckResult::Block(u32::MAX as u64 * 1000 - 1));
    assert_eq!(m.check_request_rate(1, u64::MAX), CheckResult::Pass);
}
