//! Per-user sliding-window admission control.
//!
//! Time is passed in by the caller as milliseconds on a monotonic clock, so
//! every decision here is a function of the policy, the stored windows, the
//! user and that instant.
use std::collections::HashMap;
use vstd::prelude::*;

use crate::seqs::{lemma_filter_drops, lemma_filter_keeps_all};

verus! {

broadcast use vstd::std_specs::hash::group_hash_axioms;

/// Rate-limiting policy, fixed for the lifetime of a [`SecurityManager`].
#[derive(Clone, Debug)]
pub struct BotSecurityConfig {
    /// Maximum number of requests allowed within the time window.
    pub request_limit: u32,
    /// Width of the sliding window, in seconds.
    pub time_window_seconds: u32,
    /// When false, every request passes.
    pub ddos_protection_enabled: bool,
    /// Users that always pass, whatever their rate.
    pub whitelist: Vec<i64>,
    /// Users that never pass; this wins over the whitelist.
    pub blacklist: Vec<i64>,
}

impl Default for BotSecurityConfig {
    /// Thirty requests a minute, protection on, no listed users.
    fn default() -> (r: Self)
        ensures
            r.request_limit == 30,
            r.time_window_seconds == 60,
            r.ddos_protection_enabled,
            r.whitelist@ == Seq::<i64>::empty(),
            r.blacklist@ == Seq::<i64>::empty(),
    {
        BotSecurityConfig {
            request_limit: 30,
            time_window_seconds: 60,
            ddos_protection_enabled: true,
            whitelist: Vec::new(),
            blacklist: Vec::new(),
        }
    }
}

/// The decision on one request.
#[derive(Clone, Copy, Debug, PartialEq, Eq, Structural)]
pub enum CheckResult {
    /// The request may proceed.
    Pass,
    /// The request is over the limit; retrying after this many milliseconds
    /// may succeed.
    Block(u64),
    /// The user is blacklisted; no retry will succeed.
    Banned,
}

/// Requests seen from one user: the admitted instants still in the window,
/// and when the window was last cleared.
struct UserRequestInfo {
    request_timestamps: Vec<u64>,
    last_reset_time: u64,
}

/// A user's window as plain values: (admitted instants, last reset).
pub type WindowModel = (Seq<u64>, u64);

/// Width of the window in milliseconds.
pub open spec fn window_millis(config: BotSecurityConfig) -> int {
    config.time_window_seconds as int * 1000
}

/// Whether instant `t` still counts at `now`: the window is `(now - window, now]`,
/// so an instant exactly `window` old has expired.
pub open spec fn in_window(now: u64, window: int) -> spec_fn(u64) -> bool {
    |t: u64| t as int > now as int - window
}

/// A user's window brought up to `now`: cleared entirely when the last reset
/// is a full window old, otherwise stripped of expired instants.
pub open spec fn refreshed(w: WindowModel, now: u64, window: int) -> WindowModel {
    if w.1 as int <= now as int - window {
        (Seq::<u64>::empty(), now)
    } else {
        (w.0.filter(in_window(now, window)), w.1)
    }
}

/// How long to wait, counted from `now`, until `oldest` leaves the window;
/// never negative. An instant later than `now` counts as just seen.
pub open spec fn retry_after(oldest: u64, now: u64, window: int) -> int {
    let elapsed: int = if now >= oldest {
        now - oldest
    } else {
        0
    };
    if elapsed >= window {
        0
    } else {
        window - elapsed
    }
}

/// One counted request on a user's window: the decision and the new window.
/// A denied request is not recorded.
pub open spec fn rate_step(limit: int, window: int, w: WindowModel, now: u64) -> (
    CheckResult,
    WindowModel,
) {
    let fresh = refreshed(w, now, window);
    if fresh.0.len() >= limit {
        let wait: int = if fresh.0.len() > 0 {
            retry_after(fresh.0[0], now, window)
        } else {
            window
        };
        (CheckResult::Block(wait as u64), fresh)
    } else {
        (CheckResult::Pass, (fresh.0.push(now), fresh.1))
    }
}

/// The decisions on successive requests arriving at `nows`, in order, and
/// the window after the last of them.
pub open spec fn run_checks(limit: int, window: int, w: WindowModel, nows: Seq<u64>) -> (
    Seq<CheckResult>,
    WindowModel,
)
    decreases nows.len(),
{
    if nows.len() == 0 {
        (Seq::empty(), w)
    } else {
        let before = run_checks(limit, window, w, nows.drop_last());
        let step = rate_step(limit, window, before.1, nows.last());
        (before.0.push(step.0), step.1)
    }
}

/// The window of a user that has not been seen yet.
pub open spec fn first_window(now: u64) -> WindowModel {
    (Seq::<u64>::empty(), now)
}

/// The outcome of `check_request_rate`: the decision and all users' windows
/// afterwards.
pub open spec fn check_outcome(
    config: BotSecurityConfig,
    windows: Map<i64, WindowModel>,
    user_id: i64,
    now: u64,
) -> (CheckResult, Map<i64, WindowModel>) {
    if !config.ddos_protection_enabled {
        (CheckResult::Pass, windows)
    } else if config.blacklist@.contains(user_id) {
        (CheckResult::Banned, windows)
    } else if config.whitelist@.contains(user_id) {
        (CheckResult::Pass, windows)
    } else {
        let w = if windows.contains_key(user_id) {
            windows[user_id]
        } else {
            first_window(now)
        };
        let step = rate_step(config.request_limit as int, window_millis(config), w, now);
        (step.0, windows.insert(user_id, step.1))
    }
}

/// Admission control keyed by user id. Callers that share one manager across
/// concurrent handlers hold it behind a single lock, so that every check on a
/// user's window happens as one step.
pub struct SecurityManager {
    config: BotSecurityConfig,
    request_map: HashMap<i64, UserRequestInfo>,
}

/// Whether `v` holds `x`.
fn list_contains(v: &Vec<i64>, x: i64) -> (r: bool)
    ensures
        r == v@.contains(x),
{
    let mut i: usize = 0;
    while i < v.len()
        invariant
            i <= v.len(),
            forall|j: int| 0 <= j < i ==> v@[j] != x,
        decreases v.len() - i,
    {
        if v[i] == x {
            return true;
        }
        i = i + 1;
    }
    false
}

/// The instants of `ts` that are still in the window at `now`, in order.
fn prune(ts: &Vec<u64>, now: u64, window: u64) -> (r: Vec<u64>)
    ensures
        r@ == ts@.filter(in_window(now, window as int)),
{
    let ghost keep = in_window(now, window as int);
    let mut kept: Vec<u64> = Vec::new();
    let mut i: usize = 0;
    while i < ts.len()
        invariant
            i <= ts.len(),
            keep == in_window(now, window as int),
            kept@ == ts@.subrange(0, i as int).filter(keep),
        decreases ts.len() - i,
    {
        let t = ts[i];
        proof {
            assert(ts@.subrange(0, i as int + 1) == ts@.subrange(0, i as int).push(t));
            ts@.subrange(0, i as int).lemma_filter_push(t, keep);
        }
        if t > now || now - t < window {
            kept.push(t);
        }
        i = i + 1;
    }
    assert(ts@.subrange(0, ts.len() as int) == ts@);
    kept
}

impl SecurityManager {
    /// The policy the manager enforces.
    pub closed spec fn policy(&self) -> BotSecurityConfig {
        self.config
    }

    /// Every user's window, as plain values.
    pub closed spec fn windows(&self) -> Map<i64, WindowModel> {
        self.request_map@.map_values(
            |i: UserRequestInfo| (i.request_timestamps@, i.last_reset_time),
        )
    }

    /// A manager enforcing `config`, with no requests seen yet.
    pub fn new(config: BotSecurityConfig) -> (r: Self)
        ensures
            r.policy() == config,
            r.windows() == Map::<i64, WindowModel>::empty(),
    {
        let r = SecurityManager { config, request_map: HashMap::new() };
        assert(r.windows() == Map::<i64, WindowModel>::empty());
        r
    }

    /// Decides on one request from `user_id` arriving at `now`, in
    /// milliseconds. With protection off every request passes; a blacklisted
    /// user is banned and a whitelisted one passes, neither counted. Anyone
    /// else passes while fewer than `request_limit` of their admitted
    /// requests lie in the trailing window, and the request is then
    /// recorded; otherwise it is blocked, unrecorded, with the time until the
    /// oldest of them expires.
    pub fn check_request_rate(&mut self, user_id: i64, now: u64) -> (r: CheckResult)
        ensures
            final(self).policy() == old(self).policy(),
            (r, final(self).windows()) == check_outcome(
                old(self).policy(),
                old(self).windows(),
                user_id,
                now,
            ),
    {
        if !self.config.ddos_protection_enabled {
            return CheckResult::Pass;
        }
        if list_contains(&self.config.blacklist, user_id) {
            return CheckResult::Banned;
        }
        if list_contains(&self.config.whitelist, user_id) {
            return CheckResult::Pass;
        }
        let ghost old_map = self.request_map@;
        let window: u64 = self.config.time_window_seconds as u64 * 1000;
        let mut info = match self.request_map.remove(&user_id) {
            Some(found) => found,
            None => UserRequestInfo { request_timestamps: Vec::new(), last_reset_time: now },
        };
        let ghost start: WindowModel = (info.request_timestamps@, info.last_reset_time);
        assert(start == (if old(self).windows().contains_key(user_id) {
            old(self).windows()[user_id]
        } else {
            first_window(now)
        })) by {
            assert(old(self).windows() == old_map.map_values(
                |i: UserRequestInfo| (i.request_timestamps@, i.last_reset_time),
            ));
        };
        if now >= info.last_reset_time && now - info.last_reset_time >= window {
            info.request_timestamps.clear();
            info.last_reset_time = now;
        } else {
            info.request_timestamps = prune(&info.request_timestamps, now, window);
        }
        let result = if info.request_timestamps.len() >= self.config.request_limit as usize {
            if info.request_timestamps.len() > 0 {
                let oldest = info.request_timestamps[0];
                let elapsed: u64 = if now >= oldest {
                    now - oldest
                } else {
                    0
                };
                if elapsed >= window {
                    CheckResult::Block(0)
                } else {
                    CheckResult::Block(window - elapsed)
                }
            } else {
                CheckResult::Block(window)
            }
        } else {
            info.request_timestamps.push(now);
            CheckResult::Pass
        };
        self.request_map.insert(user_id, info);
        proof {
            let step = rate_step(
                self.config.request_limit as int,
                window as int,
                start,
                now,
            );
            assert(result == step.0);
            assert(self.windows() == old(self).windows().insert(user_id, step.1));
        }
        result
    }

    /// Whether an event from `user_id` may be handled: true exactly when
    /// `check_request_rate` lets it through.
    pub fn handle_request(&mut self, user_id: i64, now: u64) -> (r: bool)
        ensures
            final(self).policy() == old(self).policy(),
            final(self).windows() == check_outcome(
                old(self).policy(),
                old(self).windows(),
                user_id,
                now,
            ).1,
            r == (check_outcome(old(self).policy(), old(self).windows(), user_id, now).0
                == CheckResult::Pass),
    {
        match self.check_request_rate(user_id, now) {
            CheckResult::Pass => true,
            _ => false,
        }
    }
}

/// A counted window never holds more than `limit` instants: a request is only
/// recorded when fewer are there, and expiry only removes.
pub proof fn lemma_window_stays_within_limit(limit: int, window: int, w: WindowModel, now: u64)
    requires
        w.0.len() <= limit,
    ensures
        rate_step(limit, window, w, now).1.0.len() <= limit,
{
    w.0.lemma_filter_len(in_window(now, window));
}

/// While a user's window is full and its oldest admitted instant (the first,
/// as instants arrive in order) is still inside it, a request is blocked, the
/// window is left as it was, and the wait given is the time until that oldest
/// instant expires.
pub proof fn lemma_full_window_blocks(limit: int, window: int, w: WindowModel, now: u64)
    requires
        limit > 0,
        w.0.len() >= limit,
        forall|i: int, j: int| 0 <= i <= j < w.0.len() ==> w.0[i] <= w.0[j],
        w.1 as int > now as int - window,
        w.0[0] as int > now as int - window,
    ensures
        rate_step(limit, window, w, now) == (
            CheckResult::Block(retry_after(w.0[0], now, window) as u64),
            w,
        ),
{
    assert forall|i: int| 0 <= i < w.0.len() implies #[trigger] in_window(now, window)(w.0[i]) by {
        assert(w.0[0] <= w.0[i]);
    }
    lemma_filter_keeps_all(w.0, in_window(now, window));
}

/// A burst of requests from a user not seen before (or whose window has
/// been cleared), arriving in order and all within one window of the first:
/// exactly the first `limit` are admitted and every later one is blocked, and
/// the window then holds the admitted instants.
pub proof fn lemma_burst_admits_exactly_limit(limit: int, window: int, nows: Seq<u64>)
    requires
        limit >= 0,
        nows.len() > 0,
        forall|i: int, j: int| 0 <= i <= j < nows.len() ==> nows[i] <= nows[j],
        nows.last() - nows[0] < window,
    ensures
        ({
            let r = run_checks(limit, window, first_window(nows[0]), nows);
            &&& r.0.len() == nows.len()
            &&& forall|k: int| 0 <= k < nows.len() ==> (#[trigger] r.0[k] == CheckResult::Pass <==> k < limit)
            &&& r.1 == (nows.subrange(0, if nows.len() < limit { nows.len() as int } else { limit }), nows[0])
        }),
    decreases nows.len(),
{
    let n = nows.len() as int;
    let prefix = nows.drop_last();
    let w0 = first_window(nows[0]);
    let admitted = if n - 1 < limit { n - 1 } else { limit };
    if n == 1 {
        assert(run_checks(limit, window, w0, prefix) == (Seq::<CheckResult>::empty(), w0));
        assert(nows.subrange(0, admitted) == Seq::<u64>::empty());
    } else {
        assert(prefix[0] == nows[0]);
        lemma_burst_admits_exactly_limit(limit, window, prefix);
        assert(prefix.subrange(0, admitted) == nows.subrange(0, admitted));
    }
    let before = run_checks(limit, window, w0, prefix);
    let t = nows.last();
    assert(before.1 == (nows.subrange(0, admitted), nows[0]));
    assert forall|i: int| 0 <= i < before.1.0.len() implies #[trigger] in_window(t, window)(
        before.1.0[i],
    ) by {
        assert(before.1.0[i] == nows[i]);
        assert(nows[0] <= nows[i]);
    }
    lemma_filter_keeps_all(before.1.0, in_window(t, window));
    if n - 1 < limit {
        assert(nows.subrange(0, admitted).push(t) == nows.subrange(0, n));
    }
}

/// Once the oldest instant of a window that holds at most `limit` of them has
/// expired, the next request is admitted and recorded.
pub proof fn lemma_expired_oldest_admits(limit: int, window: int, w: WindowModel, now: u64)
    requires
        0 < w.0.len() <= limit,
        w.0[0] as int <= now as int - window,
    ensures
        rate_step(limit, window, w, now).0 == CheckResult::Pass,
        rate_step(limit, window, w, now).1.0.last() == now,
{
    lemma_filter_drops(w.0, in_window(now, window), 0);
}

/// A blacklisted user is banned on every request while protection is on, and
/// no window changes.
pub proof fn lemma_blacklisted_always_banned(
    config: BotSecurityConfig,
    windows: Map<i64, WindowModel>,
    user_id: i64,
    now: u64,
)
    requires
        config.ddos_protection_enabled,
        config.blacklist@.contains(user_id),
    ensures
        check_outcome(config, windows, user_id, now) == (CheckResult::Banned, windows),
{
}

/// A whitelisted user who is not also blacklisted passes every request,
/// however many, and no window changes.
pub proof fn lemma_whitelisted_always_passes(
    config: BotSecurityConfig,
    windows: Map<i64, WindowModel>,
    user_id: i64,
    now: u64,
)
    requires
        config.whitelist@.contains(user_id),
        !config.blacklist@.contains(user_id),
    ensures
        check_outcome(config, windows, user_id, now) == (CheckResult::Pass, windows),
{
}

/// With protection off every request of every user passes, and no window
/// changes.
pub proof fn lemma_protection_off_passes(
    config: BotSecurityConfig,
    windows: Map<i64, WindowModel>,
    user_id: i64,
    now: u64,
)
    requires
        !config.ddos_protection_enabled,
    ensures
        check_outcome(config, windows, user_id, now) == (CheckResult::Pass, windows),
{
}

} // verus!
