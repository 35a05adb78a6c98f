//! Per-client request counting in one-second windows.
use vstd::prelude::*;
use dashmap::DashMap;
use crate::clock::{instant_now, nanos_since};
use crate::config::{NANOS_PER_SEC, RATE_LIMIT_PER_CLIENT};

verus! {

/// A client's window: when it started (nanoseconds since the limiter was made) and how many
/// requests it has counted.
pub type RateWindow = (u64, u32);

/// Whole seconds from `then` to `now`; zero when `then` is later.
pub open spec fn elapsed_secs(now: u64, then: u64) -> nat {
    if now >= then {
        ((now - then) / (NANOS_PER_SEC as int)) as nat
    } else {
        0
    }
}

/// Whether a request at `now` is let through, given the client's window.
pub open spec fn rate_allows(window: Option<RateWindow>, now: u64) -> bool {
    match window {
        None => true,
        Some((started, count)) => elapsed_secs(now, started) >= 1 || count < RATE_LIMIT_PER_CLIENT,
    }
}

/// The client's window after a request at `now`.
pub open spec fn rate_next(window: Option<RateWindow>, now: u64) -> RateWindow {
    match window {
        None => (now, 1u32),
        Some((started, count)) => if elapsed_secs(now, started) >= 1 {
            (now, 1u32)
        } else if count < RATE_LIMIT_PER_CLIENT {
            (started, (count + 1) as u32)
        } else {
            (started, count)
        },
    }
}

/// A window is kept by `cleanup` while it started less than a minute before `now`.
pub open spec fn window_recent(window: RateWindow, now: u64) -> bool {
    elapsed_secs(now, window.0) < 60
}

/// The windows that `cleanup` keeps at `now`.
pub open spec fn recent_windows(windows: Map<Seq<char>, RateWindow>, now: u64) -> Map<Seq<char>, RateWindow> {
    windows.filter_keys(|k: Seq<char>| window_recent(windows[k], now))
}

/// What the limiter's map holds: client id to window.
pub uninterp spec fn rate_entries(map: DashMap<String, RateWindow>) -> Map<Seq<char>, RateWindow>;

/// `DashMap::new`: empty.
#[verifier::external_body]
fn new_rate_map() -> (map: DashMap<String, RateWindow>)
    ensures
        rate_entries(map) =~= Map::empty(),
{
    DashMap::new()
}

/// `DashMap::get`, the window copied out of the guard.
#[verifier::external_body]
fn rate_map_get(map: &DashMap<String, RateWindow>, key: &str) -> (window: Option<RateWindow>)
    ensures
        window == rate_entries(*map).get(key@),
{
    map.get(key).map(|entry| *entry.value())
}

/// `DashMap::insert`: the key now maps to the window, all else is kept.
#[verifier::external_body]
fn rate_map_insert(map: &mut DashMap<String, RateWindow>, key: String, window: RateWindow)
    ensures
        rate_entries(*final(map)) == rate_entries(*old(map)).insert(key@, window),
{
    map.insert(key, window);
}

/// `DashMap::retain` with `window_is_recent` as the predicate: exactly the recent windows stay.
#[verifier::external_body]
fn rate_map_retain_recent(map: &mut DashMap<String, RateWindow>, now: u64)
    ensures
        rate_entries(*final(map)) == recent_windows(rate_entries(*old(map)), now),
{
    map.retain(|_, window| window_is_recent(*window, now));
}

/// Whether `window` is recent at `now`.
pub fn window_is_recent(window: RateWindow, now: u64) -> (recent: bool)
    ensures
        recent == window_recent(window, now),
{
    let elapsed: u64 = if now >= window.0 {
        now - window.0
    } else {
        0
    };
    elapsed / NANOS_PER_SEC < 60
}

/// Per-client rate limiter tracking requests in the current second.
pub struct RateLimiter {
    origin: std::time::Instant,
    clients: DashMap<String, RateWindow>,
}

impl RateLimiter {
    /// The windows, keyed by client id.
    pub closed spec fn windows(&self) -> Map<Seq<char>, RateWindow> {
        rate_entries(self.clients)
    }

    /// A limiter that has seen no client.
    pub fn new() -> (limiter: Self)
        ensures
            limiter.windows() =~= Map::empty(),
    {
        RateLimiter { origin: instant_now(), clients: new_rate_map() }
    }

    /// Check if a client has exceeded the rate limit, at `now` (nanoseconds since the limiter
    /// was made).  Returns true if the request should be allowed, false if rate-limited.
    pub fn check_and_update_at(&mut self, client_id: &str, now: u64) -> (allowed: bool)
        ensures
            allowed == rate_allows(old(self).windows().get(client_id@), now),
            final(self).windows() == old(self).windows().insert(
                client_id@,
                rate_next(old(self).windows().get(client_id@), now),
            ),
    {
        let key = crate::text::slice(client_id, 0, client_id.unicode_len());
        assert(key@ =~= client_id@);
        match rate_map_get(&self.clients, client_id) {
            Some((started, count)) => {
                let elapsed: u64 = if now >= started {
                    now - started
                } else {
                    0
                };
                if elapsed / NANOS_PER_SEC >= 1 {
                    rate_map_insert(&mut self.clients, key, (now, 1));
                    true
                } else if count < RATE_LIMIT_PER_CLIENT {
                    rate_map_insert(&mut self.clients, key, (started, count + 1));
                    true
                } else {
                    rate_map_insert(&mut self.clients, key, (started, count));
                    false
                }
            },
            None => {
                rate_map_insert(&mut self.clients, key, (now, 1));
                true
            },
        }
    }

    /// Check if a client has exceeded the rate limit, at the current time.
    /// Returns true if the request should be allowed, false if rate-limited.
    pub fn check_and_update(&mut self, client_id: &str) -> (allowed: bool)
        ensures
            exists|now: u64|
                allowed == rate_allows(old(self).windows().get(client_id@), now)
                    && final(self).windows() == old(self).windows().insert(
                    client_id@,
                    rate_next(old(self).windows().get(client_id@), now),
                ),
    {
        let now = nanos_since(&self.origin);
        self.check_and_update_at(client_id, now)
    }

    /// Record a window for a client directly (its start, in nanoseconds since the limiter was
    /// made, and its count).
    pub fn set_window(&mut self, client_id: &str, started: u64, count: u32)
        ensures
            final(self).windows() == old(self).windows().insert(client_id@, (started, count)),
    {
        let key = crate::text::slice(client_id, 0, client_id.unicode_len());
        assert(key@ =~= client_id@);
        rate_map_insert(&mut self.clients, key, (started, count));
    }

    /// Nanoseconds since the limiter was made, on the monotonic clock.
    pub fn now(&self) -> u64 {
        nanos_since(&self.origin)
    }

    /// Drop the windows that started a minute or more before `now`.
    pub fn cleanup_at(&mut self, now: u64)
        ensures
            final(self).windows() == recent_windows(old(self).windows(), now),
    {
        rate_map_retain_recent(&mut self.clients, now);
    }

    /// Clean up old entries (optional, call periodically).
    pub fn cleanup(&mut self)
        ensures
            exists|now: u64| final(self).windows() == #[trigger] recent_windows(old(self).windows(), now),
    {
        let now = nanos_since(&self.origin);
        self.cleanup_at(now);
    }
}

/// The window of a client that sends `k` requests at the same moment, starting from `window`.
pub open spec fn rate_run(window: Option<RateWindow>, now: u64, k: nat) -> Option<RateWindow>
    decreases k,
{
    if k == 0 {
        window
    } else {
        Some(rate_next(rate_run(window, now, (k - 1) as nat), now))
    }
}

/// Within one second a new client gets exactly `RATE_LIMIT_PER_CLIENT` requests through: each
/// of the first `RATE_LIMIT_PER_CLIENT` is allowed, and the next one is refused.
pub proof fn law_limit_per_window(now: u64, k: nat)
    requires
        k <= RATE_LIMIT_PER_CLIENT,
    ensures
        k > 0 ==> rate_run(None, now, k) == Some((now, k as u32)),
        k < RATE_LIMIT_PER_CLIENT ==> rate_allows(rate_run(None, now, k), now),
        k == RATE_LIMIT_PER_CLIENT ==> !rate_allows(rate_run(None, now, k), now),
    decreases k,
{
    assert(elapsed_secs(now, now) == 0);
    if k == 1 {
        assert(rate_run(None, now, 0) == None::<RateWindow>);
        assert(rate_run(None, now, 1) == Some(rate_next(rate_run(None, now, 0), now)));
    } else if k > 1 {
        law_limit_per_window(now, (k - 1) as nat);
        assert(rate_run(None, now, k) == Some(rate_next(rate_run(None, now, (k - 1) as nat), now)));
    }
}

/// Once a second or more has passed since a window started, the next request is allowed and
/// opens a fresh window.
pub proof fn law_window_resets(started: u64, count: u32, now: u64)
    requires
        elapsed_secs(now, started) >= 1,
    ensures
        rate_allows(Some((started, count)), now),
        rate_next(Some((started, count)), now) == (now, 1u32),
{
}

} // verus!
