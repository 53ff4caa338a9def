//! Fixed-window rate limiting per client and bucket.

use std::time::Instant;
use vstd::hash_map::StringHashMap;
use vstd::prelude::*;

use crate::clock::{instant_now, nanos_since};
use crate::config::schema::RateLimitConfig;

verus! {

/// The requests counted for one key in its current window; times are in
/// nanoseconds on the limiter's clock.
#[derive(Clone, Copy)]
pub struct ClientCounter {
    pub window_start: u128,
    pub count: u64,
}

/// What the limiter decided for one request.
#[derive(Clone, Copy)]
pub struct RateLimitDecision {
    pub allowed: bool,
    pub limit: Option<u64>,
    pub remaining: Option<u64>,
    pub reset_after_secs: Option<u64>,
    pub retry_after_secs: Option<u64>,
}

/// Counters keyed by "bucket:client", with the instant that the clock counts from.
pub struct RateLimiter {
    clients: StringHashMap<ClientCounter>,
    epoch: Instant,
}

/// The counters of all keys.
pub type Counters = Map<Seq<char>, ClientCounter>;

/// Nanoseconds per second.
pub open spec fn nanos_per_sec() -> int {
    1_000_000_000
}

/// The window length in nanoseconds.
pub open spec fn window_nanos(c: RateLimitConfig) -> int {
    c.window_seconds * nanos_per_sec()
}

/// Time from `start` to `now`, zero when `now` is earlier.
pub open spec fn elapsed_since(start: u128, now: u128) -> int {
    if now >= start { now - start } else { 0 }
}

/// The key's counter as the request at `now` sees it: a fresh one for an
/// unseen key, restarted at `now` when its window has run out.
pub open spec fn current_counter(m: Counters, key: Seq<char>, c: RateLimitConfig, now: u128) -> ClientCounter {
    let stored = if m.contains_key(key) { m[key] } else { ClientCounter { window_start: now, count: 0 } };
    if elapsed_since(stored.window_start, now) >= window_nanos(c) {
        ClientCounter { window_start: now, count: 0 }
    } else {
        stored
    }
}

/// Whole seconds left in the window that starts at `start`, at least 1.
pub open spec fn reset_after(c: RateLimitConfig, start: u128, now: u128) -> u64 {
    let left = window_nanos(c) - elapsed_since(start, now);
    let secs = if left > 0 { left / nanos_per_sec() } else { 0 };
    if secs < 1 { 1 } else { secs as u64 }
}

/// The decision when no limit applies.
pub open spec fn unlimited_decision() -> RateLimitDecision {
    RateLimitDecision {
        allowed: true,
        limit: None,
        remaining: None,
        reset_after_secs: None,
        retry_after_secs: None,
    }
}

/// One request under `c` for `key` at `now`: the counters after it and the
/// decision. The request is refused when the window already counts `requests`
/// requests; otherwise it is counted.
pub open spec fn limiter_step(m: Counters, key: Seq<char>, c: RateLimitConfig, now: u128) -> (Counters, RateLimitDecision) {
    let cur = current_counter(m, key, c, now);
    let reset = reset_after(c, cur.window_start, now);
    if cur.count >= c.requests {
        (
            m.insert(key, cur),
            RateLimitDecision {
                allowed: false,
                limit: Some(c.requests),
                remaining: Some(0),
                reset_after_secs: Some(reset),
                retry_after_secs: Some(reset),
            },
        )
    } else {
        let next = ClientCounter { window_start: cur.window_start, count: (cur.count + 1) as u64 };
        (
            m.insert(key, next),
            RateLimitDecision {
                allowed: true,
                limit: Some(c.requests),
                remaining: Some((c.requests - next.count) as u64),
                reset_after_secs: Some(reset),
                retry_after_secs: None,
            },
        )
    }
}

/// The key under which a client is counted within a bucket.
pub open spec fn limiter_key(bucket: Seq<char>, client_ip: Seq<char>) -> Seq<char> {
    bucket + ":"@ + client_ip
}

/// How many of the requests at times `nows`, all for `key` under `c`,
/// starting from counters `m`, are allowed.
pub open spec fn allowed_in_run(m: Counters, key: Seq<char>, c: RateLimitConfig, nows: Seq<u128>) -> nat
    decreases nows.len(),
{
    if nows.len() == 0 {
        0
    } else {
        let (m2, d) = limiter_step(m, key, c, nows[0]);
        (if d.allowed { 1nat } else { 0nat }) + allowed_in_run(m2, key, c, nows.drop_first())
    }
}

proof fn lemma_run_within_window(m: Counters, key: Seq<char>, c: RateLimitConfig, nows: Seq<u128>, s: u128)
    requires
        m.contains_key(key),
        m[key].window_start == s,
        window_nanos(c) > 0,
        forall|i: int| 0 <= i < nows.len() ==> #[trigger] nows[i] < s + window_nanos(c),
    ensures
        allowed_in_run(m, key, c, nows) + m[key].count <= (if m[key].count >= c.requests { m[key].count as int } else { c.requests as int }),
    decreases nows.len(),
{
    if nows.len() > 0 {
        let t = nows[0];
        assert(nows[0] < s + window_nanos(c));
        let (m2, d) = limiter_step(m, key, c, t);
        assert(current_counter(m, key, c, t) == m[key]);
        let rest = nows.drop_first();
        assert forall|i: int| 0 <= i < rest.len() implies #[trigger] rest[i] < s + window_nanos(c) by {
            assert(rest[i] == nows[i + 1]);
        }
        lemma_run_within_window(m2, key, c, rest, s);
    }
}

/// Within one window, a client is allowed at most `requests` requests in a
/// bucket: of any requests for one key whose times all fall before the end of
/// the window that the first of them counts in, at most `c.requests` are
/// allowed (for a window of positive length).
pub proof fn law_at_most_limit_per_window(m: Counters, key: Seq<char>, c: RateLimitConfig, nows: Seq<u128>)
    requires
        c.window_seconds > 0,
        nows.len() > 0,
        forall|i: int| 0 <= i < nows.len() ==> #[trigger] nows[i] < current_counter(m, key, c, nows[0]).window_start + window_nanos(c),
    ensures
        allowed_in_run(m, key, c, nows) <= c.requests,
{
    let t0 = nows[0];
    let cur = current_counter(m, key, c, t0);
    let m1 = m.insert(key, cur);
    assert(nows[0] < cur.window_start + window_nanos(c));
    assert(current_counter(m1, key, c, t0) == cur);
    assert(limiter_step(m1, key, c, t0).0 =~= limiter_step(m, key, c, t0).0);
    assert(allowed_in_run(m1, key, c, nows) == allowed_in_run(m, key, c, nows));
    lemma_run_within_window(m1, key, c, nows, cur.window_start);
}

/// Once a key's window has run out, its next request is allowed again (under a
/// positive limit) and opens a new window in which it is the first.
pub proof fn law_window_expiry_restores(m: Counters, key: Seq<char>, c: RateLimitConfig, now: u128)
    requires
        c.requests > 0,
        m.contains_key(key),
        elapsed_since(m[key].window_start, now) >= window_nanos(c),
    ensures
        limiter_step(m, key, c, now).1.allowed,
        limiter_step(m, key, c, now).0[key] == (ClientCounter { window_start: now, count: 1 }),
        limiter_step(m, key, c, now).1.remaining == Some((c.requests - 1) as u64),
{
}

/// A request is counted against its own key only: every other key's counter
/// is left as it was.
pub proof fn law_keys_independent(m: Counters, key: Seq<char>, other: Seq<char>, c: RateLimitConfig, now: u128)
    requires
        other != key,
    ensures
        limiter_step(m, key, c, now).0.contains_key(other) == m.contains_key(other),
        m.contains_key(other) ==> limiter_step(m, key, c, now).0[other] == m[other],
{
}

/// A refused request is not counted and tells the client to retry when the
/// window ends; an allowed one reports how many requests remain, and the
/// count after it never exceeds the limit.
pub proof fn law_decision_consistent(m: Counters, key: Seq<char>, c: RateLimitConfig, now: u128)
    ensures
        ({
            let (m2, d) = limiter_step(m, key, c, now);
            &&& !d.allowed ==> m2[key].count == current_counter(m, key, c, now).count
                && d.retry_after_secs == d.reset_after_secs && d.remaining == Some(0u64)
            &&& d.allowed ==> m2[key].count <= c.requests && d.retry_after_secs is None
                && d.remaining == Some((c.requests - m2[key].count) as u64)
            &&& d.reset_after_secs matches Some(r) && r >= 1
        }),
{
}

impl RateLimiter {
    /// The counters of all keys.
    pub closed spec fn counters(&self) -> Counters {
        self.clients@
    }

    /// A limiter that has counted nothing.
    pub fn new() -> (r: Self)
        ensures
            r.counters() == Map::<Seq<char>, ClientCounter>::empty(),
    {
        RateLimiter { clients: StringHashMap::new(), epoch: instant_now() }
    }

    /// Decides on a request from `client_ip` in `bucket` at `now`
    /// (nanoseconds on the limiter's clock) and counts it.
    pub fn check_at(&mut self, client_ip: &str, bucket: &str, config: Option<&RateLimitConfig>, now: u128) -> (d: RateLimitDecision)
        ensures
            match config {
                None => d == unlimited_decision() && final(self).counters() == old(self).counters(),
                Some(c) => (final(self).counters(), d) == limiter_step(old(self).counters(), limiter_key(bucket@, client_ip@), *c, now),
            },
    {
        let c = match config {
            Some(c) => *c,
            None => {
                return RateLimitDecision {
                    allowed: true,
                    limit: None,
                    remaining: None,
                    reset_after_secs: None,
                    retry_after_secs: None,
                };
            },
        };
        let mut key = String::from_str(bucket);
        key.append(":");
        key.append(client_ip);
        let ghost k = key@;
        assert(k == limiter_key(bucket@, client_ip@));

        let limit = c.requests;
        let window: u128 = (c.window_seconds as u128) * 1_000_000_000u128;

        let stored = match self.clients.get(key.as_str()) {
            Some(counter) => *counter,
            None => ClientCounter { window_start: now, count: 0 },
        };
        let elapsed: u128 = if now >= stored.window_start { now - stored.window_start } else { 0 };
        let mut counter = if elapsed >= window {
            ClientCounter { window_start: now, count: 0 }
        } else {
            stored
        };
        assert(counter == current_counter(old(self).counters(), k, c, now));

        let elapsed: u128 = if now >= counter.window_start { now - counter.window_start } else { 0 };
        let left: u128 = if window > elapsed { window - elapsed } else { 0 };
        let secs: u128 = left / 1_000_000_000u128;
        assert(secs <= c.window_seconds) by (nonlinear_arith)
            requires
                left <= window,
                window == c.window_seconds * 1_000_000_000,
                secs == left / 1_000_000_000,
        ;
        let reset_after_secs: u64 = if secs < 1 { 1 } else { secs as u64 };
        assert(reset_after_secs == reset_after(c, counter.window_start, now));

        if counter.count >= limit {
            self.clients.insert(key, counter);
            return RateLimitDecision {
                allowed: false,
                limit: Some(limit),
                remaining: Some(0),
                reset_after_secs: Some(reset_after_secs),
                retry_after_secs: Some(reset_after_secs),
            };
        }
        counter.count = counter.count + 1;
        let remaining = limit - counter.count;
        self.clients.insert(key, counter);
        RateLimitDecision {
            allowed: true,
            limit: Some(limit),
            remaining: Some(remaining),
            reset_after_secs: Some(reset_after_secs),
            retry_after_secs: None,
        }
    }

    /// Decides on a request from `client_ip` in `bucket` now, and counts it.
    /// Without a limit every request is allowed; with one, the outcome is
    /// that of [`Self::check_at`] at the time the clock reads.
    pub fn check(&mut self, client_ip: &str, bucket: &str, config: Option<&RateLimitConfig>) -> (d: RateLimitDecision)
        ensures
            match config {
                None => d == unlimited_decision() && final(self).counters() == old(self).counters(),
                Some(c) => exists|now: u128|
                    (final(self).counters(), d) == #[trigger] limiter_step(old(self).counters(), limiter_key(bucket@, client_ip@), *c, now),
            },
    {
        if config.is_none() {
            return self.check_at(client_ip, bucket, config, 0);
        }
        let now = nanos_since(&self.epoch);
        self.check_at(client_ip, bucket, config, now)
    }
}

} // verus!
