//! Fixed-window rate limiting per client: settings and the per-request decision.
use vstd::prelude::*;

verus! {

/// Rate limiting settings of the HTTP service.
#[derive(Debug, Clone, Copy, PartialEq, Eq, Structural)]
pub struct RateLimitSettings {
    pub enabled: bool,
    pub requests_per_hour: u64,
}

impl Default for RateLimitSettings {
    /// Disabled, 1000 requests per hour.
    fn default() -> (r: RateLimitSettings)
        ensures
            r == (RateLimitSettings { enabled: false, requests_per_hour: 1000 }),
    {
        RateLimitSettings { enabled: false, requests_per_hour: 1000 }
    }
}

/// Router wiring options.
#[derive(Debug, Clone, Copy, PartialEq, Eq, Structural)]
pub struct RouterOptions {
    pub expose_metrics: bool,
    pub rate_limit: RateLimitSettings,
}

impl Default for RouterOptions {
    /// Metrics exposed, rate limiting disabled.
    fn default() -> (r: RouterOptions)
        ensures
            r == (RouterOptions {
                expose_metrics: true,
                rate_limit: RateLimitSettings { enabled: false, requests_per_hour: 1000 },
            }),
    {
        RouterOptions { expose_metrics: true, rate_limit: RateLimitSettings::default() }
    }
}

/// The token budget handed to the process-wide limiter: the hourly request
/// count, capped at `u32::MAX`.
pub fn limiter_tokens(requests_per_hour: u64) -> (r: u32)
    ensures
        r == if requests_per_hour <= u32::MAX {
            requests_per_hour
        } else {
            u32::MAX as u64
        },
{
    if requests_per_hour <= u32::MAX as u64 {
        requests_per_hour as u32
    } else {
        u32::MAX
    }
}

/// Length of a rate limiting window, in seconds.
pub const RATE_WINDOW_SECS: i64 = 3600;

/// Requests counted in the current window of one client.
#[derive(Debug, Clone, Copy, PartialEq, Eq, Structural)]
pub struct RateWindow {
    pub count: u64,
    /// Start of the window, unix seconds.
    pub window_start_unix: i64,
}

/// Outcome for one request.
#[derive(Debug, Clone, Copy, PartialEq, Eq, Structural)]
pub enum RateLimitDecision {
    Deny { limit: u64, reset_ts: i64 },
    Allow { limit: u64, remaining: u64, reset_ts: i64 },
}

/// `i64::saturating_add`.
pub open spec fn sat_add_i64(a: i64, b: i64) -> i64 {
    if a + b > i64::MAX {
        i64::MAX
    } else if a + b < i64::MIN {
        i64::MIN
    } else {
        (a + b) as i64
    }
}

/// The window a request is counted in: a client's first request, or one
/// arriving once the window has elapsed, opens a fresh window at `now`.
pub open spec fn spec_current_window(window: Option<RateWindow>, window_elapsed: bool, now_unix: i64) -> RateWindow {
    match window {
        Some(w) => if window_elapsed {
            RateWindow { count: 0, window_start_unix: now_unix }
        } else {
            w
        },
        None => RateWindow { count: 0, window_start_unix: now_unix },
    }
}

/// The decision and the client's window afterwards: a request beyond `limit`
/// in the window is denied (the count stays); otherwise it is counted and
/// allowed, with the requests left in the window.
pub open spec fn spec_decide(window: Option<RateWindow>, window_elapsed: bool, now_unix: i64, limit: u64) -> (
    RateWindow,
    RateLimitDecision,
) {
    let w = spec_current_window(window, window_elapsed, now_unix);
    let reset_ts = sat_add_i64(w.window_start_unix, RATE_WINDOW_SECS);
    if w.count >= limit {
        (w, RateLimitDecision::Deny { limit, reset_ts })
    } else {
        let count = if w.count == u64::MAX {
            u64::MAX
        } else {
            (w.count + 1) as u64
        };
        (
            RateWindow { count, window_start_unix: w.window_start_unix },
            RateLimitDecision::Allow { limit, remaining: (limit - count) as u64, reset_ts },
        )
    }
}

/// Decides one request of a client. `window` is the client's current window,
/// if any; `window_elapsed` tells whether a full window has passed since it began.
pub fn decide(window: Option<RateWindow>, window_elapsed: bool, now_unix: i64, limit: u64) -> (r: (
    RateWindow,
    RateLimitDecision,
))
    ensures
        r == spec_decide(window, window_elapsed, now_unix, limit),
{
    let w = match window {
        Some(w) => {
            if window_elapsed {
                RateWindow { count: 0, window_start_unix: now_unix }
            } else {
                w
            }
        },
        None => RateWindow { count: 0, window_start_unix: now_unix },
    };
    let reset_ts = if w.window_start_unix > i64::MAX - RATE_WINDOW_SECS {
        i64::MAX
    } else {
        w.window_start_unix + RATE_WINDOW_SECS
    };
    if w.count >= limit {
        (w, RateLimitDecision::Deny { limit, reset_ts })
    } else {
        let count = w.count.saturating_add(1);
        let remaining = limit.saturating_sub(count);
        (
            RateWindow { count, window_start_unix: w.window_start_unix },
            RateLimitDecision::Allow { limit, remaining, reset_ts },
        )
    }
}

/// No window ever counts more than `limit` requests: a window within the
/// limit stays within it after any decision, and a request is allowed
/// exactly when the window it falls in still has room.
pub proof fn lemma_window_never_exceeds_limit(
    window: Option<RateWindow>,
    window_elapsed: bool,
    now_unix: i64,
    limit: u64,
)
    requires
        window matches Some(w) ==> w.count <= limit,
    ensures
        spec_decide(window, window_elapsed, now_unix, limit).0.count <= limit,
        (spec_decide(window, window_elapsed, now_unix, limit).1 is Allow) <==> spec_current_window(
            window,
            window_elapsed,
            now_unix,
        ).count < limit,
{
}

/// An allowed request is counted: the window grows by exactly one.
pub proof fn lemma_allow_counts_one(window: Option<RateWindow>, window_elapsed: bool, now_unix: i64, limit: u64)
    requires
        spec_decide(window, window_elapsed, now_unix, limit).1 is Allow,
    ensures
        spec_decide(window, window_elapsed, now_unix, limit).0.count == spec_current_window(
            window,
            window_elapsed,
            now_unix,
        ).count + 1,
{
}

/// A client's window after `k` requests that all fall in one window opened
/// by the first of them, at `start`, with no window before it (later
/// requests' instants do not matter while the window lasts).
pub open spec fn run_window(start: i64, limit: u64, k: nat) -> Option<RateWindow>
    decreases k,
{
    if k == 0 {
        None
    } else {
        Some(spec_decide(run_window(start, limit, (k - 1) as nat), false, start, limit).0)
    }
}

proof fn lemma_run_window(start: i64, limit: u64, k: nat)
    requires
        k > 0,
    ensures
        run_window(start, limit, k) == Some(
            RateWindow { count: if k < limit { k as u64 } else { limit }, window_start_unix: start },
        ),
    decreases k,
{
    let prev = run_window(start, limit, (k - 1) as nat);
    assert(run_window(start, limit, k) == Some(spec_decide(prev, false, start, limit).0));
    if k > 1 {
        lemma_run_window(start, limit, (k - 1) as nat);
        let c: u64 = if ((k - 1) as nat) < limit { (k - 1) as u64 } else { limit };
        assert(prev == Some(RateWindow { count: c, window_start_unix: start }));
        assert(spec_current_window(prev, false, start) == RateWindow { count: c, window_start_unix: start });
    } else {
        assert(prev == None::<RateWindow>);
    }
}

/// Over a run of requests from one client within one window, opened at
/// `start` by the first request with no window before it: request number
/// `k + 1` (at any instant `now` within the window, or at `start` for the
/// first) is allowed with `limit - (k + 1)` requests left exactly when
/// `k < limit`, and denied otherwise; every answer names the window's reset
/// at `start + 3600`.
pub proof fn lemma_run_of_requests(start: i64, limit: u64, k: nat, now: i64)
    requires
        k == 0 ==> now == start,
    ensures
        spec_decide(run_window(start, limit, k), false, now, limit).1 == if k < limit {
            RateLimitDecision::Allow {
                limit,
                remaining: (limit - (k + 1)) as u64,
                reset_ts: sat_add_i64(start, RATE_WINDOW_SECS),
            }
        } else {
            RateLimitDecision::Deny { limit, reset_ts: sat_add_i64(start, RATE_WINDOW_SECS) }
        },
{
    if k > 0 {
        lemma_run_window(start, limit, k);
    }
}

} // verus!
