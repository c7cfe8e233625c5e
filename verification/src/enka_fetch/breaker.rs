//! The path without proxies: one pacing window for every request, and a
//! circuit breaker that halts the run after too many failures in a row.
use vstd::prelude::*;
use crate::enka_fetch::pool::{
    clamped_threshold, dispatch_time, fault_threshold, one_more, saturating_sum, wait_until,
    MAX_FAULT_THRESHOLD, MIN_FAULT_THRESHOLD, TOO_MANY_REQUESTS,
};
use crate::enka_fetch::{jitter_within, rand_jitter_ms};

verus! {

/// Counts the failures in a row and holds the stop flag of the run.
#[derive(Debug, Clone, Copy, PartialEq, Eq)]
pub struct Breaker {
    pub consecutive_fails: usize,
    /// Set once the breaker has tripped. Never cleared.
    pub stop: bool,
    pub max_consecutive_fails: usize,
    /// Whether a 429 trips the breaker at once.
    pub on_429: bool,
}

impl Breaker {
    /// Whether a failure with this status trips the breaker.
    pub open spec fn tripping(self, status: Option<u16>) -> bool {
        (status == Some(TOO_MANY_REQUESTS) && self.on_429) || one_more(self.consecutive_fails)
            >= self.max_consecutive_fails
    }

    /// The breaker after a fetch ended with this result.
    pub open spec fn recorded(self, ok: bool, status: Option<u16>) -> Breaker {
        if ok {
            Breaker { consecutive_fails: 0, ..self }
        } else {
            Breaker {
                consecutive_fails: one_more(self.consecutive_fails),
                stop: self.stop || self.tripping(status),
                ..self
            }
        }
    }

    /// A breaker that has seen nothing. The threshold is brought into
    /// `[1, 200]`.
    pub fn new(max_consecutive_fails: usize, on_429: bool) -> (r: Breaker)
        ensures
            r == (Breaker {
                consecutive_fails: 0,
                stop: false,
                max_consecutive_fails: clamped_threshold(max_consecutive_fails),
                on_429,
            }),
            MIN_FAULT_THRESHOLD <= r.max_consecutive_fails <= MAX_FAULT_THRESHOLD,
    {
        Breaker {
            consecutive_fails: 0,
            stop: false,
            max_consecutive_fails: fault_threshold(max_consecutive_fails),
            on_429,
        }
    }

    /// Accounts for a fetch that ended with this result.
    pub fn record(&mut self, ok: bool, status: Option<u16>)
        ensures
            *final(self) == old(self).recorded(ok, status),
            old(self).stop ==> final(self).stop,
    {
        if ok {
            self.consecutive_fails = 0;
        } else {
            if self.consecutive_fails < usize::MAX {
                self.consecutive_fails = self.consecutive_fails + 1;
            }
            let rate_limited = match status {
                Some(code) => code == TOO_MANY_REQUESTS,
                None => false,
            };
            if rate_limited && self.on_429 {
                self.stop = true;
            } else if self.consecutive_fails >= self.max_consecutive_fails {
                self.stop = true;
            }
        }
    }
}

/// A 429 trips a breaker that is set to trip on it, whatever it has seen
/// before, and so on the first request of a run.
pub proof fn lemma_rate_limit_trips(breaker: Breaker)
    requires
        breaker.on_429,
    ensures
        breaker.recorded(false, Some(TOO_MANY_REQUESTS)).stop,
{
}

/// The failure that brings the count to the threshold trips the breaker,
/// and a tripped breaker stays so.
pub proof fn lemma_threshold_trips(breaker: Breaker, ok: bool, status: Option<u16>)
    ensures
        !ok && breaker.consecutive_fails + 1 >= breaker.max_consecutive_fails ==> breaker.recorded(
            ok,
            status,
        ).stop,
        breaker.stop ==> breaker.recorded(ok, status).stop,
{
}

/// The one pacing window of the path without proxies.
#[derive(Debug, Clone, Copy, PartialEq, Eq)]
pub struct DirectPace {
    /// When the next request may go out, in milliseconds on the run's
    /// clock.
    pub next_at: u64,
    pub delay_ms: u64,
    pub jitter_ms: u64,
}

/// The base delay of the path without proxies: the larger of its own delay
/// and the delay per proxy.
pub open spec fn direct_delay(no_proxy_delay_ms: u64, delay_ms: u64) -> u64 {
    if no_proxy_delay_ms > delay_ms {
        no_proxy_delay_ms
    } else {
        delay_ms
    }
}

impl DirectPace {
    /// The window after a request was reserved at `now`: it moves to
    /// `now` plus the base delay and the slack.
    pub open spec fn reserved(self, now: u64, jitter_ms: u64) -> DirectPace {
        DirectPace {
            next_at: saturating_sum(now, saturating_sum(self.delay_ms, jitter_ms)),
            ..self
        }
    }

    /// A window that is open from `now`.
    pub fn new(now: u64, no_proxy_delay_ms: u64, delay_ms: u64, jitter_ms: u64) -> (r: DirectPace)
        ensures
            r == (DirectPace {
                next_at: now,
                delay_ms: direct_delay(no_proxy_delay_ms, delay_ms),
                jitter_ms,
            }),
    {
        DirectPace {
            next_at: now,
            delay_ms: if no_proxy_delay_ms > delay_ms {
                no_proxy_delay_ms
            } else {
                delay_ms
            },
            jitter_ms,
        }
    }

    /// Reserves the next request at `now`, with the slack `jitter_ms`
    /// added to the base delay for the window after it, and returns how
    /// long the request has to wait.
    pub fn reserve(&mut self, now: u64, jitter_ms: u64) -> (wait_ms: u64)
        ensures
            wait_ms == wait_until(old(self).next_at, now),
            *final(self) == old(self).reserved(now, jitter_ms),
    {
        let interval = self.delay_ms.saturating_add(jitter_ms);
        let wait_ms = self.next_at.saturating_sub(now);
        self.next_at = now.saturating_add(interval);
        wait_ms
    }

    /// Reserves the next request at `now` with a slack drawn at random.
    /// Returns the wait and the slack.
    pub fn pace(&mut self, now: u64) -> (r: (u64, u64))
        ensures
            r.0 == wait_until(old(self).next_at, now),
            jitter_within(r.1, old(self).jitter_ms),
            *final(self) == old(self).reserved(now, r.1),
    {
        let jitter_ms = rand_jitter_ms(self.jitter_ms);
        let wait_ms = self.reserve(now, jitter_ms);
        (wait_ms, jitter_ms)
    }
}

/// Two requests reserved one after the other over the direct path go out
/// at least the base delay apart. This is stated for a first request that
/// waited no longer than its own slack, or a second one reserved a base
/// delay or more after the first went out; and the clock must reach a base
/// delay beyond the first request.
pub proof fn lemma_direct_spacing(pace: DirectPace, now1: u64, jitter1: u64, now2: u64)
    requires
        now1 <= now2,
        dispatch_time(pace.next_at, now1) + pace.delay_ms <= u64::MAX,
        wait_until(pace.next_at, now1) <= jitter1 || now2 >= dispatch_time(pace.next_at, now1)
            + pace.delay_ms,
    ensures
        dispatch_time(pace.reserved(now1, jitter1).next_at, now2) >= dispatch_time(
            pace.next_at,
            now1,
        ) + pace.delay_ms,
{
}

} // verus!
