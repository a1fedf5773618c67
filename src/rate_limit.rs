//! Admission control in front of the upstream transport: no more than
//! `limit` calls are admitted in each window of `period` milliseconds.
//!
//! The limiter is a state machine. The caller reads the clock and asks the
//! inner transport whether it is ready; the limiter decides whether the call
//! is admitted and, if not, until when it must wait.

use vstd::prelude::*;

verus! {

/// A rate: `limit` admissions per `period` milliseconds.
#[derive(Clone, Copy, Debug)]
pub struct Rate {
    pub limit: u64,
    pub period: u64,
}

/// Builds rate limiters that share one rate.
#[derive(Clone, Copy, Debug)]
pub struct RateLimitLayer {
    pub rate: Rate,
}

impl RateLimitLayer {
    /// A layer admitting `limit` calls per `period` milliseconds.
    pub fn new(limit: u64, period: u64) -> (r: Self)
        ensures
            r.rate.limit == limit,
            r.rate.period == period,
    {
        let rate = Rate { limit, period };
        RateLimitLayer { rate }
    }

    /// A limiter with this layer's rate whose first window opens at `now`.
    pub fn layer(&self, now: u64) -> (r: RateLimit)
        ensures
            r.rate == self.rate,
            r.state == opened(self.rate, now),
            r.wf(),
    {
        RateLimit::new(self.rate, now)
    }
}

/// The state of a limiter: the end of the current window and the number of
/// calls admitted in it.
#[derive(Clone, Copy, Debug, PartialEq, Eq)]
pub struct WindowState {
    pub window_end: u64,
    pub reserved: u64,
}

/// What a readiness check answers.
#[derive(Clone, Copy, Debug, PartialEq, Eq)]
pub enum Readiness {
    /// The window has an admission left: once the inner transport is ready,
    /// the call is admitted with `charge`.
    Available,
    /// The window's admissions are used up; check again at `until`, without
    /// asking the inner transport.
    Exhausted { until: u64 },
}

/// `a + b`, or the largest `u64` when that does not fit.
pub open spec fn sat_add(a: u64, b: u64) -> u64 {
    if a + b > u64::MAX {
        u64::MAX
    } else {
        (a + b) as u64
    }
}

/// A fresh window that opens at `now`.
pub open spec fn opened(rate: Rate, now: u64) -> WindowState {
    WindowState { window_end: sat_add(now, rate.period), reserved: 0 }
}

/// The state after the check for an expired window at time `now`.
pub open spec fn refreshed(rate: Rate, s: WindowState, now: u64) -> WindowState {
    if now >= s.window_end {
        opened(rate, now)
    } else {
        s
    }
}

/// Whether a readiness check at `now` admits the call.
pub open spec fn admits(rate: Rate, s: WindowState, now: u64, inner_ready: bool) -> bool {
    refreshed(rate, s, now).reserved < rate.limit && inner_ready
}

/// The state after a readiness check at `now`.
pub open spec fn next_state(rate: Rate, s: WindowState, now: u64, inner_ready: bool) -> WindowState {
    let t = refreshed(rate, s, now);
    if admits(rate, s, now, inner_ready) {
        WindowState { reserved: (t.reserved + 1) as u64, ..t }
    } else {
        t
    }
}

/// The answer of a readiness check at `now`.
pub open spec fn readiness(rate: Rate, s: WindowState, now: u64) -> Readiness {
    let t = refreshed(rate, s, now);
    if t.reserved >= rate.limit {
        Readiness::Exhausted { until: t.window_end }
    } else {
        Readiness::Available
    }
}

/// A rate limiter: its rate and its current window.
#[derive(Clone, Copy, Debug)]
pub struct RateLimit {
    pub rate: Rate,
    pub state: WindowState,
}

impl RateLimit {
    /// No window admits more than the limit.
    pub open spec fn wf(&self) -> bool {
        self.state.reserved <= self.rate.limit
    }

    /// A limiter whose first window opens at `now`, with nothing admitted yet.
    pub fn new(rate: Rate, now: u64) -> (r: Self)
        ensures
            r.rate == rate,
            r.state == opened(rate, now),
            r.wf(),
    {
        let window_end = now.saturating_add(rate.period);
        RateLimit { rate, state: WindowState { window_end, reserved: 0 } }
    }

    /// A readiness check at time `now`. An expired window is replaced by one
    /// that opens at `now`; the answer says whether the window has an
    /// admission left. Nothing is charged.
    pub fn poll_ready(&mut self, now: u64) -> (r: Readiness)
        requires
            old(self).wf(),
        ensures
            final(self).wf(),
            final(self).rate == old(self).rate,
            final(self).state == refreshed(old(self).rate, old(self).state, now),
            r == readiness(old(self).rate, old(self).state, now),
    {
        if now >= self.state.window_end {
            self.state.window_end = now.saturating_add(self.rate.period);
            self.state.reserved = 0;
        }
        if self.state.reserved >= self.rate.limit {
            Readiness::Exhausted { until: self.state.window_end }
        } else {
            Readiness::Available
        }
    }

    /// Charges a call to the current window, once a check answered `Available` and the inner
    /// transport is ready: the call is admitted.
    pub fn charge(&mut self)
        requires
            old(self).wf(),
            old(self).state.reserved < old(self).rate.limit,
        ensures
            final(self).wf(),
            final(self).rate == old(self).rate,
            final(self).state == (WindowState {
                reserved: (old(self).state.reserved + 1) as u64,
                ..old(self).state
            }),
    {
        self.state.reserved = self.state.reserved + 1;
    }
}

/// A readiness check at `now` followed, when the inner transport is ready
/// and the answer is `Available`, by `charge`, moves the limiter from `s` to
/// `next_state(rate, s, now, inner_ready)`, and admits exactly when
/// `admits(rate, s, now, inner_ready)`.
pub proof fn lemma_check_then_charge(rate: Rate, s: WindowState, now: u64, inner_ready: bool)
    requires
        s.reserved <= rate.limit,
    ensures
        (readiness(rate, s, now) == Readiness::Available && inner_ready) == admits(
            rate,
            s,
            now,
            inner_ready,
        ),
        admits(rate, s, now, inner_ready) ==> next_state(rate, s, now, inner_ready) == (WindowState {
            reserved: (refreshed(rate, s, now).reserved + 1) as u64,
            ..refreshed(rate, s, now)
        }),
        !admits(rate, s, now, inner_ready) ==> next_state(rate, s, now, inner_ready) == refreshed(
            rate,
            s,
            now,
        ),
{
}

/// How many of a sequence of readiness checks, each a time and whether the
/// inner transport was ready, are admitted.
pub open spec fn admissions(rate: Rate, s: WindowState, checks: Seq<(u64, bool)>) -> nat
    decreases checks.len(),
{
    if checks.len() == 0 {
        0
    } else {
        let (now, ready) = checks[0];
        (if admits(rate, s, now, ready) {
            1nat
        } else {
            0nat
        }) + admissions(rate, next_state(rate, s, now, ready), checks.drop_first())
    }
}

/// While a window lasts, the calls admitted in it, those before and those
/// after, number at most `limit`.
pub proof fn lemma_window_admissions(rate: Rate, s: WindowState, checks: Seq<(u64, bool)>)
    requires
        s.reserved <= rate.limit,
        forall|i: int| 0 <= i < checks.len() ==> (#[trigger] checks[i]).0 < s.window_end,
    ensures
        s.reserved + admissions(rate, s, checks) <= rate.limit,
    decreases checks.len(),
{
    if checks.len() > 0 {
        let (now, ready) = checks[0];
        let t = next_state(rate, s, now, ready);
        assert forall|i: int| 0 <= i < checks.drop_first().len() implies (
        #[trigger] checks.drop_first()[i]).0 < t.window_end by {
            assert(checks.drop_first()[i] == checks[i + 1]);
        }
        lemma_window_admissions(rate, t, checks.drop_first());
    }
}

/// A window opened by a readiness check at `t` admits at most `limit` calls
/// among the checks made before `t + period`.
pub proof fn lemma_fresh_window_admissions(rate: Rate, s: WindowState, checks: Seq<(u64, bool)>)
    requires
        s.reserved <= rate.limit,
        checks.len() > 0,
        checks[0].0 >= s.window_end,
        checks[0].0 + rate.period <= u64::MAX,
        forall|i: int| 0 <= i < checks.len() ==> (#[trigger] checks[i]).0 < checks[0].0 + rate.period,
    ensures
        admissions(rate, s, checks) <= rate.limit,
{
    let (now, ready) = checks[0];
    let t = next_state(rate, s, now, ready);
    assert forall|i: int| 0 <= i < checks.drop_first().len() implies (
    #[trigger] checks.drop_first()[i]).0 < t.window_end by {
        assert(checks.drop_first()[i] == checks[i + 1]);
    }
    lemma_window_admissions(rate, t, checks.drop_first());
}

} // verus!
