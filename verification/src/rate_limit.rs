//! A budget of request weight per interval.
//!
//! Exchanges budget requests by weight per interval. A [`WeightWindow`] reserves weight, says how
//! long to wait when the budget is used up, and takes in the usage that the exchange reports.

use crate::time::{Duration, Instant};
use vstd::prelude::*;

verus! {

/// A budget of request weight per interval.
#[derive(Debug, Clone, Copy)]
pub struct WeightWindow {
    /// The largest weight that may be used in an interval.
    pub limit: u32,
    /// The length of an interval.
    pub window: Duration,
    used: u32,
    window_start: Instant,
}

/// A budget of request weight per interval, in the way contracts write it.
pub struct WindowView {
    pub limit: u32,
    pub window: Duration,
    pub used: u32,
    pub start: Instant,
}

/// The larger of two weights.
pub open spec fn heavier(a: u32, b: u32) -> u32 {
    if a < b {
        b
    } else {
        a
    }
}

/// The larger of two weights.
fn max_weight(a: u32, b: u32) -> (result: u32)
    ensures
        result == heavier(a, b),
{
    if a < b {
        b
    } else {
        a
    }
}

impl View for WeightWindow {
    type V = WindowView;

    closed spec fn view(&self) -> WindowView {
        WindowView {
            limit: self.limit,
            window: self.window,
            used: self.used,
            start: self.window_start,
        }
    }
}

impl WindowView {
    /// The budget at a time: a new interval has begun where the current one is over.
    pub open spec fn rolled(self, now: Instant) -> WindowView {
        if now.since(self.start).nanos >= self.window.nanos {
            WindowView { start: now, used: 0, ..self }
        } else {
            self
        }
    }

    /// The weight can be used without exceeding the limit.
    pub open spec fn admits(self, weight: u32) -> bool {
        self.used + heavier(weight, 1) <= self.limit
    }

    /// The budget after the weight was asked for, and how long to wait.
    pub open spec fn reserved(self, weight: u32, now: Instant) -> (WindowView, Duration) {
        let rolled = self.rolled(now);
        if rolled.admits(weight) {
            (
                WindowView { used: (rolled.used + heavier(weight, 1)) as u32, ..rolled },
                Duration { nanos: 0 },
            )
        } else {
            (rolled, rolled.window.less_span(now.since(rolled.start)))
        }
    }
}

impl WeightWindow {
    /// A budget of which nothing is used, whose first interval begins now.
    pub fn new(limit: u32, window: Duration, now: Instant) -> (result: WeightWindow)
        ensures
            result@ == (WindowView { limit: heavier(limit, 1), window, used: 0, start: now }),
    {
        WeightWindow { limit: max_weight(limit, 1), window, used: 0, window_start: now }
    }

    /// The weight used in the current interval.
    pub fn used(&self) -> (result: u32)
        ensures
            result == self@.used,
    {
        self.used
    }

    /// Begins a new interval where the current one is over.
    pub fn roll(&mut self, now: Instant)
        ensures
            final(self)@ == old(self)@.rolled(now),
    {
        if now.duration_since(self.window_start).nanos >= self.window.nanos {
            self.window_start = now;
            self.used = 0;
        }
    }

    /// Uses the weight where the limit allows it. Otherwise nothing is used, and the result is
    /// how long the current interval lasts.
    pub fn reserve(&mut self, weight: u32, now: Instant) -> (result: Duration)
        ensures
            (final(self)@, result) == old(self)@.reserved(weight, now),
    {
        let weight = max_weight(weight, 1);
        self.roll(now);
        if weight <= self.limit && self.used <= self.limit - weight {
            self.used = self.used + weight;
            Duration::zero()
        } else {
            self.window.saturating_sub(now.duration_since(self.window_start))
        }
    }

    /// Begins a new interval with the weight used, as after waiting out the last one.
    pub fn start_new_window(&mut self, weight: u32, now: Instant)
        ensures
            final(self)@ == (WindowView { used: heavier(weight, 1), start: now, ..old(self)@ }),
    {
        self.window_start = now;
        self.used = max_weight(weight, 1);
    }

    /// Takes in the usage that the exchange reports: the larger number counts.
    pub fn observe_used(&mut self, used: u32, now: Instant)
        ensures
            final(self)@ == (WindowView {
                used: heavier(old(self)@.rolled(now).used, used),
                ..old(self)@.rolled(now)
            }),
    {
        self.roll(now);
        self.used = max_weight(self.used, used);
    }
}

/// A budget that was not over its limit is not over it after a reservation either.
pub proof fn law_reserve_keeps_to_limit(window: WindowView, weight: u32, now: Instant)
    requires
        window.used <= window.limit,
    ensures
        window.reserved(weight, now).0.used <= window.limit,
{
}

/// Where a reservation has to wait, nothing is used, and the wait is no longer than an interval
/// and ends with the current one: at its end the weight can be reserved if the limit allows it at
/// all.
pub proof fn law_wait_ends_with_the_interval(
    window: WindowView,
    weight: u32,
    now: Instant,
    later: Instant,
)
    requires
        !window.rolled(now).admits(weight),
        later.nanos == now.nanos + window.reserved(weight, now).1.nanos,
        now.nanos >= window.start.nanos,
        heavier(weight, 1) <= window.limit,
    ensures
        window.reserved(weight, now).0 == window.rolled(now),
        window.reserved(weight, now).1.nanos <= window.window.nanos,
        window.reserved(weight, now).0.reserved(weight, later).1.nanos == 0,
        window.reserved(weight, now).0.reserved(weight, later).0.used == heavier(weight, 1),
{
}

/// Within one interval the weight that reservations use adds up, and never exceeds the limit.
pub proof fn law_reservations_of_an_interval_add_up(
    window: WindowView,
    first: u32,
    second: u32,
    now: Instant,
    later: Instant,
)
    requires
        window.rolled(now).admits(first),
        window.reserved(first, now).0.rolled(later) == window.reserved(first, now).0,
        window.reserved(first, now).0.admits(second),
    ensures
        window.reserved(first, now).0.reserved(second, later).0.used == window.rolled(now).used
            + heavier(first, 1) + heavier(second, 1),
        window.reserved(first, now).0.reserved(second, later).0.used <= window.limit,
{
}

/// The larger of two weights is one of them and no smaller than either.
pub proof fn law_heavier_is_the_larger(a: u32, b: u32)
    ensures
        heavier(a, b) >= a,
        heavier(a, b) >= b,
        heavier(a, b) == a || heavier(a, b) == b,
{
}

/// The current interval counts until it is over: then a new one begins, in which nothing is used.
pub proof fn law_interval_ends_after_its_length(window: WindowView, now: Instant)
    requires
        window.start.nanos <= now.nanos,
    ensures
        now.nanos - window.start.nanos < window.window.nanos ==> window.rolled(now) == window,
        now.nanos - window.start.nanos >= window.window.nanos ==> window.rolled(now).used == 0
            && window.rolled(now).start == now,
        window.rolled(now).limit == window.limit,
        window.rolled(now).window == window.window,
{
}

} // verus!
