//! Metering primitives: a counter that only grows (wrapping at the end of
//! its range), a gauge that moves both ways, and an event count with its
//! starting time.

use vstd::prelude::*;
use std::time::Instant;
use crate::clock::instant_now;

verus! {

/// Errors of the metering primitives.
#[derive(Debug, Clone, PartialEq, Eq)]
pub enum MeterError {
    /// No metric has the name.
    NotFound(String),
    /// The metric has another type.
    InvalidType,
}

/// A counter that only increases; additions wrap around at `u64::MAX`.
#[derive(Debug, Clone, Copy, PartialEq, Eq, Structural)]
pub struct Counter {
    value: u64,
}

impl Counter {
    /// The counter's value.
    pub closed spec fn value(&self) -> u64 {
        self.value
    }

    /// A counter at zero.
    pub fn new() -> (r: Self)
        ensures
            r.value() == 0,
    {
        Counter { value: 0 }
    }

    /// Count one.
    pub fn inc(&mut self)
        ensures
            final(self).value() == vstd::wrapping::u64_specs::wrapping_add(old(self).value(), 1),
    {
        self.add(1);
    }

    /// Count `value` more.
    pub fn add(&mut self, value: u64)
        ensures
            final(self).value() == vstd::wrapping::u64_specs::wrapping_add(old(self).value(), value),
    {
        self.value = self.value.wrapping_add(value);
    }

    /// The current value.
    pub fn get(&self) -> (r: u64)
        ensures
            r == self.value(),
    {
        self.value
    }

    /// Back to zero.
    pub fn reset(&mut self)
        ensures
            final(self).value() == 0,
    {
        self.value = 0;
    }
}

impl Default for Counter {
    fn default() -> (r: Self)
        ensures
            r.value() == 0,
    {
        Counter::new()
    }
}

/// A value that can go up or down; changes wrap around at the ends of the
/// `i64` range.
#[derive(Debug, Clone, Copy, PartialEq, Eq, Structural)]
pub struct Gauge {
    value: i64,
}

impl Gauge {
    /// The gauge's value.
    pub closed spec fn value(&self) -> i64 {
        self.value
    }

    /// A gauge at zero.
    pub fn new() -> (r: Self)
        ensures
            r.value() == 0,
    {
        Gauge { value: 0 }
    }

    /// A gauge at `value`.
    pub fn with_value(value: i64) -> (r: Self)
        ensures
            r.value() == value,
    {
        Gauge { value }
    }

    /// Set the value.
    pub fn set(&mut self, value: i64)
        ensures
            final(self).value() == value,
    {
        self.value = value;
    }

    /// Up by one.
    pub fn inc(&mut self)
        ensures
            final(self).value() == vstd::wrapping::i64_specs::wrapping_add(old(self).value(), 1),
    {
        self.add(1);
    }

    /// Down by one.
    pub fn dec(&mut self)
        ensures
            final(self).value() == vstd::wrapping::i64_specs::wrapping_sub(old(self).value(), 1),
    {
        self.sub(1);
    }

    /// Up by `value`.
    pub fn add(&mut self, value: i64)
        ensures
            final(self).value() == vstd::wrapping::i64_specs::wrapping_add(old(self).value(), value),
    {
        self.value = self.value.wrapping_add(value);
    }

    /// Down by `value`.
    pub fn sub(&mut self, value: i64)
        ensures
            final(self).value() == vstd::wrapping::i64_specs::wrapping_sub(old(self).value(), value),
    {
        self.value = self.value.wrapping_sub(value);
    }

    /// The current value.
    pub fn get(&self) -> (r: i64)
        ensures
            r == self.value(),
    {
        self.value
    }
}

impl Default for Gauge {
    fn default() -> (r: Self)
        ensures
            r.value() == 0,
    {
        Gauge::new()
    }
}

/// A count of events since a starting time.
pub struct RateMeter {
    count: u64,
    start_time: Instant,
}

impl RateMeter {
    /// The number of events recorded.
    pub closed spec fn events(&self) -> u64 {
        self.count
    }

    /// A meter with no events, started now.
    pub fn new() -> (r: Self)
        ensures
            r.events() == 0,
    {
        RateMeter { count: 0, start_time: instant_now() }
    }

    /// Record one event.
    pub fn mark(&mut self)
        ensures
            final(self).events() == vstd::wrapping::u64_specs::wrapping_add(old(self).events(), 1),
    {
        self.count = self.count.wrapping_add(1);
    }

    /// Record `n` events.
    pub fn mark_n(&mut self, n: u64)
        ensures
            final(self).events() == vstd::wrapping::u64_specs::wrapping_add(old(self).events(), n),
    {
        self.count = self.count.wrapping_add(n);
    }

    /// The number of events recorded.
    pub fn count(&self) -> (r: u64)
        ensures
            r == self.events(),
    {
        self.count
    }

    /// When the meter started.
    pub fn started_at(&self) -> (r: Instant) {
        self.start_time
    }
}

impl Default for RateMeter {
    fn default() -> (r: Self)
        ensures
            r.events() == 0,
    {
        RateMeter::new()
    }
}

/// Increments and their undoing: adding to a gauge and subtracting the same
/// amount gives back the value, and so do `inc` then `dec`.
pub proof fn lemma_gauge_add_sub(v: i64, d: i64)
    ensures
        vstd::wrapping::i64_specs::wrapping_sub(vstd::wrapping::i64_specs::wrapping_add(v, d), d) == v,
{
}

/// Below the top of the range, counting adds exactly.
pub proof fn lemma_counter_exact(v: u64, d: u64)
    requires
        v + d <= u64::MAX,
    ensures
        vstd::wrapping::u64_specs::wrapping_add(v, d) == v + d,
{
}

} // verus!
