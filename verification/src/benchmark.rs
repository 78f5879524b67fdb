//! Wall-clock measurements of repeated phases of a run.
//!
//! A benchmark collects nanosecond durations; what the clock returns is
//! outside the library's control, so the contracts pin the bookkeeping
//! (how many measurements exist and that old ones are kept) and say
//! nothing about the measured values themselves.

use vstd::prelude::*;

verus! {

/// Declares std::time::Instant for use in fields; its values stay opaque.
#[verifier::external_type_specification]
#[verifier::external_body]
pub struct ExInstant(std::time::Instant);

/// Relies on std::time::Instant::now: a reading of the monotonic clock.
#[verifier::external_body]
fn instant_now() -> std::time::Instant {
    std::time::Instant::now()
}

/// Relies on Instant::elapsed and Duration::as_nanos: the nanoseconds
/// passed since the instant was taken.
#[verifier::external_body]
fn elapsed_ns(start: &std::time::Instant) -> u128 {
    start.elapsed().as_nanos()
}

/// A timer that accumulates one duration per start/stop pair.
pub struct TimerBenchmark {
    pub values_ns: Vec<u128>,
    pub start_time: Option<std::time::Instant>,
}

impl TimerBenchmark {
    /// Whether a measurement is running.
    pub open spec fn is_started_spec(self) -> bool {
        self.start_time is Some
    }

    /// An empty benchmark with no running measurement.
    pub fn new() -> (r: TimerBenchmark)
        ensures
            r.values_ns@.len() == 0,
            !r.is_started_spec(),
    {
        TimerBenchmark { values_ns: Vec::new(), start_time: None }
    }

    /// Begin a measurement; one must not already be running.
    pub fn start(&mut self)
        requires
            !old(self).is_started_spec(),
        ensures
            final(self).is_started_spec(),
            final(self).values_ns@ == old(self).values_ns@,
    {
        self.start_time = Some(instant_now());
    }

    /// End the running measurement and store its duration.
    pub fn stop(&mut self)
        requires
            old(self).is_started_spec(),
        ensures
            !final(self).is_started_spec(),
            final(self).values_ns@.len() == old(self).values_ns@.len() + 1,
            forall|i: int|
                0 <= i < old(self).values_ns@.len() ==> final(self).values_ns@[i] == old(
                    self,
                ).values_ns@[i],
    {
        let start = self.start_time.as_ref().unwrap();
        let duration = elapsed_ns(start);
        self.values_ns.push(duration);
        self.start_time = None;
    }

    /// Drop every stored measurement and any running one.
    pub fn clear(&mut self)
        ensures
            final(self).values_ns@.len() == 0,
            !final(self).is_started_spec(),
    {
        self.values_ns = Vec::new();
        self.start_time = None;
    }

    /// Number of stored measurements.
    pub fn len(&self) -> (r: usize)
        ensures
            r == self.values_ns@.len(),
    {
        self.values_ns.len()
    }

    /// Whether a measurement is running.
    pub fn is_started(&self) -> (r: bool)
        ensures
            r == self.is_started_spec(),
    {
        self.start_time.is_some()
    }

    /// Store a duration directly, as if a measurement of that length had
    /// run.
    pub fn mock_insert(&mut self, duration_ns: u128)
        ensures
            final(self).values_ns@ == old(self).values_ns@.push(duration_ns),
            final(self).is_started_spec() == old(self).is_started_spec(),
    {
        self.values_ns.push(duration_ns);
    }

    /// The smallest stored duration, in nanoseconds; zero when empty.
    pub fn min_ns(&self) -> (r: u128)
        ensures
            self.values_ns@.len() == 0 ==> r == 0,
            forall|i: int| 0 <= i < self.values_ns@.len() ==> r <= #[trigger] self.values_ns@[i],
            self.values_ns@.len() > 0 ==> exists|i: int|
                0 <= i < self.values_ns@.len() && r == self.values_ns@[i],
    {
        let mut best: u128 = 0;
        let mut i: usize = 0;
        let n = self.values_ns.len();
        while i < n
            invariant
                n == self.values_ns@.len(),
                0 <= i <= n,
                i == 0 ==> best == 0,
                i > 0 ==> forall|j: int| 0 <= j < i ==> best <= #[trigger] self.values_ns@[j],
                i > 0 ==> exists|j: int| 0 <= j < i && best == self.values_ns@[j],
            decreases n - i,
        {
            let v = self.values_ns[i];
            if i == 0 || v < best {
                best = v;
            }
            i = i + 1;
        }
        best
    }

    /// The largest stored duration, in nanoseconds; zero when empty.
    pub fn max_ns(&self) -> (r: u128)
        ensures
            self.values_ns@.len() == 0 ==> r == 0,
            forall|i: int| 0 <= i < self.values_ns@.len() ==> r >= #[trigger] self.values_ns@[i],
    {
        let mut best: u128 = 0;
        let mut i: usize = 0;
        let n = self.values_ns.len();
        while i < n
            invariant
                n == self.values_ns@.len(),
                0 <= i <= n,
                i == 0 ==> best == 0,
                forall|j: int| 0 <= j < i ==> best >= #[trigger] self.values_ns@[j],
            decreases n - i,
        {
            let v = self.values_ns[i];
            if v > best {
                best = v;
            }
            i = i + 1;
        }
        best
    }

    /// The most recently stored duration, in nanoseconds.
    pub fn last_ns(&self) -> (r: u128)
        requires
            self.values_ns@.len() > 0,
        ensures
            r == self.values_ns@.last(),
    {
        self.values_ns[self.values_ns.len() - 1]
    }

    /// Nanoseconds of the measurement currently running.
    pub fn current_ns(&self) -> (r: u128)
        requires
            self.is_started_spec(),
    {
        elapsed_ns(self.start_time.as_ref().unwrap())
    }
}

} // verus!
