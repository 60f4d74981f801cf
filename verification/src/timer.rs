//! Timing bookkeeping for a sampling session.
//!
//! The library's timer is a passive record of the requested frequency and
//! the session's start instant; the periodic delivery itself is armed by the
//! process-level plumbing around the library, after the profiler slot is
//! populated, and disarmed before the slot is read at stop.

use vstd::prelude::*;

verus! {

/// Nanoseconds in one second.
pub const NANOS_PER_SEC: u64 = 1_000_000_000;

/// Microseconds in one second.
pub const MICROS_PER_SEC: u64 = 1_000_000;

/// The timing snapshot taken at serialization: the session's start
/// wall-clock instant, the elapsed duration, and the nominal inter-tick
/// period, all in nanoseconds.
pub struct Timing {
    pub start_time_nanos: u64,
    pub duration_nanos: u64,
    pub period_nanos: u64,
}

/// The nominal inter-tick period, in nanoseconds, for a sampling
/// frequency in ticks per second.
pub open spec fn period_of(frequency: u64) -> int
    recommends
        frequency >= 1,
{
    NANOS_PER_SEC as int / frequency as int
}

/// The nominal inter-tick interval, in microseconds, for an OS interval
/// timer at a sampling frequency in ticks per second.
pub open spec fn period_micros_of(frequency: u64) -> int
    recommends
        frequency >= 1,
{
    MICROS_PER_SEC as int / frequency as int
}

/// The interval-timer period for a validated frequency, in microseconds;
/// what the process plumbing hands to the OS when it arms the timer. A
/// non-positive frequency never reaches this point: the profiler boundary
/// rejects it with `InvalidArgument`.
pub fn period_micros(frequency_per_sec: i32) -> (r: u64)
    requires
        frequency_per_sec >= 1,
    ensures
        r as int == period_micros_of(frequency_per_sec as u64),
{
    MICROS_PER_SEC / (frequency_per_sec as u64)
}

/// Relies on std::time::SystemTime::now and duration_since(UNIX_EPOCH):
/// the current wall clock in nanoseconds since the epoch. Nothing relates
/// two readings; callers treat every value as possible.
#[verifier::external_body]
fn wall_clock_nanos() -> (r: u64) {
    match std::time::SystemTime::now().duration_since(std::time::UNIX_EPOCH) {
        Ok(d) => u64::try_from(d.as_nanos()).unwrap_or(u64::MAX),
        Err(_) => 0,
    }
}

/// The per-session timer record.
pub struct Timer {
    frequency: u64,
    start_nanos: u64,
}

impl Timer {
    /// The sampling frequency, in ticks per second.
    pub closed spec fn frequency(&self) -> u64 {
        self.frequency
    }

    /// The wall-clock instant the timer was started.
    pub closed spec fn start_nanos(&self) -> u64 {
        self.start_nanos
    }

    pub open spec fn wf(&self) -> bool {
        self.frequency() >= 1
    }

    /// Begin a session's timekeeping at the current wall clock. The caller
    /// validates the frequency first; a non-positive one is rejected at
    /// the profiler boundary with `InvalidArgument`.
    pub fn start(frequency_per_sec: i32) -> (r: Timer)
        requires
            frequency_per_sec >= 1,
        ensures
            r.wf(),
            r.frequency() == frequency_per_sec as u64,
    {
        Timer { frequency: frequency_per_sec as u64, start_nanos: wall_clock_nanos() }
    }

    /// The snapshot used at serialization: the stored start instant, the
    /// elapsed wall-clock duration (zero if the clock went backwards), and
    /// the nominal period derived from the frequency.
    pub fn timing(&self) -> (t: Timing)
        requires
            self.wf(),
        ensures
            t.start_time_nanos == self.start_nanos(),
            t.period_nanos as int == period_of(self.frequency()),
    {
        let now = wall_clock_nanos();
        let duration = if now >= self.start_nanos {
            now - self.start_nanos
        } else {
            0
        };
        Timing {
            start_time_nanos: self.start_nanos,
            duration_nanos: duration,
            period_nanos: NANOS_PER_SEC / self.frequency,
        }
    }
}

} // verus!
