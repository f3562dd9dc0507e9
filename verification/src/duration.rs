//! Fixed-precision playback time: a non-negative duration counted in
//! milliseconds. All positions, chapter boundaries and seek targets in the
//! core are values of this type.
use vstd::prelude::*;

verus! {

/// Nanoseconds per millisecond, used when talking to the engine.
pub const NANOS_PER_MILLI: u64 = 1_000_000;

/// A playback offset or length, in whole milliseconds.
#[derive(Clone, Copy, PartialEq, Eq, Structural, Debug)]
pub struct Duration {
    pub millis: u64,
}

impl Duration {
    /// The zero duration.
    pub fn zero() -> (r: Duration)
        ensures
            r.millis == 0,
    {
        Duration { millis: 0 }
    }

    pub fn from_millis(millis: u64) -> (r: Duration)
        ensures
            r.millis == millis,
    {
        Duration { millis }
    }

    pub fn from_secs(secs: u64) -> (r: Duration)
        requires
            secs * 1000 <= u64::MAX,
        ensures
            r.millis == secs * 1000,
    {
        Duration { millis: secs * 1000 }
    }

    pub fn as_millis(&self) -> (r: u64)
        ensures
            r == self.millis,
    {
        self.millis
    }

    /// Whole seconds, rounding down.
    pub fn as_secs(&self) -> (r: u64)
        ensures
            r == self.millis / 1000,
    {
        self.millis / 1000
    }

    /// Addition that stops at the largest representable duration.
    pub fn saturating_add(self, other: Duration) -> (r: Duration)
        ensures
            self.millis + other.millis <= u64::MAX ==> r.millis == self.millis + other.millis,
            self.millis + other.millis > u64::MAX ==> r.millis == u64::MAX,
    {
        if self.millis <= u64::MAX - other.millis {
            Duration { millis: self.millis + other.millis }
        } else {
            Duration { millis: u64::MAX }
        }
    }

    /// Subtraction that stops at zero.
    pub fn saturating_sub(self, other: Duration) -> (r: Duration)
        ensures
            self.millis >= other.millis ==> r.millis == self.millis - other.millis,
            self.millis < other.millis ==> r.millis == 0,
    {
        if self.millis >= other.millis {
            Duration { millis: self.millis - other.millis }
        } else {
            Duration { millis: 0 }
        }
    }

    /// The same instant in nanoseconds, the unit the engine's seek takes;
    /// `None` when it does not fit in 64 bits.
    pub fn to_nanos(&self) -> (r: Option<u64>)
        ensures
            self.millis * NANOS_PER_MILLI <= u64::MAX ==> r == Some(
                (self.millis * NANOS_PER_MILLI) as u64,
            ),
            self.millis * NANOS_PER_MILLI > u64::MAX ==> r is None,
    {
        if self.millis <= u64::MAX / NANOS_PER_MILLI {
            assert(self.millis * NANOS_PER_MILLI <= u64::MAX) by (nonlinear_arith)
                requires
                    self.millis <= u64::MAX / NANOS_PER_MILLI,
            ;
            Some(self.millis * NANOS_PER_MILLI)
        } else {
            assert(self.millis * NANOS_PER_MILLI > u64::MAX) by (nonlinear_arith)
                requires
                    self.millis > u64::MAX / NANOS_PER_MILLI,
            ;
            None
        }
    }

    /// A duration from an engine position report, in nanoseconds,
    /// rounding down to whole milliseconds.
    pub fn from_nanos(nanos: u64) -> (r: Duration)
        ensures
            r.millis == nanos / NANOS_PER_MILLI,
    {
        Duration { millis: nanos / NANOS_PER_MILLI }
    }

    /// Hours, minutes and seconds of a clock face showing this duration,
    /// wrapping at one day.
    pub fn clock_parts(&self) -> (r: (u64, u64, u64))
        ensures
            r.0 == (self.millis / 1000) % 86400 / 3600,
            r.1 == (self.millis / 1000) % 3600 / 60,
            r.2 == (self.millis / 1000) % 60,
            r.0 < 24 && r.1 < 60 && r.2 < 60,
    {
        let total: u64 = (self.millis / 1000) % 86400;
        let h: u64 = total / 3600;
        let m: u64 = (total % 3600) / 60;
        let s: u64 = total % 60;
        assert((self.millis / 1000) % 3600 == total % 3600) by (nonlinear_arith)
            requires
                total == (self.millis / 1000) % 86400,
        ;
        assert(total % 60 == (self.millis / 1000) % 60) by (nonlinear_arith)
            requires
                total == (self.millis / 1000) % 86400,
        ;
        (h, m, s)
    }
}

} // verus!
