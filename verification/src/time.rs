//! Instants and signed spans of time, counted in nanoseconds.
//!
//! A [`Timestamp`] is a point on the Unix time line with nanosecond
//! resolution, restricted to the range of years -9999 to 9999 (shifted by
//! the largest supported zone offset, so that every instant has a civil
//! form). A [`SignedDuration`] is an unconstrained signed span.

use vstd::prelude::*;

verus! {

/// Nanoseconds in one second.
pub const NANOS_PER_SECOND: i128 = 1_000_000_000;

/// The earliest representable instant, in nanoseconds since the Unix epoch.
pub const TIMESTAMP_MIN_NANOS: i128 = -377_705_023_201_000_000_000;

/// The latest representable instant, in nanoseconds since the Unix epoch.
pub const TIMESTAMP_MAX_NANOS: i128 = 253_402_207_200_999_999_999;

/// The earliest instant the wire format can carry, in whole microseconds.
pub const TIMESTAMP_MIN_MICROS: i64 = -377_705_023_201_000_000;

/// The latest instant the wire format can carry, in whole microseconds.
pub const TIMESTAMP_MAX_MICROS: i64 = 253_402_207_200_000_000;

/// Division truncating toward zero, for a positive divisor: the value of
/// Rust's `/` on signed integers.
pub open spec fn tdiv(a: int, b: int) -> int
    recommends
        b > 0,
{
    if a >= 0 {
        a / b
    } else {
        -((-a) / b)
    }
}

/// A signed span of time with nanosecond resolution.
#[derive(Clone, Copy, Debug, PartialEq, Eq, Hash, PartialOrd, Ord)]
pub struct SignedDuration {
    nanos: i128,
}

impl View for SignedDuration {
    type V = int;

    closed spec fn view(&self) -> int {
        self.nanos as int
    }
}

impl SignedDuration {
    /// The span of the given count of nanoseconds.
    pub fn from_nanos(nanos: i128) -> (r: SignedDuration)
        ensures
            r@ == nanos,
    {
        SignedDuration { nanos }
    }

    /// The span of the given count of microseconds.
    pub fn from_micros(micros: i64) -> (r: SignedDuration)
        ensures
            r@ == 1000 * micros,
    {
        SignedDuration { nanos: (micros as i128) * 1000 }
    }

    /// The span of the given count of milliseconds.
    pub fn from_millis(millis: i64) -> (r: SignedDuration)
        ensures
            r@ == 1_000_000 * millis,
    {
        SignedDuration { nanos: (millis as i128) * 1_000_000 }
    }

    /// The span of the given count of seconds.
    pub fn from_secs(secs: i64) -> (r: SignedDuration)
        ensures
            r@ == 1_000_000_000 * secs,
    {
        SignedDuration { nanos: (secs as i128) * 1_000_000_000 }
    }

    /// The span as a count of nanoseconds.
    pub fn as_nanos(&self) -> (r: i128)
        ensures
            r == self@,
    {
        self.nanos
    }

    /// The span as a count of whole microseconds, truncating toward zero.
    pub fn as_micros(&self) -> (r: i128)
        ensures
            r == tdiv(self@, 1000),
    {
        self.nanos / 1000
    }
}

/// An instant in time: nanoseconds since the Unix epoch, always within
/// [`TIMESTAMP_MIN_NANOS`] ..= [`TIMESTAMP_MAX_NANOS`].
#[derive(Clone, Copy, Debug, PartialEq, Eq, Hash, PartialOrd, Ord)]
pub struct Timestamp {
    nanos: i128,
}

impl View for Timestamp {
    type V = int;

    closed spec fn view(&self) -> int {
        self.nanos as int
    }
}

impl Timestamp {
    /// Every timestamp lies in the representable range.
    #[verifier::type_invariant]
    pub open spec fn valid(self) -> bool {
        TIMESTAMP_MIN_NANOS <= self@ <= TIMESTAMP_MAX_NANOS
    }

    /// The timestamp a given count of whole seconds plus a sub-second
    /// nanosecond component away from the epoch. The two parts may have
    /// opposing signs; the sub-second part must stay within one second.
    pub fn new(second: i64, nanosecond: i32) -> (r: Option<Timestamp>)
        ensures
            (r is Some) <==> (-999_999_999 <= nanosecond <= 999_999_999
                && TIMESTAMP_MIN_NANOS <= second * NANOS_PER_SECOND + nanosecond
                    <= TIMESTAMP_MAX_NANOS),
            r matches Some(t) ==> t@ == second * NANOS_PER_SECOND + nanosecond,
    {
        if nanosecond < -999_999_999 || nanosecond > 999_999_999 {
            return None;
        }
        let total: i128 = (second as i128) * 1_000_000_000 + (nanosecond as i128);
        if total < TIMESTAMP_MIN_NANOS || total > TIMESTAMP_MAX_NANOS {
            None
        } else {
            Some(Timestamp { nanos: total })
        }
    }

    /// The timestamp a given count of whole microseconds away from the epoch.
    pub fn from_microsecond(microsecond: i64) -> (r: Option<Timestamp>)
        ensures
            (r is Some) <==> TIMESTAMP_MIN_MICROS <= microsecond <= TIMESTAMP_MAX_MICROS,
            r matches Some(t) ==> t@ == 1000 * microsecond,
    {
        if microsecond < TIMESTAMP_MIN_MICROS || microsecond > TIMESTAMP_MAX_MICROS {
            None
        } else {
            Some(Timestamp { nanos: (microsecond as i128) * 1000 })
        }
    }

    /// The timestamp a given count of nanoseconds away from the epoch.
    pub fn from_nanosecond(nanosecond: i128) -> (r: Option<Timestamp>)
        ensures
            (r is Some) <==> TIMESTAMP_MIN_NANOS <= nanosecond <= TIMESTAMP_MAX_NANOS,
            r matches Some(t) ==> t@ == nanosecond,
    {
        if nanosecond < TIMESTAMP_MIN_NANOS || nanosecond > TIMESTAMP_MAX_NANOS {
            None
        } else {
            Some(Timestamp { nanos: nanosecond })
        }
    }

    /// The instant as a count of nanoseconds since the epoch.
    pub fn as_nanosecond(&self) -> (r: i128)
        ensures
            r == self@,
    {
        self.nanos
    }

    /// The instant as a count of whole microseconds since the epoch,
    /// truncating toward zero.
    pub fn as_microsecond(&self) -> (r: i64)
        ensures
            r == tdiv(self@, 1000),
    {
        proof {
            use_type_invariant(self);
        }
        (self.nanos / 1000) as i64
    }

    /// This instant shifted by a span, or `None` when the result would fall
    /// outside the representable range.
    pub fn checked_add(self, duration: SignedDuration) -> (r: Option<Timestamp>)
        ensures
            (r is Some) <==> TIMESTAMP_MIN_NANOS <= self@ + duration@ <= TIMESTAMP_MAX_NANOS,
            r matches Some(t) ==> t@ == self@ + duration@,
    {
        proof {
            use_type_invariant(&self);
        }
        match self.nanos.checked_add(duration.nanos) {
            None => None,
            Some(total) => {
                if total < TIMESTAMP_MIN_NANOS || total > TIMESTAMP_MAX_NANOS {
                    None
                } else {
                    Some(Timestamp { nanos: total })
                }
            },
        }
    }

    /// This instant shifted by a span, clamped to the representable range.
    pub fn saturating_add(self, duration: SignedDuration) -> (r: Timestamp)
        ensures
            r@ == if self@ + duration@ < TIMESTAMP_MIN_NANOS {
                TIMESTAMP_MIN_NANOS as int
            } else if self@ + duration@ > TIMESTAMP_MAX_NANOS {
                TIMESTAMP_MAX_NANOS as int
            } else {
                self@ + duration@
            },
    {
        proof {
            use_type_invariant(&self);
        }
        match self.nanos.checked_add(duration.nanos) {
            None => {
                if duration.nanos >= 0 {
                    Timestamp { nanos: TIMESTAMP_MAX_NANOS }
                } else {
                    Timestamp { nanos: TIMESTAMP_MIN_NANOS }
                }
            },
            Some(total) => {
                if total < TIMESTAMP_MIN_NANOS {
                    Timestamp { nanos: TIMESTAMP_MIN_NANOS }
                } else if total > TIMESTAMP_MAX_NANOS {
                    Timestamp { nanos: TIMESTAMP_MAX_NANOS }
                } else {
                    Timestamp { nanos: total }
                }
            },
        }
    }

    /// The current wall-clock instant.
    ///
    /// Relies on `jiff::Timestamp::now` for the current system time, which
    /// jiff keeps within the representable range, and on
    /// `jiff::Timestamp::as_nanosecond` for reading it out as the count of
    /// nanoseconds since the Unix epoch.
    #[verifier::external_body]
    pub fn now() -> (r: Timestamp)
        ensures
            r.valid(),
    {
        Timestamp { nanos: jiff::Timestamp::now().as_nanosecond() }
    }
}

/// Two timestamps an equal distance from the epoch are the same timestamp.
pub proof fn lemma_timestamp_view_injective(a: Timestamp, b: Timestamp)
    requires
        a@ == b@,
    ensures
        a == b,
{
}

/// The timestamp at a given distance from the epoch, as a spec-level value.
pub closed spec fn ts_from_ns(ns: int) -> Timestamp {
    Timestamp { nanos: ns as i128 }
}

/// For distances within the representable range, `ts_from_ns` yields the
/// valid timestamp at exactly that distance.
pub proof fn lemma_ts_from_ns(ns: int)
    requires
        TIMESTAMP_MIN_NANOS <= ns <= TIMESTAMP_MAX_NANOS,
    ensures
        ts_from_ns(ns)@ == ns,
        ts_from_ns(ns).valid(),
{
}

} // verus!
