//! Sampling settings and their normalization.

use vstd::prelude::*;

verus! {

/// The smallest allowed jitter: ten microseconds, in nanoseconds.
pub const JITTER_MIN_NANOS: u64 = 10_000;

/// The largest allowed jitter: ten seconds, in nanoseconds.
pub const JITTER_MAX_NANOS: u64 = 10_000_000_000;

/// Settings for a synchronization attempt.
///
/// Values set are clamped to acceptable ones before use (setting samples to
/// 10 results in a value of 11 being selected).
#[derive(Debug, Clone, Copy, PartialEq, Eq, Hash)]
pub struct Settings {
    /// How many samples to gather for synchronization.
    ///
    /// Must be odd, minimum 3, default 5.
    pub samples: u8,
    /// The maximum amount of time between taking two samples, in
    /// nanoseconds; the actual spacing is drawn at random below it.
    ///
    /// Must be at least ten microseconds and at most ten seconds.
    pub jitter: u64,
}

/// The normalized form of a settings value: an even sample count is raised
/// by one (saturating) to the next odd one, the result is clamped to
/// [3, 255], and the jitter is clamped to
/// [[`JITTER_MIN_NANOS`], [`JITTER_MAX_NANOS`]].
pub open spec fn spec_clamp(s: Settings) -> Settings {
    let odd = if s.samples % 2 == 0 {
        (s.samples + 1) as u8
    } else {
        s.samples
    };
    let samples = if odd < 3 {
        3u8
    } else {
        odd
    };
    let jitter = if s.jitter < JITTER_MIN_NANOS {
        JITTER_MIN_NANOS
    } else if s.jitter > JITTER_MAX_NANOS {
        JITTER_MAX_NANOS
    } else {
        s.jitter
    };
    Settings { samples, jitter }
}

impl Settings {
    /// Clamp to acceptable values: the sample count becomes odd and lands in
    /// [3, 255], the jitter lands between ten microseconds and ten seconds.
    pub fn clamp(self) -> (r: Settings)
        ensures
            r == spec_clamp(self),
            r.samples % 2 == 1,
            3 <= r.samples,
            JITTER_MIN_NANOS <= r.jitter <= JITTER_MAX_NANOS,
    {
        let odd: u8 = if self.samples % 2 == 0 {
            self.samples.saturating_add(1)
        } else {
            self.samples
        };
        let samples: u8 = if odd < 3 {
            3
        } else {
            odd
        };
        let jitter: u64 = if self.jitter < JITTER_MIN_NANOS {
            JITTER_MIN_NANOS
        } else if self.jitter > JITTER_MAX_NANOS {
            JITTER_MAX_NANOS
        } else {
            self.jitter
        };
        Settings { samples, jitter }
    }
}

impl Default for Settings {
    /// Five samples, spread by up to two seconds each.
    fn default() -> (r: Settings)
        ensures
            r.samples == 5,
            r.jitter == 2_000_000_000,
    {
        Settings { samples: 5, jitter: 2_000_000_000 }
    }
}

/// Normalization is idempotent: clamping a clamped settings value changes
/// nothing.
pub proof fn lemma_clamp_idempotent(s: Settings)
    ensures
        spec_clamp(spec_clamp(s)) == spec_clamp(s),
{
}

} // verus!
