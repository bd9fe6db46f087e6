//! The per-sample offset and latency estimate.

use vstd::prelude::*;

use crate::messages::Response;
use crate::time::SignedDuration;
use crate::time::Timestamp;

verus! {

/// The widest span two representable timestamps can lie apart, in
/// nanoseconds; every latency and every offset estimate is bounded by it.
pub const DELTA_SPAN_MAX_NANOS: i128 = 631_107_230_401_999_999_999;

/// One sample: half of a measured round trip, and the offset of the peer's
/// clock from the local clock estimated at the round trip's midpoint.
#[derive(Debug, Clone, Copy, PartialEq, Eq)]
pub struct Delta {
    latency: i128,
    delta: i128,
}

impl Delta {
    /// The latency, in nanoseconds.
    pub closed spec fn latency_ns(self) -> int {
        self.latency as int
    }

    /// The offset estimate, in nanoseconds.
    pub closed spec fn delta_ns(self) -> int {
        self.delta as int
    }

    /// The latency is non-negative, and both parts are bounded by the width
    /// of the representable timestamp range.
    #[verifier::type_invariant]
    pub open spec fn valid(self) -> bool {
        &&& 0 <= self.latency_ns() <= DELTA_SPAN_MAX_NANOS
        &&& -DELTA_SPAN_MAX_NANOS <= self.delta_ns() <= DELTA_SPAN_MAX_NANOS
    }

    /// Half of the measured round trip.
    pub fn latency(&self) -> (r: SignedDuration)
        ensures
            r@ == self.latency_ns(),
    {
        SignedDuration::from_nanos(self.latency)
    }

    /// The offset estimate: the peer's clock minus the local clock.
    pub fn delta(&self) -> (r: SignedDuration)
        ensures
            r@ == self.delta_ns(),
    {
        SignedDuration::from_nanos(self.delta)
    }

    /// The delta calculation for a single return packet: the response as it
    /// came back, and the local clock reading at the moment it arrived.
    ///
    /// The round trip is elapsed local time since the echoed send timestamp;
    /// half of it is the latency, under the assumption that the forward and
    /// return legs are symmetric — the single largest source of error in the
    /// whole system, not correctable from the data available. The send
    /// timestamp plus the latency estimates the local clock at the instant
    /// the server stamped its reply, and the delta is the server's stamp
    /// minus that estimate.
    ///
    /// Yields nothing when the receive time precedes the echoed send time
    /// (the local clock went backward); such a sample is discarded, and
    /// callers treat it as "try again", never as fatal.
    pub fn new(response: Response, current: Timestamp) -> (r: Option<Delta>)
        ensures
            (r is Some) <==> current@ >= response.client@,
            r matches Some(d) ==> d.latency_ns() == (current@ - response.client@) / 2,
            r matches Some(d) ==> d.delta_ns() == response.server@ - (response.client@ + (
            current@ - response.client@) / 2),
    {
        proof {
            use_type_invariant(&response.client);
            use_type_invariant(&response.server);
            use_type_invariant(&current);
        }
        let client_ns: i128 = response.client.as_nanosecond();
        let server_ns: i128 = response.server.as_nanosecond();
        let current_ns: i128 = current.as_nanosecond();
        if current_ns < client_ns {
            return None;
        }
        let latency: i128 = (current_ns - client_ns) / 2;
        let midpoint: i128 = client_ns + latency;
        let delta: i128 = server_ns - midpoint;
        Some(Delta { latency, delta })
    }
}

} // verus!
