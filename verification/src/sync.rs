//! The synchronization engine, driven through a capability interface.
//!
//! The caller supplies storage for the computed offset, a transport that
//! performs one request/response round trip, and a sleeping primitive, by
//! implementing the four required methods of [`Timesimp`]. The provided
//! methods turn those capabilities into a time sync client
//! ([`Timesimp::attempt_sync`]) and a time sync server
//! ([`Timesimp::answer_client`]).

use vstd::arithmetic::div_mod::lemma_mod_multiples_basic;
use vstd::prelude::*;

use crate::delta::Delta;
use crate::messages::Request;
use crate::messages::Response;
use crate::settings::Settings;
use crate::stats::reduce_samples;
use crate::time::SignedDuration;
use crate::time::Timestamp;

verus! {

/// A draw from the thread-local random generator, uniform over
/// `0 ..= bound` nanoseconds.
///
/// Relies on `rand::random_range` over an inclusive range: the result lies
/// within the range's bounds. Nothing more can be said of a random draw.
#[verifier::external_body]
fn random_below(bound: u64) -> (r: u64)
    ensures
        r <= bound,
{
    rand::random_range(0..=bound)
}

/// A time sync client and/or server.
///
/// Implement the four required functions and do not override the others.
/// Then use [`Timesimp::answer_client`] to build a time sync server, and/or
/// [`Timesimp::attempt_sync`] to build a time sync client.
pub trait Timesimp {
    /// Error for the required methods.
    type Err;

    /// Load the currently stored time offset, or `None` when no offset is
    /// stored.
    fn load_offset(&self) -> Result<Option<SignedDuration>, Self::Err>;

    /// Persist the given time offset. Once `store_offset` has succeeded,
    /// `load_offset` should return `Some`. Storing may happen twice within
    /// one synchronization attempt, so it must be an idempotent overwrite.
    fn store_offset(&mut self, offset: SignedDuration) -> Result<(), Self::Err>;

    /// Query a timesimp server endpoint: send the given request in its wire
    /// form and obtain the peer's response. The implementation should do as
    /// little else as possible, to avoid adding latency.
    fn query_server(&self, request: Request) -> Result<Response, Self::Err>;

    /// Suspend for at least the given count of nanoseconds.
    fn sleep(duration_ns: u64);

    /// An adjusted timestamp: the current local instant shifted by the
    /// stored offset (zero when none is stored), clamped to the
    /// representable range.
    ///
    /// Do not override. Provided as a convenience for simple use.
    fn adjusted_timestamp(&self) -> Result<Timestamp, Self::Err> {
        let offset = match self.load_offset() {
            Ok(Some(off)) => off,
            Ok(None) => SignedDuration::from_nanos(0),
            Err(err) => {
                return Err(err);
            },
        };
        Ok(Timestamp::now().saturating_add(offset))
    }

    /// The implementation of the server endpoint: echo the request's client
    /// timestamp unchanged, and stamp the response with this peer's adjusted
    /// current time.
    ///
    /// Do not override. The endpoint should do as little else as possible,
    /// to avoid adding latency.
    fn answer_client(&self, request: Request) -> (r: Result<Response, Self::Err>)
        ensures
            r matches Ok(resp) ==> resp.client == request.client,
    {
        match self.adjusted_timestamp() {
            Ok(server) => Ok(Response { client: request.client, server }),
            Err(err) => Err(err),
        }
    }

    /// The main client state driver: take the configured number of timed
    /// samples against the peer and reduce them to a single offset, which is
    /// persisted and returned. Call this in a loop, on a schedule computed
    /// from the raw local clock so the offset cannot influence it.
    ///
    /// Each iteration sleeps for the delay drawn in the previous one (the
    /// first delay is zero), draws the next delay from `[0, jitter]` before
    /// querying (so a failed query does not reuse a stale delay), records
    /// the local send time, queries the peer, records the local receive
    /// time, and computes the sample's delta. A transport error or a
    /// backward clock step silently discards that iteration; the loop simply
    /// continues with the next slot. While no offset is stored yet, the
    /// first delta obtained is persisted at once as a provisional offset, so
    /// that an "accurate enough" timestamp is available quickly; errors of
    /// that store are swallowed. Errors of loading and of the final store
    /// propagate.
    ///
    /// `Ok(None)` means not enough valid samples were collected for a
    /// confident result — a defined negative outcome, not an error; nothing
    /// is stored in that case. A returned offset is always a whole count of
    /// microseconds.
    fn attempt_sync(&mut self, settings: Settings) -> (r: Result<
        Option<SignedDuration>,
        Self::Err,
    >)
        ensures
            r matches Ok(Some(off)) ==> off@ % 1000 == 0,
    {
        let clamped = settings.clamp();
        // The initial load is required: its error fails the whole attempt.
        match self.load_offset() {
            Ok(_) => {},
            Err(err) => {
                return Err(err);
            },
        }
        let mut gap: u64 = 0;
        let mut responses: Vec<Delta> = Vec::new();
        let mut i: u8 = 0;
        while i < clamped.samples
            invariant
                i <= clamped.samples,
                responses@.len() <= i,
            decreases clamped.samples - i,
        {
            Self::sleep(gap);
            // Drawn before the query, so an erroring query does not lead to
            // an immediate retry with a stale delay.
            gap = random_below(clamped.jitter);
            let sent = Timestamp::now();
            match self.query_server(Request { client: sent }) {
                Ok(response) => {
                    let received = Timestamp::now();
                    match Delta::new(response, received) {
                        Some(sample) => {
                            responses.push(sample);
                            match self.load_offset() {
                                Ok(None) => {
                                    // No offset known yet: persist this first
                                    // delta provisionally, best-effort.
                                    let _ = self.store_offset(sample.delta());
                                },
                                Ok(Some(_)) => {},
                                Err(err) => {
                                    return Err(err);
                                },
                            }
                        },
                        None => {
                            // The local clock went backward during this round
                            // trip; the sample is discarded.
                        },
                    }
                },
                Err(_) => {
                    // Transport failure; this slot is skipped, not retried.
                },
            }
            i = i + 1;
        }
        let ghost collected = responses@;
        let offset = match reduce_samples(responses) {
            Some(off) => off,
            None => {
                return Ok(None);
            },
        };
        proof {
            match crate::stats::spec_reduce_micros(collected) {
                Some(us) => lemma_mod_multiples_basic(us, 1000),
                None => (),
            }
        }
        match self.store_offset(offset) {
            Ok(()) => Ok(Some(offset)),
            Err(err) => Err(err),
        }
    }
}

} // verus!
