//! The wire messages and their fixed-width binary codec.
//!
//! A request is exactly 8 bytes: the client timestamp in microseconds since
//! the Unix epoch, as a big-endian signed 64-bit integer. A response is
//! exactly 16 bytes: the echoed client timestamp followed by the server
//! timestamp, in the same form. Decoding reads only the required prefix of a
//! longer buffer and ignores what follows.

use vstd::prelude::*;

use crate::time::Timestamp;
use crate::time::lemma_timestamp_view_injective;
use crate::time::lemma_ts_from_ns;
use crate::time::tdiv;
use crate::time::ts_from_ns;
use crate::time::TIMESTAMP_MAX_MICROS;
use crate::time::TIMESTAMP_MIN_MICROS;

verus! {

/// Error from parsing request or response data.
#[derive(Debug, Clone, Copy, PartialEq, Eq)]
pub enum ParseError {
    /// The decoded microsecond count does not correspond to a representable
    /// timestamp.
    Timestamp,
    /// Not enough data in the packet.
    NeedData,
}

/// The big-endian bytes of a 64-bit value, most significant byte first.
pub open spec fn spec_be_bytes(x: u64) -> Seq<u8> {
    seq![
        (x >> 56) as u8,
        (x >> 48) as u8,
        (x >> 40) as u8,
        (x >> 32) as u8,
        (x >> 24) as u8,
        (x >> 16) as u8,
        (x >> 8) as u8,
        x as u8,
    ]
}

/// The 64-bit value whose big-endian bytes are the first eight of `s`.
pub open spec fn spec_be_u64(s: Seq<u8>) -> u64
    recommends
        s.len() >= 8,
{
    ((s[0] as u64) << 56) | ((s[1] as u64) << 48) | ((s[2] as u64) << 40) | ((s[3] as u64) << 32)
        | ((s[4] as u64) << 24) | ((s[5] as u64) << 16) | ((s[6] as u64) << 8) | (s[7] as u64)
}

/// Reading back the big-endian bytes of a value recovers the value.
pub proof fn lemma_be_round_trip(x: u64)
    ensures
        spec_be_u64(spec_be_bytes(x)) == x,
{
    assert((((x >> 56) as u8) as u64) << 56 | (((x >> 48) as u8) as u64) << 48
        | (((x >> 40) as u8) as u64) << 40 | (((x >> 32) as u8) as u64) << 32
        | (((x >> 24) as u8) as u64) << 24 | (((x >> 16) as u8) as u64) << 16
        | (((x >> 8) as u8) as u64) << 8 | ((x as u8) as u64) == x) by (bit_vector);
}

/// A 64-bit value survives the round trip through its unsigned form.
proof fn lemma_i64_cast_round_trip(x: i64)
    ensures
        (x as u64) as i64 == x,
{
    assert((x as u64) as i64 == x) by (bit_vector);
}

/// The signed microsecond count carried by the first eight bytes of `s`.
pub open spec fn spec_decoded_micros(s: Seq<u8>) -> int
    recommends
        s.len() >= 8,
{
    (spec_be_u64(s) as i64) as int
}

/// A timesimp request.
///
/// Serializes to the client timestamp in microseconds, as a 64-bit signed
/// integer, in big endian.
#[derive(Debug, Clone, Copy, PartialEq, Eq, Hash)]
pub struct Request {
    /// The client timestamp.
    pub client: Timestamp,
}

/// The eight wire bytes of a request.
pub open spec fn spec_request_bytes(r: Request) -> Seq<u8> {
    spec_be_bytes((tdiv(r.client@, 1000) as i64) as u64)
}

/// The request carried by the first eight bytes of `s`, or the parse error.
pub open spec fn spec_request_from_bytes(s: Seq<u8>) -> Result<Request, ParseError>
    recommends
        s.len() >= 8,
{
    let us = spec_decoded_micros(s);
    if TIMESTAMP_MIN_MICROS <= us <= TIMESTAMP_MAX_MICROS {
        Ok(Request { client: ts_from_ns(1000 * us) })
    } else {
        Err(ParseError::Timestamp)
    }
}

impl Request {
    /// Serialize to bytes.
    pub fn to_bytes(&self) -> (r: [u8; 8])
        ensures
            r@ == spec_request_bytes(*self),
    {
        let us: i64 = self.client.as_microsecond();
        let x: u64 = us as u64;
        let bytes: [u8; 8] = [
            (x >> 56) as u8,
            (x >> 48) as u8,
            (x >> 40) as u8,
            (x >> 32) as u8,
            (x >> 24) as u8,
            (x >> 16) as u8,
            (x >> 8) as u8,
            x as u8,
        ];
        proof {
            assert(bytes@ =~= spec_request_bytes(*self));
        }
        bytes
    }

    /// Deserialize from bytes.
    pub fn from_bytes(bytes: [u8; 8]) -> (r: Result<Request, ParseError>)
        ensures
            r == spec_request_from_bytes(bytes@),
    {
        let x: u64 = ((bytes[0] as u64) << 56) | ((bytes[1] as u64) << 48)
            | ((bytes[2] as u64) << 40) | ((bytes[3] as u64) << 32) | ((bytes[4] as u64) << 24)
            | ((bytes[5] as u64) << 16) | ((bytes[6] as u64) << 8) | (bytes[7] as u64);
        let us: i64 = x as i64;
        match Timestamp::from_microsecond(us) {
            Some(t) => {
                proof {
                    lemma_ts_from_ns(1000 * (us as int));
                    lemma_timestamp_view_injective(t, ts_from_ns(1000 * (us as int)));
                }
                Ok(Request { client: t })
            },
            None => Err(ParseError::Timestamp),
        }
    }

    /// Deserialize from the first eight bytes of a buffer, ignoring the rest.
    pub fn from_slice(bytes: &[u8]) -> (r: Result<Request, ParseError>)
        ensures
            bytes@.len() < 8 ==> r == Err::<Request, ParseError>(ParseError::NeedData),
            bytes@.len() >= 8 ==> r == spec_request_from_bytes(bytes@),
    {
        if bytes.len() < 8 {
            return Err(ParseError::NeedData);
        }
        let arr: [u8; 8] = [
            *vstd::slice::slice_index_get(bytes, 0),
            *vstd::slice::slice_index_get(bytes, 1),
            *vstd::slice::slice_index_get(bytes, 2),
            *vstd::slice::slice_index_get(bytes, 3),
            *vstd::slice::slice_index_get(bytes, 4),
            *vstd::slice::slice_index_get(bytes, 5),
            *vstd::slice::slice_index_get(bytes, 6),
            *vstd::slice::slice_index_get(bytes, 7),
        ];
        let r = Self::from_bytes(arr);
        proof {
            assert(spec_be_u64(arr@) == spec_be_u64(bytes@));
        }
        r
    }
}

/// A timesimp response.
///
/// Serializes to the two timestamps, in microseconds, as 64-bit signed
/// integers, in big endian: the echoed client timestamp first, then the
/// server timestamp.
#[derive(Debug, Clone, Copy, PartialEq, Eq, Hash)]
pub struct Response {
    /// The client timestamp, identical to that in the request.
    pub client: Timestamp,
    /// The server timestamp.
    pub server: Timestamp,
}

/// The sixteen wire bytes of a response.
pub open spec fn spec_response_bytes(r: Response) -> Seq<u8> {
    spec_be_bytes((tdiv(r.client@, 1000) as i64) as u64) + spec_be_bytes(
        (tdiv(r.server@, 1000) as i64) as u64,
    )
}

/// The response carried by the first sixteen bytes of `s`, or the parse
/// error.
pub open spec fn spec_response_from_bytes(s: Seq<u8>) -> Result<Response, ParseError>
    recommends
        s.len() >= 16,
{
    let client_us = spec_decoded_micros(s);
    let server_us = spec_decoded_micros(s.subrange(8, 16));
    if !(TIMESTAMP_MIN_MICROS <= client_us <= TIMESTAMP_MAX_MICROS) {
        Err(ParseError::Timestamp)
    } else if !(TIMESTAMP_MIN_MICROS <= server_us <= TIMESTAMP_MAX_MICROS) {
        Err(ParseError::Timestamp)
    } else {
        Ok(Response { client: ts_from_ns(1000 * client_us), server: ts_from_ns(1000 * server_us) })
    }
}

impl Response {
    /// Serialize to bytes.
    pub fn to_bytes(&self) -> (r: [u8; 16])
        ensures
            r@ == spec_response_bytes(*self),
    {
        let client_us: i64 = self.client.as_microsecond();
        let server_us: i64 = self.server.as_microsecond();
        let c: u64 = client_us as u64;
        let s: u64 = server_us as u64;
        let bytes: [u8; 16] = [
            (c >> 56) as u8,
            (c >> 48) as u8,
            (c >> 40) as u8,
            (c >> 32) as u8,
            (c >> 24) as u8,
            (c >> 16) as u8,
            (c >> 8) as u8,
            c as u8,
            (s >> 56) as u8,
            (s >> 48) as u8,
            (s >> 40) as u8,
            (s >> 32) as u8,
            (s >> 24) as u8,
            (s >> 16) as u8,
            (s >> 8) as u8,
            s as u8,
        ];
        proof {
            assert(bytes@ =~= spec_response_bytes(*self));
        }
        bytes
    }

    /// Deserialize from bytes.
    pub fn from_bytes(bytes: [u8; 16]) -> (r: Result<Response, ParseError>)
        ensures
            r == spec_response_from_bytes(bytes@),
    {
        let c: u64 = ((bytes[0] as u64) << 56) | ((bytes[1] as u64) << 48)
            | ((bytes[2] as u64) << 40) | ((bytes[3] as u64) << 32) | ((bytes[4] as u64) << 24)
            | ((bytes[5] as u64) << 16) | ((bytes[6] as u64) << 8) | (bytes[7] as u64);
        let s: u64 = ((bytes[8] as u64) << 56) | ((bytes[9] as u64) << 48)
            | ((bytes[10] as u64) << 40) | ((bytes[11] as u64) << 32) | ((bytes[12] as u64) << 24)
            | ((bytes[13] as u64) << 16) | ((bytes[14] as u64) << 8) | (bytes[15] as u64);
        proof {
            assert(spec_be_u64(bytes@.subrange(8, 16)) == s) by {
                assert(bytes@.subrange(8, 16)[0] == bytes@[8]);
                assert(bytes@.subrange(8, 16)[1] == bytes@[9]);
                assert(bytes@.subrange(8, 16)[2] == bytes@[10]);
                assert(bytes@.subrange(8, 16)[3] == bytes@[11]);
                assert(bytes@.subrange(8, 16)[4] == bytes@[12]);
                assert(bytes@.subrange(8, 16)[5] == bytes@[13]);
                assert(bytes@.subrange(8, 16)[6] == bytes@[14]);
                assert(bytes@.subrange(8, 16)[7] == bytes@[15]);
            }
        }
        let client_us: i64 = c as i64;
        let server_us: i64 = s as i64;
        let client = match Timestamp::from_microsecond(client_us) {
            Some(t) => t,
            None => {
                return Err(ParseError::Timestamp);
            },
        };
        let server = match Timestamp::from_microsecond(server_us) {
            Some(t) => t,
            None => {
                return Err(ParseError::Timestamp);
            },
        };
        proof {
            lemma_ts_from_ns(1000 * (client_us as int));
            lemma_timestamp_view_injective(client, ts_from_ns(1000 * (client_us as int)));
            lemma_ts_from_ns(1000 * (server_us as int));
            lemma_timestamp_view_injective(server, ts_from_ns(1000 * (server_us as int)));
        }
        Ok(Response { client, server })
    }

    /// Deserialize from the first sixteen bytes of a buffer, ignoring the
    /// rest.
    pub fn from_slice(bytes: &[u8]) -> (r: Result<Response, ParseError>)
        ensures
            bytes@.len() < 16 ==> r == Err::<Response, ParseError>(ParseError::NeedData),
            bytes@.len() >= 16 ==> r == spec_response_from_bytes(bytes@),
    {
        if bytes.len() < 16 {
            return Err(ParseError::NeedData);
        }
        let mut arr: [u8; 16] = [0; 16];
        let mut i: usize = 0;
        while i < 16
            invariant
                i <= 16,
                bytes@.len() >= 16,
                forall|j: int| 0 <= j < i ==> arr@[j] == bytes@[j],
            decreases 16 - i,
        {
            arr[i] = *vstd::slice::slice_index_get(bytes, i);
            i = i + 1;
        }
        let r = Self::from_bytes(arr);
        proof {
            assert(spec_be_u64(arr@) == spec_be_u64(bytes@));
            assert(arr@.subrange(8, 16) =~= bytes@.subrange(8, 16));
        }
        r
    }
}

/// Round-trip law: encoding a request whose timestamp the wire format can
/// carry (a whole number of microseconds within the representable
/// microsecond range) and then decoding the bytes yields the same request.
pub proof fn lemma_request_round_trip(r: Request)
    requires
        r.client@ % 1000 == 0,
        1000 * (TIMESTAMP_MIN_MICROS as int) <= r.client@ <= 1000 * (TIMESTAMP_MAX_MICROS as int),
    ensures
        spec_request_from_bytes(spec_request_bytes(r)) == Ok::<Request, ParseError>(r),
{
    let us = tdiv(r.client@, 1000);
    assert(1000 * us == r.client@);
    lemma_be_round_trip((us as i64) as u64);
    lemma_i64_cast_round_trip(us as i64);
    lemma_ts_from_ns(1000 * us);
    lemma_timestamp_view_injective(ts_from_ns(1000 * us), r.client);
}

/// Round-trip law: encoding a response whose two timestamps the wire format
/// can carry and then decoding the bytes yields the same response.
pub proof fn lemma_response_round_trip(r: Response)
    requires
        r.client@ % 1000 == 0,
        1000 * (TIMESTAMP_MIN_MICROS as int) <= r.client@ <= 1000 * (TIMESTAMP_MAX_MICROS as int),
        r.server@ % 1000 == 0,
        1000 * (TIMESTAMP_MIN_MICROS as int) <= r.server@ <= 1000 * (TIMESTAMP_MAX_MICROS as int),
    ensures
        spec_response_from_bytes(spec_response_bytes(r)) == Ok::<Response, ParseError>(r),
{
    let client_us = tdiv(r.client@, 1000);
    let server_us = tdiv(r.server@, 1000);
    assert(1000 * client_us == r.client@);
    assert(1000 * server_us == r.server@);
    let s = spec_response_bytes(r);
    assert(s.subrange(8, 16) =~= spec_be_bytes((server_us as i64) as u64));
    assert(spec_be_u64(s) == spec_be_u64(spec_be_bytes((client_us as i64) as u64)));
    lemma_be_round_trip((client_us as i64) as u64);
    lemma_i64_cast_round_trip(client_us as i64);
    lemma_be_round_trip((server_us as i64) as u64);
    lemma_i64_cast_round_trip(server_us as i64);
    lemma_ts_from_ns(1000 * client_us);
    lemma_timestamp_view_injective(ts_from_ns(1000 * client_us), r.client);
    lemma_ts_from_ns(1000 * server_us);
    lemma_timestamp_view_injective(ts_from_ns(1000 * server_us), r.server);
}

} // verus!
