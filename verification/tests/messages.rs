//! Wire codec round trips and parse errors.

use std::str::FromStr;

use timesimp::ParseError;
use timesimp::Request;
use timesimp::Response;
use timesimp::Timestamp;

fn microround(ts: Timestamp) -> Timestamp {
    let micros = ts.as_microsecond();
    Timestamp::from_microsecond(micros).unwrap()
}

#[test]
fn round_trip_request() {
    let request = Request {
        client: microround(Timestamp::now()),
    };
    let bytes = request.to_bytes();
    assert_eq!(request, Request::from_slice(&bytes).unwrap());
}

#[test]
fn round_trip_response() {
    let response = Response {
        client: microround(Timestamp::now()),
        server: microround(Timestamp::now()),
    };
    let bytes = response.to_bytes();
    assert_eq!(response, Response::from_slice(&bytes).unwrap());
}

#[test]
fn specific_requests() {
    let micros = jiff::Timestamp::from_str("2025-04-28T03:11:00.564184Z")
        .unwrap()
        .as_microsecond();
    let request = Request {
        client: Timestamp::from_microsecond(micros).unwrap(),
    };
    let bytes = vec![0u8, 6, 51, 206, 8, 149, 148, 216];
    assert_eq!(request, Request::from_slice(&bytes).unwrap());
}

#[test]
fn request_needs_eight_bytes() {
    let bytes = vec![0u8, 1, 2, 3, 4, 5, 6];
    assert_eq!(Request::from_slice(&bytes), Err(ParseError::NeedData));
    assert_eq!(Request::from_slice(&[]), Err(ParseError::NeedData));
}

#[test]
fn response_needs_sixteen_bytes() {
    let bytes = vec![0u8; 15];
    assert_eq!(Response::from_slice(&bytes), Err(ParseError::NeedData));
    let eight = vec![0u8; 8];
    assert_eq!(Response::from_slice(&eight), Err(ParseError::NeedData));
}

#[test]
fn request_rejects_out_of_range_timestamp() {
    // i64::MAX microseconds lies far outside the representable range.
    let bytes = i64::MAX.to_be_bytes();
    assert_eq!(Request::from_slice(&bytes), Err(ParseError::Timestamp));
    let negative = i64::MIN.to_be_bytes();
    assert_eq!(Request::from_slice(&negative), Err(ParseError::Timestamp));
}

#[test]
fn response_rejects_out_of_range_timestamp() {
    let mut bytes = [0u8; 16];
    bytes[8..].copy_from_slice(&i64::MAX.to_be_bytes());
    assert_eq!(Response::from_slice(&bytes), Err(ParseError::Timestamp));
}

#[test]
fn decoding_ignores_trailing_bytes() {
    let request = Request {
        client: Timestamp::from_microsecond(1_234_567).unwrap(),
    };
    let mut buffer = request.to_bytes().to_vec();
    buffer.push(0xAB);
    buffer.push(0xCD);
    assert_eq!(request, Request::from_slice(&buffer).unwrap());

    let response = Response {
        client: Timestamp::from_microsecond(-42).unwrap(),
        server: Timestamp::from_microsecond(99).unwrap(),
    };
    let mut longer = response.to_bytes().to_vec();
    longer.extend_from_slice(&[1, 2, 3, 4]);
    assert_eq!(response, Response::from_slice(&longer).unwrap());
}

#[test]
fn encoding_is_big_endian_microseconds() {
    let request = Request {
        client: Timestamp::from_microsecond(1).unwrap(),
    };
    assert_eq!(request.to_bytes(), [0, 0, 0, 0, 0, 0, 0, 1]);

    let response = Response {
        client: Timestamp::from_microsecond(1).unwrap(),
        server: Timestamp::from_microsecond(256).unwrap(),
    };
    assert_eq!(
        response.to_bytes(),
        [0, 0, 0, 0, 0, 0, 0, 1, 0, 0, 0, 0, 0, 0, 1, 0]
    );
}
