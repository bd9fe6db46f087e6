//! Per-sample delta calculation.

use timesimp::Delta;
use timesimp::Response;
use timesimp::SignedDuration;
use timesimp::Timestamp;

fn busy_wait_millis(millis: u64) {
    let start = std::time::Instant::now();
    let target = std::time::Duration::from_millis(millis);
    while start.elapsed() < target {}
}

#[test]
fn client_ahead_of_server() {
    /*
        c=3 | \   |
            |  \  |
            | 3 \ |
            |    \|
        c=6 |-----| s=2
        s=2 |    /|       -- offset=-4
            | 3 / |
            |  /  |
            | /   |
            |/    |
    */

    let client_time = Timestamp::new(0, 300).unwrap();
    let server_time = Timestamp::new(0, 200).unwrap();
    let round_trip = SignedDuration::from_nanos(600);

    let response = Response {
        client: client_time,
        server: server_time,
    };

    let processed = Delta::new(response, client_time.checked_add(round_trip).unwrap()).unwrap();

    assert_eq!(processed.latency(), SignedDuration::from_nanos(300), "latency");
    assert_eq!(processed.delta(), SignedDuration::from_nanos(-400), "delta");
}

#[test]
fn client_behind_server() {
    /*
        c=5 | \   |
            |  \  |
            | 4 \ |
            |    \|
        c=9 |-----| s=12
        s=12|    /|       -- offset=+3
            | 4 / |
            |  /  |
            | /   |
            |/    |
    */

    let client_time = Timestamp::new(0, 500).unwrap();
    let server_time = Timestamp::new(0, 1200).unwrap();
    let round_trip = SignedDuration::from_nanos(800);

    let response = Response {
        client: client_time,
        server: server_time,
    };

    let processed = Delta::new(response, client_time.checked_add(round_trip).unwrap()).unwrap();

    assert_eq!(processed.latency(), SignedDuration::from_nanos(400), "latency");
    assert_eq!(processed.delta(), SignedDuration::from_nanos(300), "delta");
}

#[test]
fn client_equal_server() {
    /*
        c=5 | \   |
            |  \  |
            | 2 \ |
            |    \|
        c=7 |-----| s=7
        s=7 |    /|       -- offset=0
            | 2 / |
            |  /  |
            | /   |
            |/    |
    */

    let client_time = Timestamp::new(0, 500).unwrap();
    let server_time = Timestamp::new(0, 700).unwrap();
    let round_trip = SignedDuration::from_nanos(400);

    let response = Response {
        client: client_time,
        server: server_time,
    };

    let processed = Delta::new(response, client_time.checked_add(round_trip).unwrap()).unwrap();

    assert_eq!(processed.latency(), SignedDuration::from_nanos(200), "latency");
    assert_eq!(processed.delta(), SignedDuration::from_nanos(0), "delta");
}

#[test]
fn clock_went_backwards() {
    let sent_time = Timestamp::new(0, 500).unwrap();
    let server_time = Timestamp::new(0, 700).unwrap();
    let arrive_time = Timestamp::new(0, 200).unwrap();

    let response = Response {
        client: sent_time,
        server: server_time,
    };

    let proc = Delta::new(response, arrive_time);
    assert!(proc.is_none(), "{proc:?}");
}

#[test]
fn with_sleep() {
    let sent_time = Timestamp::now();
    busy_wait_millis(10);
    let server_time = Timestamp::now();
    busy_wait_millis(10);
    let arrive_time = Timestamp::now();

    let response = Response {
        client: sent_time,
        server: server_time,
    };

    let processed = Delta::new(response, arrive_time).unwrap();

    assert!(
        processed.latency() > SignedDuration::from_millis(9)
            && processed.latency() < SignedDuration::from_millis(11),
        "latency {:?}",
        processed.latency()
    );
    assert!(
        processed.delta() >= SignedDuration::from_micros(-100)
            && processed.delta() <= SignedDuration::from_micros(100),
        "delta {:?}",
        processed.delta()
    );
}
