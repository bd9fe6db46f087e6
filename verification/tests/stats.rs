//! The statistical reduction.

use timesimp::stats::reduce_samples;
use timesimp::stats::sort_by_latency;
use timesimp::Delta;
use timesimp::Response;
use timesimp::SignedDuration;
use timesimp::Timestamp;

/// A sample with the given latency and offset estimate, in nanoseconds.
fn sample(latency_ns: i64, delta_ns: i64) -> Delta {
    let client = Timestamp::new(0, 0).unwrap();
    let current = Timestamp::from_nanosecond(2 * latency_ns as i128).unwrap();
    let server = Timestamp::from_nanosecond(latency_ns as i128 + delta_ns as i128).unwrap();
    Delta::new(Response { client, server }, current).unwrap()
}

const MILLI: i64 = 1_000_000;

#[test]
fn averages_inliers_of_the_latency_ranked_median() {
    // Arrival order pairs (latency, delta): sorted by latency the deltas
    // read 1, 2, 3, 4, 5 ms. The median is 3 ms; the sample variance of the
    // five values is 2.5 ms^2, so 1 ms and 5 ms fall outside one standard
    // deviation of the median and the mean of the inliers is 3 ms.
    let samples = vec![
        sample(50, 5 * MILLI),
        sample(10, 1 * MILLI),
        sample(30, 3 * MILLI),
        sample(20, 2 * MILLI),
        sample(40, 4 * MILLI),
    ];
    assert_eq!(
        reduce_samples(samples),
        Some(SignedDuration::from_micros(3000))
    );
}

#[test]
fn even_counts_drop_the_first_collected_sample() {
    // Four samples: the first-collected one (delta 10 ms) is dropped to
    // restore an odd count, leaving 1, 2, 3 ms, all inliers, mean 2 ms.
    let samples = vec![
        sample(1, 10 * MILLI),
        sample(2, 1 * MILLI),
        sample(3, 2 * MILLI),
        sample(4, 3 * MILLI),
    ];
    assert_eq!(
        reduce_samples(samples),
        Some(SignedDuration::from_micros(2000))
    );
}

#[test]
fn fewer_than_three_samples_give_no_result() {
    assert_eq!(reduce_samples(vec![]), None);
    assert_eq!(reduce_samples(vec![sample(1, MILLI)]), None);
    // Two samples: the parity drop leaves one.
    assert_eq!(reduce_samples(vec![sample(1, MILLI), sample(2, MILLI)]), None);
}

#[test]
fn sub_millisecond_deltas_average_in_nanoseconds() {
    // In whole milliseconds all three estimates are 0, so all are inliers;
    // the mean is still taken over the nanosecond values: 2000 ns, truncated
    // to 2 us.
    let samples = vec![sample(1, 1000), sample(2, 2000), sample(3, 3000)];
    assert_eq!(reduce_samples(samples), Some(SignedDuration::from_micros(2)));
}

#[test]
fn final_offset_truncates_toward_zero() {
    // Mean of the three estimates is -1500 ns: truncating toward zero gives
    // -1 us, not -2.
    let samples = vec![sample(1, -1500), sample(2, -1500), sample(3, -1500)];
    assert_eq!(reduce_samples(samples), Some(SignedDuration::from_micros(-1)));
}

#[test]
fn sort_orders_by_latency_and_keeps_arrival_order_of_ties() {
    let a = sample(20, 1);
    let b = sample(10, 2);
    let c = sample(10, 3);
    let d = sample(30, 4);
    let sorted = sort_by_latency(vec![a, b, c, d]);
    assert_eq!(sorted, vec![b, c, a, d]);
}
