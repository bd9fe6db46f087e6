//! Settings normalization.

use timesimp::Settings;

#[test]
fn default_settings() {
    let s = Settings::default();
    assert_eq!(s.samples, 5);
    assert_eq!(s.jitter, 2_000_000_000);
}

#[test]
fn even_samples_become_odd() {
    let s = Settings { samples: 10, jitter: 2_000_000_000 };
    assert_eq!(s.clamp().samples, 11);
}

#[test]
fn samples_clamp_to_at_least_three() {
    let zero = Settings { samples: 0, jitter: 2_000_000_000 };
    assert_eq!(zero.clamp().samples, 3);
    let one = Settings { samples: 1, jitter: 2_000_000_000 };
    assert_eq!(one.clamp().samples, 3);
    let two = Settings { samples: 2, jitter: 2_000_000_000 };
    assert_eq!(two.clamp().samples, 3);
}

#[test]
fn samples_saturate_at_the_top() {
    let even_top = Settings { samples: 254, jitter: 2_000_000_000 };
    assert_eq!(even_top.clamp().samples, 255);
    let top = Settings { samples: 255, jitter: 2_000_000_000 };
    assert_eq!(top.clamp().samples, 255);
}

#[test]
fn jitter_clamps_to_range() {
    let low = Settings { samples: 5, jitter: 0 };
    assert_eq!(low.clamp().jitter, 10_000);
    let below = Settings { samples: 5, jitter: 9_999 };
    assert_eq!(below.clamp().jitter, 10_000);
    let high = Settings { samples: 5, jitter: u64::MAX };
    assert_eq!(high.clamp().jitter, 10_000_000_000);
    let inside = Settings { samples: 5, jitter: 123_456_789 };
    assert_eq!(inside.clamp().jitter, 123_456_789);
}

#[test]
fn clamp_is_idempotent() {
    let cases = [
        Settings { samples: 0, jitter: 0 },
        Settings { samples: 4, jitter: 9_999 },
        Settings { samples: 5, jitter: 2_000_000_000 },
        Settings { samples: 254, jitter: u64::MAX },
        Settings { samples: 255, jitter: 10_000_000_001 },
    ];
    for s in cases {
        assert_eq!(s.clamp().clamp(), s.clamp());
    }
}
