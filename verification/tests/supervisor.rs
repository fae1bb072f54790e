use std::time::Duration;

use rubix_server::supervisor::backoff::Backoff;

#[test]
fn ceiling_doubles_then_caps() {
    let b = Backoff {
        base: Duration::from_millis(500),
        max: Duration::from_secs(30),
    };
    assert_eq!(b.ceiling(0), Duration::from_millis(500));
    assert_eq!(b.ceiling(1), Duration::from_secs(1));
    assert_eq!(b.ceiling(2), Duration::from_secs(2));
    // 500ms << 6 = 32s, capped to 30s.
    assert_eq!(b.ceiling(6), Duration::from_secs(30));
    assert_eq!(b.ceiling(1000), Duration::from_secs(30));
}

#[test]
fn default_backoff_is_half_a_second_up_to_thirty() {
    let b = Backoff::default();
    assert_eq!(b.base, Duration::from_millis(500));
    assert_eq!(b.max, Duration::from_secs(30));
    assert_eq!(b.ceiling(3), Duration::from_secs(4));
}

#[test]
fn overflowing_product_saturates_at_the_cap() {
    let b = Backoff {
        base: Duration::from_secs(u64::MAX / 2),
        max: Duration::from_secs(10),
    };
    assert_eq!(b.ceiling(31), Duration::from_secs(10));
    let c = Backoff { base: Duration::from_secs(1), max: Duration::MAX };
    assert_eq!(c.ceiling(40), Duration::from_secs(1 << 31));
}

#[test]
fn ceiling_below_base_cap_wins() {
    let b = Backoff { base: Duration::from_secs(5), max: Duration::from_secs(2) };
    assert_eq!(b.ceiling(0), Duration::from_secs(2));
}
