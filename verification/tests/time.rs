use sep2_client::time::{current_time, current_time_with_offset, time_offset, SEPTime};

#[test]
fn septime_add() {
    let earlier = current_time().add_secs(-100i64);
    assert!(earlier < current_time());
    let later = current_time().add_secs(100i64);
    assert!(later > current_time());
}

#[test]
fn septime_offset() {
    // A server whose clock reads 100 seconds ahead of ours.
    let server_time = current_time().add_secs(100).unix_secs_i64();
    let offset = time_offset(server_time, current_time());
    assert!(current_time_with_offset(offset).unwrap() > current_time());
}

#[test]
fn offset_reads_server_time() {
    let local = SEPTime::from_parts(1_700_000_000, 5);
    let offset = time_offset(1_700_000_360, local);
    assert_eq!(offset, 360);
    assert_eq!(local.add_secs(offset).secs(), 1_700_000_360);
    assert_eq!(local.add_secs(offset).subsec_nanos(), 5);
}

#[test]
fn septime_order_uses_nanoseconds() {
    let a = SEPTime::from_parts(10, 1);
    let b = SEPTime::from_parts(10, 2);
    let c = SEPTime::from_parts(11, 0);
    assert!(a < b && b < c && a < c);
    assert!(a.is_before(&b));
    assert!(!b.is_before(&a));
    assert_eq!(a, SEPTime::from_parts(10, 1));
}

#[test]
fn septime_checked_add_overflows() {
    let t = SEPTime::from_parts(i64::MAX - 1, 0);
    assert!(t.checked_add_secs(1).is_some());
    assert!(t.checked_add_secs(2).is_none());
    assert_eq!(SEPTime::from_parts(-5, 0).checked_add_secs(i64::MIN), None);
}

#[test]
fn septime_unix_secs() {
    let t = SEPTime::from_parts(1_379_905_200, 999_999_999);
    assert_eq!(t.unix_secs(), 1_379_905_200u64);
    assert_eq!(t.unix_secs_i64(), 1_379_905_200i64);
}

#[test]
fn current_time_is_after_epoch() {
    let now = current_time();
    assert!(now.secs() > 1_600_000_000);
    assert!(now.subsec_nanos() < 1_000_000_000);
}

#[test]
fn clock_readings_become_times() {
    let t = SEPTime::from_clock(true, 1_700_000_000, 5);
    assert_eq!((t.secs(), t.subsec_nanos()), (1_700_000_000, 5));
    let t = SEPTime::from_clock(false, 10, 0);
    assert_eq!((t.secs(), t.subsec_nanos()), (-10, 0));
    let t = SEPTime::from_clock(false, 10, 250_000_000);
    assert_eq!((t.secs(), t.subsec_nanos()), (-11, 750_000_000));
    let t = SEPTime::from_clock(true, u64::MAX, 1);
    assert_eq!((t.secs(), t.subsec_nanos()), (i64::MAX, 1));
    let t = SEPTime::from_clock(false, u64::MAX, 1);
    assert_eq!((t.secs(), t.subsec_nanos()), (i64::MIN, 0));
}

#[test]
fn zero_offset_always_succeeds() {
    assert!(current_time_with_offset(0).is_some());
    assert!(current_time_with_offset(i64::MAX).is_none());
}

#[test]
fn offset_follows_server_clock() {
    let then = SEPTime::from_parts(1_000, 0);
    let offset = time_offset(5_000, then);
    let later = SEPTime::from_parts(1_060, 7);
    let moved = later.add_secs(offset);
    assert_eq!((moved.secs(), moved.subsec_nanos()), (5_060, 7));
}
