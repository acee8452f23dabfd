use opendal_remote::config::{size_field, Throttle, ThrottleError};

#[test]
fn parses_bandwidth_and_burst() {
    let t: Throttle = "10kiB,10MB".parse().unwrap();
    assert_eq!(t, Throttle { bandwidth: 10240, burst: 10_000_000 });
}

#[test]
fn inherent_from_str_agrees() {
    let t = Throttle::from_str("10kiB,10MB").unwrap();
    assert_eq!(t, Throttle { bandwidth: 10240, burst: 10_000_000 });
}

#[test]
fn plain_numbers_and_white_space() {
    let t = Throttle::from_str("  1024 ,\t2048  ").unwrap();
    assert_eq!(t, Throttle { bandwidth: 1024, burst: 2048 });
}

#[test]
fn extra_fields_are_ignored() {
    let t = Throttle::from_str("1,2,not a size").unwrap();
    assert_eq!(t, Throttle { bandwidth: 1, burst: 2 });
}

#[test]
fn missing_burst() {
    assert!(matches!(Throttle::from_str("10kiB"), Err(ThrottleError::MissingBurst)));
    assert!(matches!(Throttle::from_str(""), Err(ThrottleError::InvalidSize(_))));
}

#[test]
fn bad_bandwidth_is_reported_first() {
    assert!(matches!(Throttle::from_str("abc,def"), Err(ThrottleError::InvalidSize(_))));
    assert!(matches!(Throttle::from_str("abc"), Err(ThrottleError::InvalidSize(_))));
}

#[test]
fn bad_burst() {
    assert!(matches!(Throttle::from_str("1,zz"), Err(ThrottleError::InvalidSize(_))));
}

#[test]
fn too_large_for_u32() {
    match Throttle::from_str("5GiB,1") {
        Err(ThrottleError::OutOfRange(n)) => assert_eq!(n, 5 * 1024 * 1024 * 1024),
        other => panic!("unexpected {other:?}"),
    }
    assert!(matches!(Throttle::from_str("1,4294967296"), Err(ThrottleError::OutOfRange(4294967296))));
    assert_eq!(
        Throttle::from_str("4294967295,1").unwrap(),
        Throttle { bandwidth: u32::MAX, burst: 1 }
    );
}

#[test]
fn size_field_values() {
    assert_eq!(size_field(Ok(7)).unwrap(), 7);
    assert_eq!(size_field(Ok(4294967295)).unwrap(), u32::MAX);
    assert!(matches!(size_field(Ok(4294967296)), Err(ThrottleError::OutOfRange(4294967296))));
    match size_field(Err("bad".to_string())) {
        Err(ThrottleError::InvalidSize(m)) => assert_eq!(m, "bad"),
        other => panic!("unexpected {other:?}"),
    }
}

#[test]
fn setters() {
    let t = Throttle { bandwidth: 1, burst: 2 };
    assert_eq!(t.bandwidth(5), Throttle { bandwidth: 5, burst: 2 });
    assert_eq!(t.burst(9), Throttle { bandwidth: 1, burst: 9 });
}
