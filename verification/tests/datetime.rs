use span_codec::DateTime;

#[test]
fn nanos_are_kept_verbatim() {
    assert_eq!(DateTime::from_timestamp_nanos(0).into_timestamp_nanos(), 0);
    assert_eq!(DateTime::from_timestamp_nanos(1).into_timestamp_nanos(), 1);
    assert_eq!(DateTime::from_timestamp_nanos(-1).into_timestamp_nanos(), -1);
    assert_eq!(
        DateTime::from_timestamp_nanos(1_700_000_000_000_000_000).into_timestamp_nanos(),
        1_700_000_000_000_000_000
    );
}

#[test]
fn nanos_bounds_are_kept() {
    assert_eq!(DateTime::from_timestamp_nanos(i64::MIN).into_timestamp_nanos(), i64::MIN);
    assert_eq!(DateTime::from_timestamp_nanos(i64::MAX).into_timestamp_nanos(), i64::MAX);
}

#[test]
fn default_is_the_epoch() {
    assert_eq!(DateTime::default().into_timestamp_nanos(), 0);
    assert_eq!(DateTime::default(), DateTime::from_timestamp_nanos(0));
}

#[test]
fn instants_compare_by_their_count() {
    let before = DateTime::from_timestamp_nanos(-5);
    let epoch = DateTime::from_timestamp_nanos(0);
    let after = DateTime::from_timestamp_nanos(5);
    assert!(before < epoch);
    assert!(epoch < after);
    assert!(DateTime::from_timestamp_nanos(i64::MIN) < DateTime::from_timestamp_nanos(i64::MAX));
    assert_eq!(after, DateTime::from_timestamp_nanos(5));
    assert_ne!(after, before);
}

#[test]
fn instants_are_equal_where_their_counts_are() {
    for (a, b) in [(5i64, 5i64), (5, 6), (-1, 1), (i64::MIN, i64::MIN), (i64::MIN, i64::MAX)] {
        let left = DateTime::from_timestamp_nanos(a);
        let right = DateTime::from_timestamp_nanos(b);
        assert_eq!(left == right, a == b);
        assert_eq!(left.cmp(&right), a.cmp(&b));
        assert_eq!(left.partial_cmp(&right), Some(a.cmp(&b)));
    }
}
