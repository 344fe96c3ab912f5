use span_codec::{DateTime, Span, TraceId};

fn span(bytes: [u8; 16], nanos: i64) -> Span {
    Span { trace_id: TraceId::new(bytes), span_timestamp: DateTime::from_timestamp_nanos(nanos) }
}

#[test]
fn spans_are_equal_field_by_field() {
    let a = span([1u8; 16], 5);
    assert_eq!(a, span([1u8; 16], 5));
    assert_ne!(a, span([1u8; 16], 6));
    assert_ne!(a, span([2u8; 16], 5));
    assert_eq!(a.clone(), a);
}

#[test]
fn spans_are_ordered_by_trace_id_then_instant() {
    assert!(span([1u8; 16], 9) < span([2u8; 16], 0));
    assert!(span([1u8; 16], 0) < span([1u8; 16], 9));
    assert!(span([1u8; 16], -1) < span([1u8; 16], 0));
    let mut bytes = [1u8; 16];
    bytes[15] = 0;
    assert!(span(bytes, i64::MAX) < span([1u8; 16], i64::MIN));
}

#[test]
fn sorting_follows_the_same_order() {
    let mut spans = vec![
        span([2u8; 16], 1),
        span([1u8; 16], 7),
        span([1u8; 16], -7),
        span([0u8; 16], i64::MAX),
    ];
    spans.sort();
    assert_eq!(
        spans,
        vec![
            span([0u8; 16], i64::MAX),
            span([1u8; 16], -7),
            span([1u8; 16], 7),
            span([2u8; 16], 1),
        ]
    );
    for pair in spans.windows(2) {
        assert!(pair[0] < pair[1]);
        assert_eq!(pair[0].partial_cmp(&pair[1]), Some(pair[0].cmp(&pair[1])));
    }
}

#[test]
fn comparing_a_span_with_itself_is_equal() {
    let a = span([3u8; 16], 3);
    assert_eq!(a.partial_cmp(&a), Some(std::cmp::Ordering::Equal));
    assert!(!(a < a));
    assert!(a <= a);
}
