use waitforit::Moment;
use waitforit::Span;
use waitforit::Stamp;

#[test]
fn span_from_secs_counts_nanoseconds() {
    assert_eq!(Span::from_secs(0), Span { nanos: 0 });
    assert_eq!(Span::from_secs(1), Span { nanos: 1_000_000_000 });
    assert_eq!(Span::from_secs(u64::MAX), Span { nanos: 18_446_744_073_709_551_615_000_000_000 });
}

#[test]
fn moment_checked_add() {
    let start = Moment { nanos: 5 };
    assert_eq!(start.checked_add(Span { nanos: 7 }), Some(Moment { nanos: 12 }));
    assert_eq!(start.checked_add(Span { nanos: u128::MAX - 5 }), Some(Moment { nanos: u128::MAX }));
    assert_eq!(start.checked_add(Span { nanos: u128::MAX - 4 }), None);
}

#[test]
fn stamp_since_is_the_difference() {
    let at = |nanos: i128| Stamp { nanos };
    assert_eq!(at(10).since(at(3)), Some(Span { nanos: 7 }));
    assert_eq!(at(10).since(at(10)), Some(Span { nanos: 0 }));
    assert_eq!(at(10).since(at(11)), None);
    assert_eq!(at(-3).since(at(-10)), Some(Span { nanos: 7 }));
    assert_eq!(at(-10).since(at(-3)), None);
    assert_eq!(at(4).since(at(-6)), Some(Span { nanos: 10 }));
    assert_eq!(at(0).since(at(-1)), Some(Span { nanos: 1 }));
    assert_eq!(at(-1).since(at(0)), None);
}

#[test]
fn stamp_since_at_the_ends_of_the_range() {
    let at = |nanos: i128| Stamp { nanos };
    assert_eq!(at(i128::MAX).since(at(i128::MIN)), Some(Span { nanos: u128::MAX }));
    assert_eq!(at(i128::MAX).since(at(0)), Some(Span { nanos: i128::MAX as u128 }));
    assert_eq!(at(0).since(at(i128::MIN)), Some(Span { nanos: 1 << 127 }));
    assert_eq!(at(-1).since(at(i128::MIN)), Some(Span { nanos: i128::MAX as u128 }));
    assert_eq!(at(i128::MIN).since(at(i128::MIN)), Some(Span { nanos: 0 }));
    assert_eq!(at(i128::MIN).since(at(i128::MAX)), None);
}
