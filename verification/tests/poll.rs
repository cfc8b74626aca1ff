use waitforit::pace;
use waitforit::Pace;
use waitforit::Span;

#[test]
fn pace_is_done_once_met() {
    assert_eq!(pace(true, Span::from_secs(1), Span { nanos: 0 }), Pace::Done);
    assert_eq!(pace(true, Span::from_secs(1), Span::from_secs(5)), Pace::Done);
    assert_eq!(pace(true, Span { nanos: 0 }, Span { nanos: 0 }), Pace::Done);
}

#[test]
fn pace_sleeps_the_rest_of_the_interval() {
    assert_eq!(
        pace(false, Span::from_secs(1), Span { nanos: 250_000_000 }),
        Pace::Sleep(Span { nanos: 750_000_000 })
    );
    assert_eq!(pace(false, Span::from_secs(1), Span { nanos: 0 }), Pace::Sleep(Span::from_secs(1)));
    assert_eq!(
        pace(false, Span::from_secs(1), Span { nanos: 999_999_999 }),
        Pace::Sleep(Span { nanos: 1 })
    );
}

#[test]
fn pace_never_sleeps_after_a_slow_pass() {
    assert_eq!(pace(false, Span::from_secs(1), Span::from_secs(1)), Pace::Again);
    assert_eq!(pace(false, Span::from_secs(1), Span::from_secs(30)), Pace::Again);
    assert_eq!(pace(false, Span { nanos: 0 }, Span { nanos: 0 }), Pace::Again);
}
