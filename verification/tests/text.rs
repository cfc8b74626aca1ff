use waitforit::parse_duration;
use waitforit::parse_http_get;
use waitforit::split_http_get;
use waitforit::url_or_raw;
use waitforit::validate_tcp;
use waitforit::Span;

#[test]
fn valid_tcp() {
    assert!(validate_tcp("localhost:80"));
    assert!(!validate_tcp("localhost"));

    assert!(validate_tcp("127.0.0.1:80"));
    assert!(!validate_tcp("127.0.0.1"));

    assert!(validate_tcp("127.0.0.1:8000"));
    assert!(validate_tcp("127.0.0.1:65534"));
    assert!(validate_tcp("127.0.0.1:65535"));
    assert!(!validate_tcp("127.0.0.1:65536"));
    assert!(!validate_tcp("127.0.0.1:-1"));
}

#[test]
fn tcp_takes_the_last_colon() {
    assert!(validate_tcp("[::1]:80"));
    assert!(validate_tcp("a:b:443"));
    assert!(!validate_tcp("a:443:b"));
    assert!(validate_tcp(":80"));
    assert!(!validate_tcp("host:"));
    assert!(!validate_tcp(":"));
    assert!(!validate_tcp(""));
}

#[test]
fn tcp_port_is_read_as_the_standard_library_reads_it() {
    for text in ["0", "80", "+80", "080", "0000000000000000000065535", "65535", "+65535"] {
        assert!(text.parse::<u16>().is_ok());
        assert!(validate_tcp(&format!("host:{text}")), "{text}");
    }
    for text in [
        "", "+", "-", "-0", "-1", "++1", "+-1", " 80", "80 ", "8 0", "0x50", "1_000", "65536",
        "+65536", "99999", "655350", "4294967296", "18446744073709551616", "٣", "８０", "80a",
    ] {
        assert!(text.parse::<u16>().is_err());
        assert!(!validate_tcp(&format!("host:{text}")), "{text}");
    }
}

#[test]
fn tcp_host_may_hold_any_characters() {
    assert!(validate_tcp("bücher.example:8080"));
    assert!(!validate_tcp("bücher.example:８０"));
    assert!(validate_tcp("東京:1"));
}

#[test]
fn duration_examples() {
    assert_eq!(parse_duration("3h10m"), Some(Span::from_secs(11400)));
    assert_eq!(parse_duration("90"), Some(Span::from_secs(90)));
    assert_eq!(parse_duration("1x"), None);
}

#[test]
fn duration_of_the_empty_text_is_zero() {
    assert_eq!(parse_duration(""), Some(Span { nanos: 0 }));
}

#[test]
fn duration_units() {
    assert_eq!(parse_duration("1d"), Some(Span::from_secs(86400)));
    assert_eq!(parse_duration("1h"), Some(Span::from_secs(3600)));
    assert_eq!(parse_duration("1m"), Some(Span::from_secs(60)));
    assert_eq!(parse_duration("1s"), Some(Span::from_secs(1)));
    assert_eq!(parse_duration("1d1h1m1s"), Some(Span::from_secs(86400 + 3600 + 60 + 1)));
    assert_eq!(parse_duration("2d3h4m5s"), Some(Span { nanos: 183_845_000_000_000 }));
}

#[test]
fn duration_digits_without_a_unit_are_seconds() {
    assert_eq!(parse_duration("1h1"), Some(Span::from_secs(3601)));
    assert_eq!(parse_duration("2m30"), Some(Span::from_secs(150)));
    assert_eq!(parse_duration("007"), Some(Span::from_secs(7)));
}

#[test]
fn duration_unit_uses_up_the_number_before_it() {
    // A unit with no number before it adds nothing.
    assert_eq!(parse_duration("h"), Some(Span { nanos: 0 }));
    assert_eq!(parse_duration("5mm"), Some(Span::from_secs(300)));
    assert_eq!(parse_duration("dhms"), Some(Span { nanos: 0 }));
    // Units may come in any order and more than once.
    assert_eq!(parse_duration("10s1h10s"), Some(Span::from_secs(3620)));
}

#[test]
fn duration_with_any_other_character_is_none() {
    for text in ["1x", "x", "1 h", " 1h", "1h ", "1H", "1.5h", "-1s", "+1s", "1,000s", "１s", "1µ"] {
        assert_eq!(parse_duration(text), None, "{text}");
    }
    // Also where the character comes after a number that is too large.
    assert_eq!(parse_duration("999999999999999999999999999999999999999999x"), None);
}

#[test]
fn duration_too_long_for_a_span_is_none() {
    // u128::MAX nanoseconds are 340282366920938463463374607431 seconds and a rest.
    assert_eq!(
        parse_duration("340282366920938463463374607431"),
        Some(Span { nanos: 340282366920938463463374607431_000_000_000 })
    );
    assert_eq!(parse_duration("340282366920938463463374607432"), None);
    assert_eq!(parse_duration("340282366920938463463374607431s1"), None);
    assert_eq!(parse_duration("999999999999999999999999999999999999999999"), None);
    assert_eq!(parse_duration("99999999999999999999999999999999999d"), None);
    assert_eq!(parse_duration("3938453320844195178974243141571391d"), None);
    assert_eq!(
        parse_duration("3938453320844195178974243d"),
        Some(Span { nanos: 3938453320844195178974243 * 86400 * 1_000_000_000 })
    );
}

#[test]
fn http_get_splits_off_a_status() {
    assert_eq!(split_http_get("404,http://example.com"), (404, "http://example.com"));
    assert_eq!(split_http_get("000,x"), (0, "x"));
    assert_eq!(split_http_get("999,x"), (999, "x"));
    assert_eq!(split_http_get("201,,"), (201, ","));
    assert_eq!(split_http_get("301,é"), (301, "é"));
}

#[test]
fn http_get_without_a_status_asks_for_200() {
    for text in [
        "", "2", "200", "200,", "http://example.com", "20,http://example.com",
        "2000,http://example.com", "20x,http://example.com", "200;http://example.com",
        " 200,http://example.com", "+20,http://example.com", "٣٣٣,http://example.com",
        "２００,http://example.com",
    ] {
        assert_eq!(split_http_get(text), (200, text), "{text}");
    }
}

#[test]
fn url_or_raw_prefers_the_normal_form() {
    assert_eq!(url_or_raw(Some("http://example.com/".to_string()), "http://example.com"), "http://example.com/");
    assert_eq!(url_or_raw(None, "no url"), "no url");
    assert_eq!(url_or_raw(Some(String::new()), "raw"), "");
}

#[test]
fn http_get_normalizes_the_url() {
    assert_eq!(parse_http_get("http://example.com"), (200, "http://example.com/".to_string()));
    assert_eq!(
        parse_http_get("404,HTTP://EXAMPLE.COM/a/../b"),
        (404, "http://example.com/b".to_string())
    );
    assert_eq!(
        parse_http_get("503,https://example.com:443/x y"),
        (503, "https://example.com/x%20y".to_string())
    );
}

#[test]
fn http_get_keeps_what_is_no_url() {
    assert_eq!(parse_http_get("example.com"), (200, "example.com".to_string()));
    assert_eq!(parse_http_get("500,not a url"), (500, "not a url".to_string()));
    assert_eq!(parse_http_get("200,"), (200, "200,".to_string()));
    assert_eq!(parse_http_get(""), (200, String::new()));
}
