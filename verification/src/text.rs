//! The small text formats of the command line: durations, `host:port`
//! pairs and HTTP targets.

use crate::time::Span;
use crate::time::NANOS_PER_SEC;
use vstd::prelude::*;
use vstd::string::StrSliceExecFns;

verus! {

/// Whether `c` is one of the ten decimal digits of ASCII.
pub open spec fn is_digit(c: char) -> bool {
    '0' <= c <= '9'
}

/// The number that the digit `c` stands for.
pub open spec fn digit_value(c: char) -> nat
    recommends
        is_digit(c),
{
    (c as int - '0' as int) as nat
}

/// The number that a run of decimal digits writes, most significant first.
/// The empty run writes zero.
pub open spec fn decimal_value(digits: Seq<char>) -> nat
    decreases digits.len(),
{
    if digits.len() == 0 {
        0
    } else {
        decimal_value(digits.drop_last()) * 10 + digit_value(digits.last())
    }
}

/// Whether every character of `s` is a decimal digit.
pub open spec fn all_digits(s: Seq<char>) -> bool {
    forall|i: int| 0 <= i < s.len() ==> is_digit(#[trigger] s[i])
}

/// The seconds in one unit of a duration: days, hours, minutes, seconds.
/// Zero for a character that names no unit.
pub open spec fn unit_seconds(c: char) -> nat {
    if c == 'd' {
        86400
    } else if c == 'h' {
        3600
    } else if c == 'm' {
        60
    } else if c == 's' {
        1
    } else {
        0
    }
}

/// Whether `c` names a unit of a duration.
pub open spec fn is_unit(c: char) -> bool {
    c == 'd' || c == 'h' || c == 'm' || c == 's'
}

/// A duration is written with digits and unit letters and nothing else.
pub open spec fn duration_well_formed(s: Seq<char>) -> bool {
    forall|i: int| 0 <= i < s.len() ==> is_digit(#[trigger] s[i]) || is_unit(s[i])
}

/// Reading `s` from the left: the seconds that the units seen so far have
/// settled, and the number that the digits since the last unit write.
pub open spec fn duration_scan(s: Seq<char>) -> (nat, nat)
    decreases s.len(),
{
    if s.len() == 0 {
        (0, 0)
    } else {
        let (settled, pending) = duration_scan(s.drop_last());
        let c = s.last();
        if is_digit(c) {
            (settled, pending * 10 + digit_value(c))
        } else {
            (settled + pending * unit_seconds(c), 0)
        }
    }
}

/// The seconds that the duration `s` comes to: each number times its unit,
/// and digits that no unit follows counted as seconds.
pub open spec fn duration_seconds(s: Seq<char>) -> nat {
    duration_scan(s).0 + duration_scan(s).1
}

/// What `parse_duration` returns for `s`.
pub open spec fn duration_value(s: Seq<char>) -> Option<Span> {
    if duration_well_formed(s) && duration_seconds(s) * NANOS_PER_SEC <= u128::MAX {
        Some(Span { nanos: (duration_seconds(s) * NANOS_PER_SEC) as u128 })
    } else {
        None
    }
}

/// A duration is the sum of its terms. After a text `s` that leaves no
/// digits waiting for a unit, a run of digits counts as so many seconds
/// where the text ends with it, and as so many of the unit where one
/// follows.
pub proof fn lemma_duration_term(s: Seq<char>, digits: Seq<char>, unit: char)
    requires
        duration_scan(s).1 == 0,
        all_digits(digits),
        is_unit(unit),
    ensures
        duration_scan(s + digits) == (duration_scan(s).0, decimal_value(digits)),
        duration_seconds(s + digits) == duration_seconds(s) + decimal_value(digits),
        duration_seconds(s + digits.push(unit)) == duration_seconds(s) + decimal_value(digits)
            * unit_seconds(unit),
        duration_scan(s + digits.push(unit)).1 == 0,
    decreases digits.len(),
{
    let whole = s + digits;
    if digits.len() == 0 {
        assert(whole =~= s);
    } else {
        lemma_duration_term(s, digits.drop_last(), unit);
        assert(whole.drop_last() =~= s + digits.drop_last());
        assert(whole.last() == digits.last());
        assert(is_digit(digits[digits.len() - 1]));
    }
    let term = s + digits.push(unit);
    assert(term.drop_last() =~= whole);
    assert(term.last() == unit);
}

/// In a well-formed duration, what a prefix comes to never exceeds what the
/// whole comes to.
pub proof fn lemma_duration_prefix(s: Seq<char>, k: int)
    requires
        duration_well_formed(s),
        0 <= k <= s.len(),
    ensures
        duration_seconds(s.take(k)) <= duration_seconds(s),
    decreases s.len() - k,
{
    if k == s.len() {
        assert(s.take(k) =~= s);
    } else {
        lemma_duration_prefix(s, k + 1);
        let longer = s.take(k + 1);
        assert(longer.drop_last() =~= s.take(k));
        assert(longer.last() == s[k]);
        let (settled, pending) = duration_scan(s.take(k));
        if !is_digit(s[k]) {
            assert(is_unit(s[k]));
            assert(pending * unit_seconds(s[k]) >= pending) by (nonlinear_arith)
                requires
                    unit_seconds(s[k]) >= 1,
            ;
        }
    }
}

/// Parses a duration such as `3h10m`: numbers, each followed by one of the
/// units `d`, `h`, `m`, `s`; digits at the end that no unit follows count as
/// seconds, and the empty text is the empty span.
///
/// Returns `None` where the text holds any other character, and where the
/// sum is more than a `Span` can hold.
pub fn parse_duration(duration: &str) -> (parsed: Option<Span>)
    ensures
        parsed == duration_value(duration@),
{
    let n = duration.unicode_len();
    let mut settled: u128 = 0;
    let mut pending: u128 = 0;
    let mut i: usize = 0;
    while i < n
        invariant
            n == duration@.len(),
            0 <= i <= n,
            duration_well_formed(duration@.take(i as int)),
            duration_scan(duration@.take(i as int)) == (settled as nat, pending as nat),
        decreases n - i,
    {
        let c = duration.get_char(i);
        let ghost before = duration@.take(i as int);
        let ghost upto = duration@.take(i + 1);
        proof {
            assert(upto.drop_last() =~= before);
            assert(upto.last() == c);
            if duration_well_formed(duration@) {
                lemma_duration_prefix(duration@, i + 1);
            }
        }
        if '0' <= c && c <= '9' {
            let digit: u128 = (c as u32 - '0' as u32) as u128;
            let grown = match pending.checked_mul(10) {
                Some(tens) => tens.checked_add(digit),
                None => None,
            };
            match grown {
                Some(value) => {
                    pending = value;
                },
                None => {
                    return None;
                },
            }
        } else if c == 'd' || c == 'h' || c == 'm' || c == 's' {
            let unit: u128 = if c == 'd' {
                86400
            } else if c == 'h' {
                3600
            } else if c == 'm' {
                60
            } else {
                1
            };
            let sum = match pending.checked_mul(unit) {
                Some(seconds) => settled.checked_add(seconds),
                None => None,
            };
            match sum {
                Some(value) => {
                    settled = value;
                    pending = 0;
                },
                None => {
                    return None;
                },
            }
        } else {
            assert(!is_digit(duration@[i as int]) && !is_unit(duration@[i as int]));
            return None;
        }
        i = i + 1;
        assert forall|j: int| 0 <= j < upto.len() implies is_digit(#[trigger] upto[j]) || is_unit(
            upto[j],
        ) by {
            if j < i - 1 {
                assert(upto[j] == before[j]);
            }
        }
    }
    proof {
        assert(duration@.take(n as int) =~= duration@);
    }
    let total = match settled.checked_add(pending) {
        Some(seconds) => seconds.checked_mul(NANOS_PER_SEC),
        None => None,
    };
    match total {
        Some(nanos) => Some(Span { nanos }),
        None => None,
    }
}

/// Whether `s` writes an unsigned 16-bit integer the way the standard library
/// reads one: an optional `+`, then at least one decimal digit and nothing
/// else, the number written being no greater than 65535.
pub open spec fn is_port(s: Seq<char>) -> bool {
    let digits = if s.len() > 0 && s[0] == '+' {
        s.skip(1)
    } else {
        s
    };
    digits.len() > 0 && all_digits(digits) && decimal_value(digits) <= u16::MAX
}

/// Whether the last colon of `s` stands at index `i`.
pub open spec fn is_last_colon(s: Seq<char>, i: int) -> bool {
    &&& 0 <= i < s.len()
    &&& s[i] == ':'
    &&& forall|j: int| i < j < s.len() ==> s[j] != ':'
}

/// A valid `host:port` pair holds a colon, and what follows its last colon
/// is a port.
pub open spec fn valid_tcp(s: Seq<char>) -> bool {
    exists|i: int| is_last_colon(s, i) && is_port(s.skip(i + 1))
}

/// The number that a prefix of a run of digits writes never exceeds the
/// number that the whole run writes.
pub proof fn lemma_decimal_prefix(digits: Seq<char>, k: int)
    requires
        0 <= k <= digits.len(),
    ensures
        decimal_value(digits.take(k)) <= decimal_value(digits),
    decreases digits.len() - k,
{
    if k == digits.len() {
        assert(digits.take(k) =~= digits);
    } else {
        lemma_decimal_prefix(digits, k + 1);
        assert(digits.take(k + 1).drop_last() =~= digits.take(k));
    }
}

/// Checks that `hostarg` looks like `host:port`: it holds a colon, and the
/// text after its last colon is a port number that fits 16 bits.
pub fn validate_tcp(hostarg: &str) -> (valid: bool)
    ensures
        valid == valid_tcp(hostarg@),
{
    let n = hostarg.unicode_len();
    // The text after the last colon starts at `start`.
    let mut start: usize = n;
    while start > 0 && hostarg.get_char(start - 1) != ':'
        invariant
            n == hostarg@.len(),
            0 <= start <= n,
            forall|j: int| start <= j < n ==> hostarg@[j] != ':',
        decreases start,
    {
        start = start - 1;
    }
    if start == 0 {
        assert(!valid_tcp(hostarg@));
        return false;
    }
    let ghost colon = start - 1;
    let ghost port = hostarg@.skip(start as int);
    proof {
        assert(is_last_colon(hostarg@, colon));
        assert forall|i: int| is_last_colon(hostarg@, i) implies i == colon by {
            if i < colon {
                assert(hostarg@[colon] == ':');
            }
        }
        assert(valid_tcp(hostarg@) == is_port(port));
    }
    let mut i: usize = start;
    if i < n && hostarg.get_char(i) == '+' {
        i = i + 1;
    }
    let first = i;
    let ghost digits = hostarg@.skip(first as int);
    proof {
        if first == start {
            assert(port.len() > 0 ==> port[0] == hostarg@[start as int]);
        } else {
            assert(port[0] == '+');
            assert(port.skip(1) =~= digits);
        }
        assert(is_port(port) == (digits.len() > 0 && all_digits(digits) && decimal_value(digits)
            <= u16::MAX));
    }
    if first == n {
        return false;
    }
    let mut value: u32 = 0;
    while i < n
        invariant
            n == hostarg@.len(),
            first <= i <= n,
            digits == hostarg@.skip(first as int),
            valid_tcp(hostarg@) == (all_digits(digits) && decimal_value(digits) <= u16::MAX),
            all_digits(digits.take(i - first)),
            value == decimal_value(digits.take(i - first)),
            value <= u16::MAX,
        decreases n - i,
    {
        let c = hostarg.get_char(i);
        let ghost seen = digits.take(i - first);
        let ghost upto = digits.take(i - first + 1);
        proof {
            assert(digits[i - first] == c);
            assert(upto.drop_last() =~= seen);
            assert(upto.last() == c);
            lemma_decimal_prefix(digits, i - first + 1);
        }
        if !('0' <= c && c <= '9') {
            assert(!is_digit(digits[i - first]));
            return false;
        }
        value = value * 10 + (c as u32 - '0' as u32);
        if value > 65535 {
            return false;
        }
        i = i + 1;
        assert forall|j: int| 0 <= j < upto.len() implies is_digit(#[trigger] upto[j]) by {
            if j < upto.len() - 1 {
                assert(upto[j] == seen[j]);
            }
        }
    }
    proof {
        assert(digits.take(n - first) =~= digits);
    }
    true
}

/// Whether an HTTP target opens with a status code: three digits and a
/// comma, with something left after them.
pub open spec fn has_status_prefix(s: Seq<char>) -> bool {
    &&& s.len() > 4
    &&& is_digit(s[0])
    &&& is_digit(s[1])
    &&& is_digit(s[2])
    &&& s[3] == ','
}

/// The status that an HTTP target asks for: the code it opens with, or 200.
pub open spec fn http_get_status(s: Seq<char>) -> nat {
    if has_status_prefix(s) {
        100 * digit_value(s[0]) + 10 * digit_value(s[1]) + digit_value(s[2])
    } else {
        200
    }
}

/// The URL as an HTTP target writes it: what follows the status code and its
/// comma, or the whole text where it opens with none.
pub open spec fn http_get_url(s: Seq<char>) -> Seq<char> {
    if has_status_prefix(s) {
        s.skip(4)
    } else {
        s
    }
}

/// The URL that a GET goes to: the normal form of what was written, or what
/// was written where it has no normal form.
pub open spec fn url_or_raw_spec(normalized: Option<Seq<char>>, raw: Seq<char>) -> Seq<char> {
    match normalized {
        Some(url) => url,
        None => raw,
    }
}

/// The serialization that `url::Url` gives the absolute URL written in `raw`
/// once it has parsed it, and `None` where it does not parse.
pub uninterp spec fn url_normalized(raw: Seq<char>) -> Option<Seq<char>>;

/// Parses `urlarg` with `url::ParseOptions::parse`, with the options as
/// `url::Url::options` gives them, and returns the text that the `Url`
/// displays as; `None` where the parser returns an error.
///
/// Taken on trust: that this is `url_normalized` of the text, that is, that
/// the parser's answer depends on the text alone.
#[verifier::external_body]
fn parse_url(urlarg: &str) -> (parsed: Option<String>)
    ensures
        url_normalized(urlarg@) == match parsed {
            Some(url) => Some(url@),
            None => None,
        },
{
    match url::Url::options().parse(urlarg) {
        Ok(url) => Some(url.to_string()),
        Err(_) => None,
    }
}

/// Splits an HTTP target into the status code it asks for and the URL as
/// written. The code is the three digits before a leading comma, where the
/// text opens so and goes on after the comma; else it is 200 and the whole
/// text is the URL.
pub fn split_http_get<'a>(urlarg: &'a str) -> (parts: (u16, &'a str))
    ensures
        parts.0 == http_get_status(urlarg@),
        parts.1@ == http_get_url(urlarg@),
{
    let n = urlarg.unicode_len();
    if n > 4 {
        let c0 = urlarg.get_char(0);
        let c1 = urlarg.get_char(1);
        let c2 = urlarg.get_char(2);
        let c3 = urlarg.get_char(3);
        if '0' <= c0 && c0 <= '9' && '0' <= c1 && c1 <= '9' && '0' <= c2 && c2 <= '9' && c3 == ',' {
            let hundreds: u16 = (c0 as u32 - '0' as u32) as u16;
            let tens: u16 = (c1 as u32 - '0' as u32) as u16;
            let ones: u16 = (c2 as u32 - '0' as u32) as u16;
            let rest = urlarg.substring_char(4, n);
            assert(rest@ =~= urlarg@.skip(4));
            return (100 * hundreds + 10 * tens + ones, rest);
        }
    }
    (200, urlarg)
}

/// Picks the URL to use: the normal form where there is one, else the text
/// as written.
pub fn url_or_raw(normalized: Option<String>, raw: &str) -> (url: String)
    ensures
        url@ == url_or_raw_spec(
            match normalized {
                Some(text) => Some(text@),
                None => None,
            },
            raw@,
        ),
{
    match normalized {
        Some(url) => url,
        None => raw.to_owned(),
    }
}

/// Parses the argument of an HTTP check into the status code to expect and
/// the URL to get. The URL is put into its normal form where it parses as
/// one, and used as written where it does not.
pub fn parse_http_get(urlarg: &str) -> (target: (u16, String))
    ensures
        target.0 == http_get_status(urlarg@),
        target.1@ == url_or_raw_spec(url_normalized(http_get_url(urlarg@)), http_get_url(urlarg@)),
{
    let (status_code, written) = split_http_get(urlarg);
    let normalized = parse_url(written);
    (status_code, url_or_raw(normalized, written))
}

} // verus!
