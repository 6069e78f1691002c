use vstd::prelude::*;
use vstd::string::*;

verus! {

/// The service's settings: where the database is, the API key, and how much
/// to log.
pub struct AppConfig {
    pub database_url: String,
    pub api_key: String,
    pub log_level: String,
}

/// An ASCII decimal digit.
pub open spec fn is_digit(c: char) -> bool {
    '0' <= c <= '9'
}

/// The value of a decimal digit.
pub open spec fn digit_value(c: char) -> int {
    c as int - '0' as int
}

/// The number that a sequence of decimal digits writes, most significant first.
pub open spec fn decimal_value(digits: Seq<char>) -> int
    decreases digits.len(),
{
    if digits.len() == 0 {
        0
    } else {
        decimal_value(digits.drop_last()) * 10 + digit_value(digits.last())
    }
}

/// The text after an optional leading `+`.
pub open spec fn unsigned_digits(text: Seq<char>) -> Seq<char> {
    if text.len() > 0 && text[0] == '+' {
        text.drop_first()
    } else {
        text
    }
}

/// What parsing `text` as a `u64` gives, as `str::parse` documents it: an
/// optional `+` followed by one or more decimal digits, whose value fits in a
/// `u64`; anything else (empty text, a sign alone, a `-`, spaces, other
/// characters, a value too large) is an error.
pub open spec fn parsed_u64(text: Seq<char>) -> Option<u64> {
    let digits = unsigned_digits(text);
    if digits.len() > 0 && (forall|i: int| 0 <= i < digits.len() ==> is_digit(#[trigger] digits[i]))
        && decimal_value(digits) <= u64::MAX {
        Some(decimal_value(digits) as u64)
    } else {
        None
    }
}

/// A decimal number is at least the number written by any of its prefixes.
pub proof fn lemma_decimal_prefix(digits: Seq<char>, k: int)
    requires
        0 <= k <= digits.len(),
        forall|i: int| 0 <= i < digits.len() ==> is_digit(#[trigger] digits[i]),
    ensures
        0 <= decimal_value(digits.subrange(0, k)) <= decimal_value(digits),
    decreases digits.len(),
{
    if digits.len() == 0 {
        assert(digits.subrange(0, k) =~= digits);
    } else if k == digits.len() {
        assert(digits.subrange(0, k) =~= digits);
        lemma_decimal_prefix(digits.drop_last(), k - 1);
    } else {
        assert(digits.drop_last().subrange(0, k) =~= digits.subrange(0, k));
        lemma_decimal_prefix(digits.drop_last(), k);
        assert(is_digit(digits[digits.len() - 1]));
    }
}

/// Parses a `u64` written in decimal, with an optional leading `+`.
pub fn parse_u64(text: &str) -> (r: Option<u64>)
    ensures
        r == parsed_u64(text@),
{
    let n = text.unicode_len();
    let start: usize = if n > 0 && text.get_char(0) == '+' {
        1
    } else {
        0
    };
    let ghost digits = unsigned_digits(text@);
    assert(digits =~= text@.subrange(start as int, n as int));
    if start == n {
        return None;
    }
    let mut value: u64 = 0;
    let mut i: usize = start;
    while i < n
        invariant
            start <= i <= n,
            n == text@.len(),
            digits == text@.subrange(start as int, n as int),
            digits == unsigned_digits(text@),
            forall|j: int| 0 <= j < i - start ==> is_digit(#[trigger] digits[j]),
            value == decimal_value(digits.subrange(0, i - start)),
        decreases n - i,
    {
        let c = text.get_char(i);
        assert(c == digits[i - start]);
        if !('0' <= c && c <= '9') {
            assert(!is_digit(digits[i - start]));
            return None;
        }
        let d: u64 = (c as u32 - '0' as u32) as u64;
        assert(digits.subrange(0, i - start + 1).drop_last() =~= digits.subrange(0, i - start));
        assert(decimal_value(digits.subrange(0, i - start + 1)) == value * 10 + d);
        if value > (u64::MAX - d) / 10 {
            assert(value * 10 + d > u64::MAX);
            proof {
                if forall|j: int| 0 <= j < digits.len() ==> is_digit(#[trigger] digits[j]) {
                    lemma_decimal_prefix(digits, i - start + 1);
                }
            }
            return None;
        }
        value = value * 10 + d;
        i = i + 1;
    }
    assert(digits.subrange(0, i - start) =~= digits);
    Some(value)
}

/// How many seconds to wait between checks for due schedules: the number
/// written in `configured` when it parses as a `u64`, and `default` when the
/// setting is absent or does not parse.
pub fn interval_seconds(configured: Option<&str>, default: u64) -> (seconds: u64)
    ensures
        seconds == match configured {
            Some(text) => match parsed_u64(text@) {
                Some(v) => v,
                None => default,
            },
            None => default,
        },
{
    match configured {
        Some(text) => match parse_u64(text) {
            Some(v) => v,
            None => default,
        },
        None => default,
    }
}

} // verus!
