//! Review cards ("段评") attached to paragraphs: parsing their text and
//! formatting their Unix timestamps as calendar dates (UTC).
use vstd::prelude::*;
use crate::text::{
    all_digits, digits_value, digit_char, digit_value, is_digit, occurs_at, unsigned_digits, chars_of, decimal, extend_chars, find_char, find_char_index, padded_decimal_chars, parse_u64,
    parse_u64_spec, rfind_chars, rfind_seq, slice_range, split_chars_either, split_on_either,
    string_of, strip_prefix, strip_prefix_chars, trim, trim_chars, views, zero_pad,
};

verus! {

/// Gregorian leap year.
pub open spec fn is_leap(y: int) -> bool {
    (y % 4 == 0 && y % 100 != 0) || y % 400 == 0
}

/// Number of days in year `y`.
pub open spec fn year_len(y: int) -> nat {
    if is_leap(y) {
        366
    } else {
        365
    }
}

/// Number of days in month `m` (1..=12) of year `y`.
pub open spec fn month_len(y: int, m: int) -> nat {
    if m == 2 {
        if is_leap(y) {
            29
        } else {
            28
        }
    } else if m == 4 || m == 6 || m == 9 || m == 11 {
        30
    } else {
        31
    }
}

/// Days from 1970-01-01 to the first day of year `y >= 1970`.
pub open spec fn days_before_year(y: int) -> nat
    decreases y - 1970,
{
    if y <= 1970 {
        0
    } else {
        days_before_year(y - 1) + year_len(y - 1)
    }
}

/// Days from the first of January of year `y` to the first day of month `m`.
pub open spec fn days_before_month(y: int, m: int) -> nat
    decreases m,
{
    if m <= 1 {
        0
    } else {
        days_before_month(y, m - 1) + month_len(y, m - 1)
    }
}

/// The day number (0 = 1970-01-01) of the date `y-m-d`.
pub open spec fn days_from_civil(y: int, m: int, d: int) -> int {
    days_before_year(y) + days_before_month(y, m) + d - 1
}

/// A valid date on or after 1970-01-01.
pub open spec fn valid_date(y: int, m: int, d: int) -> bool {
    y >= 1970 && 1 <= m <= 12 && 1 <= d <= month_len(y, m)
}

/// The year containing day `days` of year `y` onwards, and the day within it.
pub open spec fn year_of(days: nat, y: int) -> (int, nat)
    decreases days,
{
    if days < year_len(y) {
        (y, days)
    } else {
        year_of((days - year_len(y)) as nat, y + 1)
    }
}

/// The month containing day `doy` of the year, counting from month `m`, and
/// the day within it.
pub open spec fn month_of(doy: nat, y: int, m: int) -> (int, nat)
    decreases 12 - m,
{
    if m >= 12 || doy < month_len(y, m) {
        (m, doy)
    } else {
        month_of((doy - month_len(y, m)) as nat, y, m + 1)
    }
}

/// The calendar date `(year, month, day)` of day number `days` (0 = 1970-01-01).
pub open spec fn civil_from_days(days: nat) -> (int, int, int) {
    let (y, doy) = year_of(days, 1970);
    let (m, dom) = month_of(doy, y, 1);
    (y, m, dom + 1int)
}

/// `YYYY-MM-DD hh:mm` (UTC) for a Unix timestamp in seconds.
pub open spec fn unix_timestamp_text(ts: nat) -> Seq<char> {
    let (y, m, d) = civil_from_days(ts / 86400);
    let rem = ts % 86400;
    zero_pad(decimal(y as nat), 4) + seq!['-'] + zero_pad(decimal(m as nat), 2) + seq!['-']
        + zero_pad(decimal(d as nat), 2) + seq![' '] + zero_pad(decimal(rem / 3600), 2) + seq![':']
        + zero_pad(decimal((rem % 3600) / 60), 2)
}

/// Whether `y` is a leap year.
pub fn is_leap_year(y: u64) -> (b: bool)
    ensures
        b == is_leap(y as int),
{
    (y % 4 == 0 && y % 100 != 0) || y % 400 == 0
}

proof fn lemma_year_of_step(days: nat, y: int)
    requires
        days >= year_len(y),
    ensures
        year_of(days, y) == year_of((days - year_len(y)) as nat, y + 1),
{
}

proof fn lemma_month_of_bound(doy: nat, y: int, m: int)
    requires
        1 <= m <= 12,
        doy + days_before_month(y, m) < year_len(y),
    ensures
        month_of(doy, y, m).0 <= 12,
        month_of(doy, y, m).1 < month_len(y, month_of(doy, y, m).0),
        1 <= month_of(doy, y, m).0,
        days_before_month(y, month_of(doy, y, m).0) + month_of(doy, y, m).1 == days_before_month(y, m) + doy,
    decreases 12 - m,
{
    if m >= 12 {
        lemma_days_before_december(y);
    } else if doy >= month_len(y, m) {
        lemma_month_of_bound((doy - month_len(y, m)) as nat, y, m + 1);
    }
}

proof fn lemma_days_before_december(y: int)
    ensures
        days_before_month(y, 12) + 31 == year_len(y),
{
    reveal_with_fuel(days_before_month, 12);
}

/// Formats a Unix timestamp (seconds) as `YYYY-MM-DD hh:mm` in UTC.
pub fn format_unix_timestamp(ts: u64) -> (s: String)
    ensures
        s@ == unix_timestamp_text(ts as nat),
{
    let mut days: u64 = ts / 86400;
    let rem: u64 = ts % 86400;
    let mut year: u64 = 1970;
    let ghost total = (ts / 86400) as nat;
    loop
        invariant
            year >= 1970,
            year - 1970 <= total - days,
            days <= total,
            year_of(total, 1970) == year_of(days as nat, year as int),
            total == ts / 86400,
        ensures
            days < year_len(year as int),
        decreases days,
    {
        let dim: u64 = if is_leap_year(year) { 366 } else { 365 };
        if days < dim {
            break;
        }
        proof {
            lemma_year_of_step(days as nat, year as int);
        }
        days = days - dim;
        year = year + 1;
    }
    let feb: u32 = if is_leap_year(year) { 29 } else { 28 };
    let month_days: [u32; 12] = [31, feb, 31, 30, 31, 30, 31, 31, 30, 31, 30, 31];
    let mut month: u64 = 1;
    let mut day: u32 = days as u32;
    let mut k: usize = 0;
    proof {
        lemma_month_of_bound(days as nat, year as int, 1);
        lemma_days_before_december(year as int);
    }
    while k < 12
        invariant
            k <= 12,
            month == k + 1,
            day < 366,
            days < year_len(year as int),
            forall|i: int| 0 <= i < 12 ==> month_days@[i] == month_len(year as int, i + 1),
            month_of(days as nat, year as int, 1) == month_of(day as nat, year as int, month as int),
            day + days_before_month(year as int, month as int) == days,
            days_before_month(year as int, 12) + 31 == year_len(year as int),
        ensures
            day < month_len(year as int, month as int),
            1 <= month <= 12,
        decreases 12 - k,
    {
        let dim = month_days[k];
        if day < dim {
            break;
        }
        day = day - dim;
        month = month + 1;
        k = k + 1;
    }
    proof {
        lemma_month_of_bound(days as nat, year as int, 1);
    }
    assert(month_of(day as nat, year as int, month as int) == (month as int, day as nat));
    let hour = rem / 3600;
    let minute = (rem % 3600) / 60;
    let mut v: Vec<char> = Vec::new();
    extend_chars(&mut v, &padded_decimal_chars(year, 4));
    v.push('-');
    extend_chars(&mut v, &padded_decimal_chars(month, 2));
    v.push('-');
    extend_chars(&mut v, &padded_decimal_chars(day as u64 + 1, 2));
    v.push(' ');
    extend_chars(&mut v, &padded_decimal_chars(hour, 2));
    v.push(':');
    extend_chars(&mut v, &padded_decimal_chars(minute, 2));
    string_of(&v)
}


proof fn lemma_year_of_sum(days: nat, y0: int)
    requires
        y0 >= 1970,
    ensures
        year_of(days, y0).0 >= y0,
        year_of(days, y0).1 < year_len(year_of(days, y0).0),
        days_before_year(year_of(days, y0).0) + year_of(days, y0).1 == days_before_year(y0) + days,
    decreases days,
{
    if days >= year_len(y0) {
        lemma_year_of_sum((days - year_len(y0)) as nat, y0 + 1);
    }
}

proof fn lemma_days_before_month_le(y: int, m: int)
    requires
        1 <= m <= 12,
    ensures
        days_before_month(y, m) + month_len(y, m) <= year_len(y),
    decreases 12 - m,
{
    if m < 12 {
        lemma_days_before_month_le(y, m + 1);
    } else {
        lemma_days_before_december(y);
    }
}

proof fn lemma_year_of_inverse(y0: int, y: int, doy: nat)
    requires
        1970 <= y0 <= y,
        doy < year_len(y),
    ensures
        year_of((days_before_year(y) - days_before_year(y0) + doy) as nat, y0) == (y, doy),
    decreases y - y0,
{
    if y0 < y {
        lemma_days_before_year_mono(y0 + 1, y);
        lemma_year_of_inverse(y0 + 1, y, doy);
    }
}

proof fn lemma_days_before_year_mono(a: int, b: int)
    requires
        a <= b,
    ensures
        days_before_year(a) <= days_before_year(b),
    decreases b - a,
{
    if a < b {
        lemma_days_before_year_mono(a, b - 1);
    }
}

proof fn lemma_month_of_inverse(y: int, m0: int, m: int, dom: nat)
    requires
        1 <= m0 <= m <= 12,
        dom < month_len(y, m),
    ensures
        month_of((days_before_month(y, m) - days_before_month(y, m0) + dom) as nat, y, m0) == (m, dom),
    decreases m - m0,
{
    if m0 < m {
        lemma_days_before_month_mono(y, m0 + 1, m);
        lemma_month_of_inverse(y, m0 + 1, m, dom);
    }
}

proof fn lemma_days_before_month_mono(y: int, a: int, b: int)
    requires
        a <= b,
    ensures
        days_before_month(y, a) <= days_before_month(y, b),
    decreases b - a,
{
    if a < b {
        lemma_days_before_month_mono(y, a, b - 1);
    }
}

/// Every day number is a valid calendar date, and counting the days up to
/// that date gives the day number back.
pub proof fn law_civil_from_days_roundtrip(days: nat)
    ensures
        valid_date(civil_from_days(days).0, civil_from_days(days).1, civil_from_days(days).2),
        days_from_civil(civil_from_days(days).0, civil_from_days(days).1, civil_from_days(days).2)
            == days,
{
    lemma_year_of_sum(days, 1970);
    let (y, doy) = year_of(days, 1970);
    lemma_month_of_bound(doy, y, 1);
}

/// Every valid date after the epoch is the date of its own day number.
pub proof fn law_days_from_civil_roundtrip(y: int, m: int, d: int)
    requires
        valid_date(y, m, d),
    ensures
        civil_from_days(days_from_civil(y, m, d) as nat) == (y, m, d),
{
    let doy = (days_before_month(y, m) + d - 1) as nat;
    lemma_days_before_month_le(y, m);
    lemma_year_of_inverse(1970, y, doy);
    lemma_month_of_inverse(y, 1, m, (d - 1) as nat);
}


/// The Gregorian length of month `m` of year `y`: 30 days in April, June,
/// September and November, 29 in February of a leap year (divisible by 4
/// and not by 100, or by 400) and 28 in other Februaries, 31 otherwise.
pub open spec fn gregorian_month_days(y: int, m: int) -> int {
    if m == 2 {
        if (y % 4 == 0 && y % 100 != 0) || y % 400 == 0 {
            29
        } else {
            28
        }
    } else if m == 4 || m == 6 || m == 9 || m == 11 {
        30
    } else {
        31
    }
}

/// The calendar day after `(y, m, d)`.
pub open spec fn next_calendar_day(date: (int, int, int)) -> (int, int, int) {
    let (y, m, d) = date;
    if d < gregorian_month_days(y, m) {
        (y, m, d + 1)
    } else if m < 12 {
        (y, m + 1, 1)
    } else {
        (y + 1, 1, 1)
    }
}

/// Day numbers count Gregorian calendar days from 1970-01-01: day 0 is
/// 1970-01-01, every date has a month 1..12 and a day within that month's
/// Gregorian length (so there is no September 31), and each day number is
/// followed by the next calendar day.
pub proof fn law_day_numbers_follow_the_calendar(days: nat)
    ensures
        civil_from_days(0) == (1970int, 1int, 1int),
        1 <= civil_from_days(days).1 <= 12,
        1 <= civil_from_days(days).2 <= gregorian_month_days(civil_from_days(days).0, civil_from_days(days).1),
        civil_from_days(days + 1) == next_calendar_day(civil_from_days(days)),
{
    law_days_from_civil_roundtrip(1970, 1, 1);
    assert(days_from_civil(1970, 1, 1) == 0);
    law_civil_from_days_roundtrip(days);
    let (y, m, d) = civil_from_days(days);
    assert(month_len(y, m) == gregorian_month_days(y, m));
    let next = next_calendar_day((y, m, d));
    if d < gregorian_month_days(y, m) {
        assert(days_from_civil(next.0, next.1, next.2) == days + 1);
    } else if m < 12 {
        assert(month_len(y, m + 1) >= 1);
        assert(days_before_month(y, m + 1) == days_before_month(y, m) + month_len(y, m));
        assert(days_from_civil(next.0, next.1, next.2) == days + 1);
    } else {
        assert(days_before_month(y, 1) == 0);
        assert(days_before_month(y, 2) == days_before_month(y, 1) + month_len(y, 1));
        assert(days_before_month(y, 2) == 31);
        assert(days_before_month(y, 3) == days_before_month(y, 2) + month_len(y, 2));
        assert(days_before_month(y, 4) == days_before_month(y, 3) + 31);
        assert(days_before_month(y, 5) == days_before_month(y, 4) + 30);
        assert(days_before_month(y, 6) == days_before_month(y, 5) + 31);
        assert(days_before_month(y, 7) == days_before_month(y, 6) + 30);
        assert(days_before_month(y, 8) == days_before_month(y, 7) + 31);
        assert(days_before_month(y, 9) == days_before_month(y, 8) + 31);
        assert(days_before_month(y, 10) == days_before_month(y, 9) + 30);
        assert(days_before_month(y, 11) == days_before_month(y, 10) + 31);
        assert(days_before_month(y, 12) == days_before_month(y, 11) + 30);
        assert(days_before_month(y, 12) + 31 == year_len(y));
        assert(days_before_year(y + 1) == days_before_year(y) + year_len(y));
        assert(days_before_month(y + 1, 1) == 0);
        assert(days_from_civil(next.0, next.1, next.2) == days + 1);
    }
    law_days_from_civil_roundtrip(next.0, next.1, next.2);
}

/// The text of a timestamp as shown: a Unix timestamp (what `u64::from_str`
/// accepts) as `YYYY-MM-DD hh:mm`, anything else unchanged.
pub open spec fn timestamp_text(s: Seq<char>) -> Seq<char> {
    match parse_u64_spec(s) {
        Some(ts) => unix_timestamp_text(ts as nat),
        None => s,
    }
}

/// Formats a timestamp field for display.
pub fn format_timestamp(s: &str) -> (r: String)
    ensures
        r@ == timestamp_text(s@),
{
    let v = chars_of(s);
    match parse_u64(&v) {
        Some(ts) => format_unix_timestamp(ts),
        None => string_of(&v),
    }
}

proof fn lemma_decimal_digits(n: nat)
    ensures
        decimal(n).len() > 0,
        all_digits(decimal(n)),
        digits_value(decimal(n)) == n,
    decreases n,
{
    if n < 10 {
        assert(decimal(n) == seq![digit_char(n)]);
        assert(decimal(n).drop_last() =~= Seq::<char>::empty());
        assert(digit_value(digit_char(n)) == n);
        assert(digits_value(decimal(n)) == digits_value(Seq::<char>::empty()) * 10 + digit_value(digit_char(n)));
    } else {
        lemma_decimal_digits(n / 10);
        let d = decimal(n / 10);
        assert(decimal(n).drop_last() == d);
        assert(digit_value(digit_char(n % 10)) == n % 10);
        assert(decimal(n) == d.push(digit_char(n % 10)));
        assert(decimal(n).last() == digit_char(n % 10));
        assert(digits_value(decimal(n)) == digits_value(d) * 10 + digit_value(digit_char(n % 10)));
        assert((n / 10) * 10 + n % 10 == n);
        assert forall|i: int| 0 <= i < decimal(n).len() implies is_digit(#[trigger] decimal(n)[i]) by {
            if i < d.len() {
                assert(decimal(n)[i] == d[i]);
            }
        }
    }
}

/// A timestamp written in decimal, as the review data stores it, is shown as
/// the date and time of that Unix timestamp.
pub proof fn law_decimal_timestamp_shown_as_date(ts: u64)
    ensures
        timestamp_text(decimal(ts as nat)) == unix_timestamp_text(ts as nat),
{
    lemma_decimal_digits(ts as nat);
    assert(is_digit(decimal(ts as nat)[0]));
    assert(unsigned_digits(decimal(ts as nat)) == decimal(ts as nat));
}

/// A review card parsed from a paragraph such as
/// `1. 【内容】 作者：name | 时间：1770036499 | 赞：52`.
#[derive(Clone, Debug)]
pub struct ReviewCard {
    pub index: usize,
    pub content: String,
    pub author: String,
    pub timestamp: String,
    pub likes: usize,
}

/// What `usize::from_str` returns on `s`, as an option.
pub open spec fn parse_usize_spec(s: Seq<char>) -> Option<usize> {
    match parse_u64_spec(s) {
        Some(n) => if n <= usize::MAX {
            Some(n as usize)
        } else {
            None
        },
        None => None,
    }
}

/// `s` without the first prefix of `a` or `b` that it starts with.
pub open spec fn strip_either(s: Seq<char>, a: Seq<char>, b: Seq<char>) -> Option<Seq<char>> {
    match strip_prefix(s, a) {
        Some(t) => Some(t),
        None => strip_prefix(s, b),
    }
}

/// The index before the first `.` of the trimmed text and the trimmed rest
/// after it.
pub open spec fn card_head(text: Seq<char>) -> Option<(usize, Seq<char>)> {
    let t = trim(text);
    match find_char(t, '.') {
        None => None,
        Some(dot) => match parse_usize_spec(trim(t.take(dot))) {
            None => None,
            Some(index) => Some((index, trim(t.skip(dot + 1)))),
        },
    }
}

/// The likes (last part, after `赞：` or `赞:`) and the timestamp text (the
/// part before it, after `时间：` or `时间:`), each trimmed.
pub open spec fn card_tail(parts: Seq<Seq<char>>) -> Option<(usize, Seq<char>)> {
    if parts.len() < 3 {
        None
    } else {
        match strip_either(trim(parts.last()), "赞："@, "赞:"@) {
            None => None,
            Some(likes_text) => match parse_usize_spec(trim(likes_text)) {
                None => None,
                Some(likes) => match strip_either(trim(parts[parts.len() - 2]), "时间："@, "时间:"@) {
                    None => None,
                    Some(time_text) => Some((likes, trim(time_text))),
                },
            },
        }
    }
}

/// The content before and the author after the last `作者：` (else the last
/// `作者:`) in the trimmed first part, each trimmed.
pub open spec fn card_author(part: Seq<char>) -> Option<(Seq<char>, Seq<char>)> {
    let first = trim(part);
    let marker = if rfind_seq(first, "作者："@) is Some {
        "作者："@
    } else {
        "作者:"@
    };
    match rfind_seq(first, marker) {
        None => None,
        Some(pos) => Some((trim(first.take(pos)), trim(first.skip(pos + marker.len())))),
    }
}

/// The fields of a review card, as `(index, content, author, timestamp,
/// likes)`: the text, trimmed, is `<index>.` followed by parts separated by
/// `|` or `｜`, read by `card_head`, `card_tail` and `card_author`.
pub open spec fn review_card_spec(text: Seq<char>) -> Option<(usize, Seq<char>, Seq<char>, Seq<char>, usize)> {
    match card_head(text) {
        None => None,
        Some((index, rest)) => {
            let parts = split_on_either(rest, '|', '｜');
            match card_tail(parts) {
                None => None,
                Some((likes, timestamp)) => match card_author(parts[0]) {
                    None => None,
                    Some((content, author)) => Some((index, content, author, timestamp, likes)),
                },
            }
        },
    }
}

/// The `|`- or `｜`-separated parts after the index of a card text.
pub open spec fn card_parts(text: Seq<char>) -> Option<Seq<Seq<char>>> {
    match card_head(text) {
        Some((_, rest)) => Some(split_on_either(rest, '|', '｜')),
        None => None,
    }
}

/// A text is a review card only when it has the whole card layout: it is
/// refused when the trimmed text has no `.`, when the text before the first
/// `.` is not a `usize`, when the rest has fewer than three parts, when the
/// last part is not `赞：N` or `赞:N` with `N` a `usize`, when the part before
/// it does not start with `时间：` or `时间:`, or when the first part holds
/// neither `作者：` nor `作者:`.
pub proof fn law_review_card_rejections(text: Seq<char>)
    ensures
        find_char(trim(text), '.') is None ==> review_card_spec(text) is None,
        (find_char(trim(text), '.') matches Some(dot) && parse_usize_spec(trim(trim(text).take(dot))) is None)
            ==> review_card_spec(text) is None,
        (card_parts(text) matches Some(parts) && parts.len() < 3) ==> review_card_spec(text) is None,
        (card_parts(text) matches Some(parts) && strip_either(trim(parts.last()), "赞："@, "赞:"@) is None)
            ==> review_card_spec(text) is None,
        (card_parts(text) matches Some(parts) && strip_either(trim(parts.last()), "赞："@, "赞:"@) matches Some(
            n,
        ) && parse_usize_spec(trim(n)) is None) ==> review_card_spec(text) is None,
        (card_parts(text) matches Some(parts) && parts.len() >= 2 && strip_either(
            trim(parts[parts.len() - 2]),
            "时间："@,
            "时间:"@,
        ) is None) ==> review_card_spec(text) is None,
        (card_parts(text) matches Some(parts) && rfind_seq(trim(parts[0]), "作者："@) is None && rfind_seq(
            trim(parts[0]),
            "作者:"@,
        ) is None) ==> review_card_spec(text) is None,
{
}

/// The number written in `v`, as `usize::from_str` reads it.
fn parse_usize_chars(v: &[char]) -> (r: Option<usize>)
    ensures
        r == parse_usize_spec(v@),
{
    match parse_u64(v) {
        Some(n) => if n <= usize::MAX as u64 {
            Some(n as usize)
        } else {
            None
        },
        None => None,
    }
}

/// `v` without the first of the prefixes `a`, `b` that it starts with.
fn strip_either_chars(v: &[char], a: &str, b: &str) -> (r: Option<Vec<char>>)
    ensures
        r matches Some(t) ==> strip_either(v@, a@, b@) == Some(t@),
        r is None ==> strip_either(v@, a@, b@) is None,
{
    match strip_prefix_chars(v, &chars_of(a)) {
        Some(t) => Some(t),
        None => strip_prefix_chars(v, &chars_of(b)),
    }
}

fn parse_card_head(text: &str) -> (r: Option<(usize, Vec<char>)>)
    ensures
        r matches Some((i, rest)) ==> card_head(text@) == Some((i, rest@)),
        r is None ==> card_head(text@) is None,
{
    let all = chars_of(text);
    let t = trim_chars(&all);
    let dot = find_char_index(&t, '.')?;
    let head = slice_range(&t, 0, dot);
    assert(head@ == t@.take(dot as int));
    let index = parse_usize_chars(&trim_chars(&head))?;
    let tail = slice_range(&t, dot + 1, t.len());
    assert(tail@ == t@.skip(dot + 1));
    Some((index, trim_chars(&tail)))
}

fn parse_card_tail(parts: &Vec<Vec<char>>) -> (r: Option<(usize, Vec<char>)>)
    ensures
        r matches Some((l, ts)) ==> card_tail(views(parts@)) == Some((l, ts@)),
        r is None ==> card_tail(views(parts@)) is None,
{
    let ghost ps = views(parts@);
    if parts.len() < 3 {
        return None;
    }
    let n = parts.len();
    assert(ps.last() == parts@[n - 1]@);
    assert(ps[n - 2] == parts@[n - 2]@);
    let likes_text = strip_either_chars(&trim_chars(&parts[n - 1]), "赞：", "赞:")?;
    let likes = parse_usize_chars(&trim_chars(&likes_text))?;
    let time_text = strip_either_chars(&trim_chars(&parts[n - 2]), "时间：", "时间:")?;
    Some((likes, trim_chars(&time_text)))
}

fn parse_card_author(part: &[char]) -> (r: Option<(Vec<char>, Vec<char>)>)
    ensures
        r matches Some((c, a)) ==> card_author(part@) == Some((c@, a@)),
        r is None ==> card_author(part@) is None,
{
    let first = trim_chars(part);
    let full = chars_of("作者：");
    let ascii = chars_of("作者:");
    let (pos, marker_len) = match rfind_chars(&first, &full) {
        Some(p) => (p, full.len()),
        None => match rfind_chars(&first, &ascii) {
            Some(p) => (p, ascii.len()),
            None => {
                return None;
            },
        },
    };
    assert(occurs_at(first@, full@, pos as int) || occurs_at(first@, ascii@, pos as int));
    assert(pos + marker_len <= first.len());
    let before = slice_range(&first, 0, pos);
    let after = slice_range(&first, pos + marker_len, first.len());
    assert(before@ == first@.take(pos as int));
    assert(after@ == first@.skip(pos + marker_len));
    Some((trim_chars(&before), trim_chars(&after)))
}

/// Parses a review paragraph into a card; `None` when it does not have the
/// card layout.
pub fn parse_review_card(text: &str) -> (r: Option<ReviewCard>)
    ensures
        r matches Some(card) ==> review_card_spec(text@) == Some(
            (card.index, card.content@, card.author@, card.timestamp@, card.likes),
        ),
        r is None ==> review_card_spec(text@) is None,
{
    let (index, rest) = parse_card_head(text)?;
    let parts = split_chars_either(&rest, '|', '｜');
    let (likes, timestamp) = parse_card_tail(&parts)?;
    assert(views(parts@)[0] == parts@[0]@);
    let (content, author) = parse_card_author(&parts[0])?;
    Some(
        ReviewCard {
            index,
            content: string_of(&content),
            author: string_of(&author),
            timestamp: string_of(&timestamp),
            likes,
        },
    )
}

} // verus!
