//! Proleptic-Gregorian date arithmetic for the timeline axis, in whole days
//! since 1970-01-01 (day 0). Years are counted from March so that the leap
//! day closes the year, which keeps the day-count formula free of branches.
use vstd::prelude::*;
use vstd::arithmetic::div_mod::lemma_fundamental_div_mod;
use vstd::arithmetic::div_mod::lemma_fundamental_div_mod_converse;
use crate::text::chars_of;
use crate::text::{
    digits_value, find_char, first_index_of, is_ascii_digit, is_digit_run, parse_signed, parse_unsigned,
};

verus! {

/// Largest magnitude of a year that `days_from_civil` accepts: beyond it the
/// day count no longer fits in an `i64`.
pub const YEAR_LIMIT: i64 = 25_000_000_000_000_000;

/// Days from the start of March-based year 0 to the start of March-based
/// year `y` (negative for years before 0).
pub open spec fn days_before_year(y: int) -> int {
    365 * y + y / 4 - y / 100 + y / 400
}

/// The March-based year that holds `month` of calendar year `year`.
pub open spec fn march_year(year: int, month: int) -> int {
    if month <= 2 { year - 1 } else { year }
}

/// Zero-based position of a day within its March-based year.
pub open spec fn march_day_of_year(month: int, day: int) -> int {
    (153 * (if month > 2 { month - 3 } else { month + 9 }) + 2) / 5 + day - 1
}

/// Days from 1970-01-01 to the civil date `(year, month, day)`.
pub open spec fn civil_to_days(year: int, month: int, day: int) -> int {
    days_before_year(march_year(year, month)) + march_day_of_year(month, day) - 719468
}

pub open spec fn is_leap_year(y: int) -> bool {
    y % 4 == 0 && (y % 100 != 0 || y % 400 == 0)
}

pub open spec fn days_in_month(year: int, month: int) -> int {
    if month == 2 {
        if is_leap_year(year) { 29 } else { 28 }
    } else if month == 4 || month == 6 || month == 9 || month == 11 {
        30
    } else {
        31
    }
}

/// Days in `month` of `year` (February has 29 in leap years).
pub fn month_length(year: i64, month: u32) -> (r: u32)
    requires
        1 <= month <= 12,
    ensures
        r == days_in_month(year as int, month as int),
{
    if month == 2 {
        // shifted by a multiple of 400 so that it is not negative, which
        // keeps every remainder by 4, 100 and 400
        let z = (year as i128 + 9_223_372_036_854_776_000) as u128;
        let r4 = z % 4;
        let r100 = z % 100;
        let r400 = z % 400;
        proof {
            let y = year as int;
            vstd::arithmetic::div_mod::lemma_mod_multiples_vanish(2_305_843_009_213_694_000, y, 4);
            vstd::arithmetic::div_mod::lemma_mod_multiples_vanish(92_233_720_368_547_760, y, 100);
            vstd::arithmetic::div_mod::lemma_mod_multiples_vanish(23_058_430_092_136_940, y, 400);
        }
        if r4 == 0 && (r100 != 0 || r400 == 0) {
            29
        } else {
            28
        }
    } else if month == 4 || month == 6 || month == 9 || month == 11 {
        30
    } else {
        31
    }
}

/// A real calendar date: a month of the year and a day of that month.
pub open spec fn is_valid_date(year: int, month: int, day: int) -> bool {
    1 <= month <= 12 && 1 <= day <= days_in_month(year, month)
}

/// Quotient and remainder are unique.
proof fn lemma_div_exact(x: int, d: int, q: int, r: int)
    requires
        d > 0,
        x == q * d + r,
        0 <= r < d,
    ensures
        x / d == q,
        x % d == r,
{
    lemma_fundamental_div_mod_converse(x, d, q, r);
}

/// Moving one year on adds a year of 365 days and the leap day that closes it.
proof fn lemma_days_before_next_year(y: int)
    ensures
        days_before_year(y + 1) == days_before_year(y) + 365 + (if is_leap_year(y + 1) { 1int } else { 0 }),
{
    lemma_step_div(y, 4);
    lemma_step_div(y, 100);
    lemma_step_div(y, 400);
    lemma_fundamental_div_mod(y + 1, 4);
    lemma_fundamental_div_mod(y + 1, 100);
    lemma_fundamental_div_mod(y + 1, 400);
    // a multiple of 400 is a multiple of 100, and a multiple of 100 one of 4
    if (y + 1) % 400 == 0 {
        let k = (y + 1) / 400;
        lemma_div_exact(y + 1, 100, 4 * k, 0);
    }
    if (y + 1) % 100 == 0 {
        let k = (y + 1) / 100;
        lemma_div_exact(y + 1, 4, 25 * k, 0);
    }
}

proof fn lemma_step_div(y: int, d: int)
    requires
        d > 0,
    ensures
        (y + 1) / d == y / d + (if (y + 1) % d == 0 { 1int } else { 0 }),
{
    lemma_fundamental_div_mod(y, d);
    let q = y / d;
    let r = y % d;
    assert(y == q * d + r) by (nonlinear_arith)
        requires
            y == d * q + r,
    ;
    if r == d - 1 {
        assert((q + 1) * d == q * d + d) by (nonlinear_arith);
        lemma_div_exact(y + 1, d, q + 1, 0);
    } else {
        lemma_div_exact(y + 1, d, q, r + 1);
    }
}

/// Later years start later: a year ends no later than any later year starts.
proof fn lemma_days_before_year_monotone(a: int, b: int)
    requires
        a < b,
    ensures
        days_before_year(a + 1) <= days_before_year(b),
    decreases b - a,
{
    lemma_days_before_next_year(a);
    if a + 1 < b {
        lemma_days_before_next_year(a + 1);
        lemma_days_before_year_monotone(a + 1, b);
    }
}

/// Splitting a year into 400-year eras leaves the day count per era exact.
proof fn lemma_days_before_year_by_era(y: int)
    ensures
        days_before_year(y) == 146097 * (y / 400) + 365 * (y % 400) + (y % 400) / 4 - (y % 400) / 100,
{
    lemma_fundamental_div_mod(y, 400);
    let era = y / 400;
    let yoe = y % 400;
    lemma_fundamental_div_mod(yoe, 4);
    lemma_fundamental_div_mod(yoe, 100);
    lemma_div_exact(y, 4, 100 * era + yoe / 4, yoe % 4);
    lemma_div_exact(y, 100, 4 * era + yoe / 100, yoe % 100);
}

/// The days of a 400-year era, split into centuries of 36524 days, four-year
/// blocks of 1461 days, years of 365 days and a day within the year; only the
/// closing year of a block (and of the era) has a 366th day.
proof fn lemma_era_day_split(doe: int) -> (parts: (int, int, int, int))
    requires
        0 <= doe < 146097,
    ensures
        0 <= parts.0 <= 3,
        0 <= parts.1 <= 24,
        0 <= parts.2 <= 3,
        0 <= parts.3 <= 365,
        doe == 36524 * parts.0 + 1461 * parts.1 + 365 * parts.2 + parts.3,
        parts.3 == 365 ==> parts.2 == 3 && (parts.1 < 24 || parts.0 == 3),
{
    let c: int = if doe / 36524 > 3 { 3 } else { doe / 36524 };
    let rem1 = doe - 36524 * c;
    let q = rem1 / 1461;
    let rem2 = rem1 - 1461 * q;
    let r: int = if rem2 / 365 > 3 { 3 } else { rem2 / 365 };
    let k = rem2 - 365 * r;
    (c, q, r, k)
}

/// The year-of-era formula recovers the year, and the day of that year, from
/// a day of the era.
proof fn lemma_year_of_era(doe: int)
    requires
        0 <= doe < 146097,
    ensures
        ({
            let yoe = (doe - doe / 1460 + doe / 36524 - doe / 146096) / 365;
            let doy = doe - (365 * yoe + yoe / 4 - yoe / 100);
            &&& 0 <= yoe <= 399
            &&& 0 <= doy <= 365
            &&& doy == 365 ==> is_leap_year(yoe + 1)
            &&& doe == days_before_year(yoe) + doy
        }),
{
    let (c, q, r, k) = lemma_era_day_split(doe);
    let yoe = 100 * c + 4 * q + r;
    let e1: int = if 24 * c + q + 365 * r + k >= 1460 { 1 } else { 0 };
    let e2: int = if doe == 146096 { 1 } else { 0 };
    lemma_div_exact(doe, 1460, 25 * c + q + e1, 24 * c + q + 365 * r + k - 1460 * e1);
    lemma_div_exact(doe, 36524, c + e2, 1461 * q + 365 * r + k - 36524 * e2);
    lemma_div_exact(doe, 146096, e2, doe - 146096 * e2);
    lemma_div_exact(doe - doe / 1460 + doe / 36524 - doe / 146096, 365, yoe, k - e1);
    lemma_div_exact(yoe, 4, 25 * c + q, r);
    lemma_div_exact(yoe, 100, c, 4 * q + r);
    lemma_div_exact(yoe, 400, 0, yoe);
    if k == 365 {
        if q < 24 {
            lemma_div_exact(yoe + 1, 4, 25 * c + q + 1, 0);
            lemma_div_exact(yoe + 1, 100, c, 4 * q + 4);
        } else {
            lemma_div_exact(yoe + 1, 4, 100, 0);
            lemma_div_exact(yoe + 1, 100, 4, 0);
            lemma_div_exact(yoe + 1, 400, 1, 0);
        }
    }
}

/// The calendar month (1 for January) holding day `doy` of a March-based year.
pub open spec fn month_of_march_day(doy: int) -> int {
    let mp = (5 * doy + 2) / 153;
    if mp < 10 { mp + 3 } else { mp - 9 }
}

/// The day of the month of day `doy` of a March-based year.
pub open spec fn day_of_march_day(doy: int) -> int {
    doy - (153 * ((5 * doy + 2) / 153) + 2) / 5 + 1
}

/// Months of the March-based year: each day of the year falls on one day of
/// one month, and only a leap year reaches February 29.
proof fn lemma_month_of_march_day(doy: int, year: int)
    requires
        0 <= doy <= 365,
        doy == 365 ==> is_leap_year(year),
    ensures
        is_valid_date(year, month_of_march_day(doy), day_of_march_day(doy)),
        march_day_of_year(month_of_march_day(doy), day_of_march_day(doy)) == doy,
        0 <= (5 * doy + 2) / 153 <= 11,
{
}

/// Days since 1970-01-01 for the civil date `(year, month, day)`; `month` is
/// 1 for January.
pub fn days_from_civil(year: i64, month: u32, day: u32) -> (days: i64)
    requires
        -YEAR_LIMIT <= year <= YEAR_LIMIT,
    ensures
        days == civil_to_days(year as int, month as int, day as int),
{
    let year = if month <= 2 { year - 1 } else { year };
    let era = (if year >= 0 { year } else { year - 399 }) / 400;
    proof {
        lemma_fundamental_div_mod(year as int, 400);
        if year < 0 {
            assert(era == year as int / 400) by {
                assert(-400 < (year - 399) - 400 * era <= 0);
                lemma_div_exact(year as int, 400, era as int, year - 400 * era);
            }
        }
        assert(-62_500_000_000_001 <= era <= 62_500_000_000_000);
        assert(-62_500_000_000_001 * 146097 <= era * 146097 <= 62_500_000_000_000 * 146097) by (nonlinear_arith)
            requires -62_500_000_000_001 <= era <= 62_500_000_000_000;
        lemma_days_before_year_by_era(year as int);
    }
    let year_of_era = year - era * 400;
    let month = month as i64;
    let day = day as i64;
    let day_of_year = (153 * (if month > 2 { month - 3 } else { month + 9 }) + 2) / 5 + day - 1;
    let day_of_era = year_of_era * 365 + year_of_era / 4 - year_of_era / 100 + day_of_year;
    era * 146097 + day_of_era - 719468
}

/// The year of a 400-year era that holds day `doe` of the era.
pub open spec fn year_of_era_day(doe: int) -> int {
    (doe - doe / 1460 + doe / 36524 - doe / 146096) / 365
}

/// The day of its March-based year that day `doe` of an era falls on.
pub open spec fn day_of_era_year(doe: int) -> int {
    let yoe = year_of_era_day(doe);
    doe - (365 * yoe + yoe / 4 - yoe / 100)
}

/// Day `doe` of era `era` is a valid date whose day count is the era's start
/// plus `doe`.
proof fn lemma_civil_of_era_day(era: int, doe: int)
    requires
        0 <= doe < 146097,
    ensures
        ({
            let yoe = year_of_era_day(doe);
            let doy = day_of_era_year(doe);
            let y = yoe + 400 * era;
            let month = month_of_march_day(doy);
            let day = day_of_march_day(doy);
            let out = if month <= 2 { y + 1 } else { y };
            &&& 0 <= yoe <= 399
            &&& 0 <= doy <= 365
            &&& 1 <= month <= 12
            &&& 1 <= day <= 31
            &&& is_valid_date(out, month, day)
            &&& civil_to_days(out, month, day) == 146097 * era + doe - 719468
        }),
{
    lemma_year_of_era(doe);
    let yoe = year_of_era_day(doe);
    let doy = day_of_era_year(doe);
    let y = yoe + 400 * era;
    lemma_div_exact(y, 400, era, yoe);
    lemma_days_before_year_by_era(y);
    if doy == 365 {
        // the leap day closes a March-based year whose successor is leap
        assert(is_leap_year(y + 1)) by {
            let n = yoe + 1;
            lemma_fundamental_div_mod(n, 4);
            lemma_fundamental_div_mod(n, 100);
            lemma_fundamental_div_mod(n, 400);
            lemma_div_exact(y + 1, 4, 100 * era + n / 4, n % 4);
            lemma_div_exact(y + 1, 100, 4 * era + n / 100, n % 100);
            lemma_div_exact(y + 1, 400, era + n / 400, n % 400);
        }
    }
    lemma_month_of_march_day(doy, y + 1);
}

/// The civil date `(year, month, day)` of a day count since 1970-01-01.
pub fn civil_from_days(days: i64) -> (date: (i64, u32, u32))
    requires
        days <= i64::MAX - 719468,
    ensures
        is_valid_date(date.0 as int, date.1 as int, date.2 as int),
        civil_to_days(date.0 as int, date.1 as int, date.2 as int) == days,
{
    let z = days + 719468;
    let era = (if z >= 0 { z } else { z - 146096 }) / 146097;
    proof {
        lemma_fundamental_div_mod(z as int, 146097);
        if z < 0 {
            assert(era == z as int / 146097) by {
                assert(-146097 < (z - 146096) - 146097 * era <= 0);
                lemma_div_exact(z as int, 146097, era as int, z - 146097 * era);
            }
        }
        assert(-63_131_837_319_417 <= era <= 63_131_837_319_416);
        assert(-63_131_837_319_417 * 146097 <= era * 146097 <= 63_131_837_319_416 * 146097) by (nonlinear_arith)
            requires -63_131_837_319_417 <= era <= 63_131_837_319_416;
    }
    let doe = z - era * 146097;
    proof {
        lemma_civil_of_era_day(era as int, doe as int);
    }
    let yoe = (doe - doe / 1460 + doe / 36524 - doe / 146096) / 365;
    let year = yoe + era * 400;
    let doy = doe - (365 * yoe + yoe / 4 - yoe / 100);
    let mp = (5 * doy + 2) / 153;
    let day = (doy - (153 * mp + 2) / 5 + 1) as u32;
    let month = (if mp < 10 { mp + 3 } else { mp - 9 }) as u32;
    let out_year = if month <= 2 { year + 1 } else { year };
    (out_year, month, day)
}

/// Distinct real dates fall on distinct days: the day count of a valid date
/// determines the date.
pub proof fn lemma_civil_to_days_injective(y1: int, m1: int, d1: int, y2: int, m2: int, d2: int)
    requires
        is_valid_date(y1, m1, d1),
        is_valid_date(y2, m2, d2),
        civil_to_days(y1, m1, d1) == civil_to_days(y2, m2, d2),
    ensures
        y1 == y2 && m1 == m2 && d1 == d2,
{
    let a = march_year(y1, m1);
    let b = march_year(y2, m2);
    lemma_days_before_next_year(a);
    lemma_days_before_next_year(b);
    if a < b {
        lemma_days_before_year_monotone(a, b);
    } else if b < a {
        lemma_days_before_year_monotone(b, a);
    }
}

/// The first day of the month after `(year, month)`.
pub fn next_month(year: i64, month: u32) -> (next: (i64, u32))
    requires
        month < 12 || year < i64::MAX,
    ensures
        month >= 12 ==> next.0 == year + 1 && next.1 == 1,
        month < 12 ==> next.0 == year && next.1 == month + 1,
{
    if month >= 12 {
        (year + 1, 1)
    } else {
        (year, month + 1)
    }
}

/// Whole days in `secs` seconds since the epoch; a clock set before the
/// epoch counts as day 0.
pub fn days_since_epoch(secs: Option<u64>) -> (days: i64)
    ensures
        days == match secs {
            Some(s) => s / 86_400,
            None => 0,
        },
{
    match secs {
        Some(s) => (s / 86_400) as i64,
        None => 0,
    }
}

#[verifier::external_type_specification]
#[verifier::external_body]
pub struct ExSystemTime(std::time::SystemTime);

#[verifier::external_type_specification]
#[verifier::external_body]
pub struct ExSystemTimeError(std::time::SystemTimeError);

/// The current time of the system clock (`SystemTime::now`).
#[verifier::external_body]
fn system_now() -> std::time::SystemTime {
    std::time::SystemTime::now()
}

/// Time from the Unix epoch to `t` (`SystemTime::duration_since` with
/// `UNIX_EPOCH`); an error when `t` lies before the epoch.
#[verifier::external_body]
fn since_unix_epoch(t: &std::time::SystemTime) -> std::result::Result<std::time::Duration, std::time::SystemTimeError> {
    t.duration_since(std::time::UNIX_EPOCH)
}

/// Whole seconds of a duration (`Duration::as_secs`).
#[verifier::external_body]
fn duration_as_secs(d: std::time::Duration) -> u64 {
    d.as_secs()
}

/// Today as days since 1970-01-01, by the system clock in UTC.
pub fn today_days() -> (days: i64)
    ensures
        0 <= days <= u64::MAX / 86_400,
{
    let now = system_now();
    let secs = match since_unix_epoch(&now) {
        Ok(elapsed) => Some(duration_as_secs(elapsed)),
        Err(_) => None,
    };
    days_since_epoch(secs)
}

/// Bytes that `c` takes in UTF-8.
pub open spec fn utf8_len(c: char) -> int {
    if (c as u32) < 0x80 {
        1
    } else if (c as u32) < 0x800 {
        2
    } else if (c as u32) < 0x10000 {
        3
    } else {
        4
    }
}

/// Where the characters of `s` from position `i` on reach exactly `n` more
/// bytes of UTF-8: the end of the prefix, if the `n`-th byte ends a character.
pub open spec fn byte_prefix_end(s: Seq<char>, i: int, n: int) -> Option<int>
    decreases s.len() - i,
{
    if n == 0 {
        Some(i)
    } else if n < 0 || i < 0 || i >= s.len() {
        None
    } else {
        byte_prefix_end(s, i + 1, n - utf8_len(s[i]))
    }
}

/// The `k`-th piece of `s` split at `sep` (as `str::split` yields them), if
/// there are more than `k` pieces.
pub open spec fn split_piece(s: Seq<char>, sep: char, k: nat) -> Option<Seq<char>>
    decreases k,
{
    let i = first_index_of(s, sep);
    if k == 0 {
        Some(s.take(i))
    } else if i == s.len() {
        None
    } else {
        split_piece(s.skip(i + 1), sep, (k - 1) as nat)
    }
}

/// The day count of the `YYYY-MM-DD` that an ISO-8601 timestamp starts with:
/// the first ten bytes, split at `-`, give a year, a month from 1 to 12 and a
/// day that month has; anything else, an impossible date among it, is no
/// date.
pub open spec fn iso_days(iso: Seq<char>) -> Option<int> {
    match byte_prefix_end(iso, 0, 10) {
        None => None,
        Some(end) => { let date = iso.take(end); match (split_piece(date, '-', 0), split_piece(date, '-', 1), split_piece(date, '-', 2)) {
            (Some(y), Some(m), Some(d)) => match (parse_signed(y), parse_unsigned(m), parse_unsigned(d)) {
                (Some(year), Some(month), Some(day)) => {
                    if i64::MIN <= year <= i64::MAX && month <= u32::MAX && day <= u32::MAX
                        && is_valid_date(year, month, day) {
                        Some(civil_to_days(year, month, day))
                    } else {
                        None
                    }
                },
                _ => None,
            },
            _ => None,
        } },
    }
}

fn utf8_len_of(c: char) -> (n: i64)
    ensures
        n == utf8_len(c),
{
    let v = c as u32;
    if v < 0x80 {
        1
    } else if v < 0x800 {
        2
    } else if v < 0x10000 {
        3
    } else {
        4
    }
}

/// The value of the digits `v[start..end]`, if they are a non-empty run of
/// ASCII digits.
fn parse_digits(v: &Vec<char>, start: usize, end: usize) -> (r: Option<u64>)
    requires
        start <= end <= v.len(),
        end - start <= 10,
    ensures
        match r {
            Some(n) => is_digit_run(v@.subrange(start as int, end as int)) && n == digits_value(
                v@.subrange(start as int, end as int),
            ) && n < 10_000_000_000,
            None => !is_digit_run(v@.subrange(start as int, end as int)),
        },
{
    if start == end {
        return None;
    }
    let ghost s = v@.subrange(start as int, end as int);
    let mut acc: u64 = 0;
    let mut i = start;
    while i < end
        invariant
            start <= i <= end <= v.len(),
            end - start <= 10,
            s == v@.subrange(start as int, end as int),
            forall|j: int| 0 <= j < i - start ==> is_ascii_digit(#[trigger] s[j]),
            acc == digits_value(s.take(i - start)),
            acc < pow10(i - start),
        decreases end - i,
    {
        let c = v[i];
        if !('0' <= c && c <= '9') {
            assert(s[i - start] == c);
            return None;
        }
        proof {
            reveal_with_fuel(pow10, 11);
            assert(s.take(i - start + 1).drop_last() =~= s.take(i - start));
            assert(pow10(i - start + 1) == 10 * pow10(i - start));
            assert(pow10(i - start + 1) <= 10_000_000_000) by {
                lemma_pow10_le(i - start + 1, 10);
            }
        }
        acc = acc * 10 + ((c as u32) - ('0' as u32)) as u64;
        i = i + 1;
    }
    assert(s.take(end - start) =~= s);
    proof {
        reveal_with_fuel(pow10, 11);
        lemma_pow10_le(end - start, 10);
    }
    Some(acc)
}

spec fn pow10(n: int) -> int
    decreases n,
{
    if n <= 0 { 1 } else { 10 * pow10(n - 1) }
}

proof fn lemma_pow10_le(a: int, b: int)
    requires
        0 <= a <= b,
    ensures
        pow10(a) <= pow10(b),
        pow10(a) >= 1,
    decreases b,
{
    if a < b {
        lemma_pow10_le(a, b - 1);
    } else if a > 0 {
        lemma_pow10_le(a - 1, a - 1);
    }
}

/// Days since 1970-01-01 of the `YYYY-MM-DD` an ISO-8601 timestamp starts
/// with; `None` when the timestamp does not start with a date. Time of day and
/// zone are ignored.
pub fn iso_to_days(iso: &str) -> (days: Option<i64>)
    ensures
        match days {
            Some(d) => iso_days(iso@) == Some(d as int),
            None => iso_days(iso@) is None,
        },
{
    let v = chars_of(iso);
    let ghost s = v@;
    // the characters that make up the first ten bytes
    let mut end: usize = 0;
    let mut rest: i64 = 10;
    while rest > 0 && end < v.len()
        invariant
            s == v@,
            end <= v.len(),
            end as int + rest <= 10,
            rest <= 10,
            byte_prefix_end(s, 0, 10) == byte_prefix_end(s, end as int, rest as int),
        decreases v.len() - end,
    {
        rest = rest - utf8_len_of(v[end]);
        end = end + 1;
    }
    if rest != 0 {
        assert(byte_prefix_end(s, end as int, rest as int) is None);
        return None;
    }
    let ghost date = s.take(end as int);
    assert(date =~= v@.subrange(0, end as int));
    let i0 = find_char(&v, 0, end, '-');
    if i0 == end {
        assert(split_piece(date, '-', 1) is None);
        return None;
    }
    let i1 = find_char(&v, i0 + 1, end, '-');
    proof {
        assert(date.skip(i0 + 1) =~= v@.subrange(i0 + 1, end as int));
        assert(v@.subrange(0, end as int).take(i0 as int) =~= v@.subrange(0, i0 as int));
    }
    if i1 == end {
        assert(split_piece(date.skip(i0 + 1), '-', 1) is None);
        assert(split_piece(date, '-', 2) is None);
        return None;
    }
    let i2 = find_char(&v, i1 + 1, end, '-');
    proof {
        assert(date.skip(i0 + 1).skip(i1 - i0) =~= v@.subrange(i1 + 1, end as int));
        assert(v@.subrange(i0 + 1, end as int).take(i1 - i0 - 1) =~= v@.subrange(i0 + 1, i1 as int));
        assert(v@.subrange(i1 + 1, end as int).take(i2 - i1 - 1) =~= v@.subrange(i1 + 1, i2 as int));
        assert(split_piece(date, '-', 0) == Some(v@.subrange(0, i0 as int)));
        assert(split_piece(date.skip(i0 + 1), '-', 0) == Some(v@.subrange(i0 + 1, i1 as int)));
        assert(split_piece(date, '-', 1) == Some(v@.subrange(i0 + 1, i1 as int)));
        assert(split_piece(date.skip(i0 + 1).skip(i1 - i0), '-', 0) == Some(v@.subrange(i1 + 1, i2 as int)));
        assert(split_piece(date.skip(i0 + 1), '-', 1) == Some(v@.subrange(i1 + 1, i2 as int)));
        assert(split_piece(date, '-', 2) == Some(v@.subrange(i1 + 1, i2 as int)));
    }
    let year = match parse_signed_piece(&v, 0, i0) {
        Some(y) => y,
        None => {
            return None;
        },
    };
    let month = match parse_unsigned_piece(&v, i0 + 1, i1) {
        Some(m) => m,
        None => {
            return None;
        },
    };
    let day = match parse_unsigned_piece(&v, i1 + 1, i2) {
        Some(d) => d,
        None => {
            return None;
        },
    };
    if 1 <= month && month <= 12 && 1 <= day && day <= month_length(year, month as u32) as u64 {
        Some(days_from_civil(year, month as u32, day as u32))
    } else {
        None
    }
}

/// An optional `+` and then digits, as `str::parse` reads an unsigned number.
fn parse_unsigned_piece(v: &Vec<char>, start: usize, end: usize) -> (r: Option<u64>)
    requires
        start <= end <= v.len(),
        end - start <= 10,
    ensures
        match r {
            Some(n) => parse_unsigned(v@.subrange(start as int, end as int)) == Some(n as int) && n
                < 10_000_000_000,
            None => parse_unsigned(v@.subrange(start as int, end as int)) is None,
        },
{
    if start < end && v[start] == '+' {
        assert(v@.subrange(start as int, end as int).drop_first() =~= v@.subrange(start + 1, end as int));
        parse_digits(v, start + 1, end)
    } else {
        parse_digits(v, start, end)
    }
}

/// An optional sign and then digits, as `str::parse` reads a signed number.
fn parse_signed_piece(v: &Vec<char>, start: usize, end: usize) -> (r: Option<i64>)
    requires
        start <= end <= v.len(),
        end - start <= 10,
    ensures
        match r {
            Some(n) => parse_signed(v@.subrange(start as int, end as int)) == Some(n as int)
                && -10_000_000_000 < n < 10_000_000_000,
            None => parse_signed(v@.subrange(start as int, end as int)) is None,
        },
{
    if start < end && v[start] == '-' {
        assert(v@.subrange(start as int, end as int).drop_first() =~= v@.subrange(start + 1, end as int));
        match parse_digits(v, start + 1, end) {
            Some(n) => Some(-(n as i64)),
            None => None,
        }
    } else {
        match parse_unsigned_piece(v, start, end) {
            Some(n) => Some(n as i64),
            None => None,
        }
    }
}

} // verus!
