//! Timestamp representations.
//!
//! Stored timestamps are either a 32-bit epoch integer or a calendar text
//! in `"YYYY-MM-DD HH:MM:SS"` form, depending on the schema in use; one
//! choice applies to every entity of a deployment. This module carries the
//! proleptic-Gregorian arithmetic behind the calendar form, for epoch
//! seconds in the 32-bit range, together with the proof that decomposing an
//! epoch second into civil fields and recomposing it gives the second
//! back.

use vstd::prelude::*;
use vstd::arithmetic::div_mod::{
    lemma_div_denominator, lemma_div_is_ordered, lemma_fundamental_div_mod,
};

verus! {

/// Which form stored timestamps take.
#[derive(Clone, Copy, Debug, PartialEq, Eq, Structural)]
pub enum TimestampRepr {
    /// A 32-bit epoch-second integer.
    Epoch,
    /// A `"YYYY-MM-DD HH:MM:SS"` text.
    Calendar,
}

/// The largest epoch second the calendar form covers: the top of the
/// 32-bit storage range.
pub const CALENDAR_TS_MAX: i64 = 2147483647;

/// One decomposed timestamp: calendar date and time of day.
#[derive(Clone, Copy, Debug, PartialEq, Eq, Structural)]
pub struct CivilTime {
    pub year: u32,
    pub month: u32,
    pub day: u32,
    pub hour: u32,
    pub minute: u32,
    pub second: u32,
}

/// The Gregorian leap-year rule.
pub open spec fn is_leap_year(y: int) -> bool {
    y % 4 == 0 && (y % 100 != 0 || y % 400 == 0)
}

pub open spec fn days_in_year(y: int) -> int {
    if is_leap_year(y) {
        366
    } else {
        365
    }
}

pub open spec fn days_in_month(y: int, m: int) -> int {
    if m == 2 {
        if is_leap_year(y) {
            29
        } else {
            28
        }
    } else if m == 4 || m == 6 || m == 9 || m == 11 {
        30
    } else {
        31
    }
}

/// Walks whole years forward from `y` until fewer than a year of days is
/// left, yielding the year reached and the day of year (0-based).
pub open spec fn year_doy_from_days(z: int, y: int) -> (int, int)
    decreases z,
{
    if z < days_in_year(y) {
        (y, z)
    } else {
        year_doy_from_days(z - days_in_year(y), y + 1)
    }
}

/// Walks whole months forward from `m` through the day-of-year `doy`
/// (0-based), yielding the month reached and the day of month (1-based).
pub open spec fn month_day_from_doy(y: int, doy: int, m: int) -> (int, int)
    decreases 13 - m,
{
    if m >= 12 || doy < days_in_month(y, m) {
        (m, doy + 1)
    } else {
        month_day_from_doy(y, doy - days_in_month(y, m), m + 1)
    }
}

/// The civil fields of an epoch second.
pub open spec fn civil_from_timestamp(t: int) -> CivilTime {
    let z = t / 86400;
    let sod = t % 86400;
    let yd = year_doy_from_days(z, 1970);
    let md = month_day_from_doy(yd.0, yd.1, 1);
    CivilTime {
        year: yd.0 as u32,
        month: md.0 as u32,
        day: md.1 as u32,
        hour: (sod / 3600) as u32,
        minute: ((sod / 60) % 60) as u32,
        second: (sod % 60) as u32,
    }
}

/// Days from the epoch to the start of year `y`.
pub open spec fn days_before_year(y: int) -> int
    decreases y - 1970,
{
    if y <= 1970 {
        0
    } else {
        days_before_year(y - 1) + days_in_year(y - 1)
    }
}

/// Days from the start of the year to the start of month `m`.
pub open spec fn days_before_month(y: int, m: int) -> int
    decreases m,
{
    if m <= 1 {
        0
    } else {
        days_before_month(y, m - 1) + days_in_month(y, m - 1)
    }
}

/// The epoch second of a set of civil fields.
pub open spec fn timestamp_of_civil(c: CivilTime) -> int {
    (days_before_year(c.year as int) + days_before_month(c.year as int, c.month as int) + (
    c.day as int - 1)) * 86400 + (c.hour as int) * 3600 + (c.minute as int) * 60 + (
    c.second as int)
}

/// Whether civil fields name a real second of a real day.
pub open spec fn civil_wf(c: CivilTime) -> bool {
    &&& 1970 <= c.year as int
    &&& 1 <= c.month as int <= 12
    &&& 1 <= c.day as int <= days_in_month(c.year as int, c.month as int)
    &&& c.hour < 24
    &&& c.minute < 60
    &&& c.second < 60
}

/// The months of a year account for all of its days.
proof fn lemma_year_is_months(y: int)
    ensures
        days_before_month(y, 13) == days_in_year(y),
{
    reveal_with_fuel(days_before_month, 14);
}

/// Walking months through a day-of-year lands on the day whose offset from
/// the start of the year is exactly that day-of-year.
proof fn lemma_month_day_roundtrip(y: int, doy: int, m: int)
    requires
        1 <= m <= 12,
        0 <= doy,
        days_before_month(y, m) + doy < days_in_year(y),
    ensures
        ({
            let md = month_day_from_doy(y, doy, m);
            &&& m <= md.0 <= 12
            &&& 1 <= md.1 <= days_in_month(y, md.0)
            &&& days_before_month(y, md.0) + md.1 - 1 == days_before_month(y, m) + doy
        }),
    decreases 13 - m,
{
    lemma_year_is_months(y);
    if m >= 12 || doy < days_in_month(y, m) {
        if m >= 12 {
            assert(days_before_month(y, 13) == days_before_month(y, 12) + days_in_month(y, 12));
        }
    } else {
        assert(days_before_month(y, m + 1) == days_before_month(y, m) + days_in_month(y, m));
        lemma_month_day_roundtrip(y, doy - days_in_month(y, m), m + 1);
    }
}

/// Walking years through a day count lands on the day whose offset from
/// the epoch is exactly that count.
proof fn lemma_year_doy_roundtrip(z: int, y: int)
    requires
        0 <= z,
        1970 <= y,
    ensures
        ({
            let yd = year_doy_from_days(z, y);
            &&& y <= yd.0
            &&& 0 <= yd.1 < days_in_year(yd.0)
            &&& days_before_year(yd.0) - days_before_year(y) + yd.1 == z
        }),
    decreases z,
{
    if z >= days_in_year(y) {
        assert(days_before_year(y + 1) == days_before_year(y) + days_in_year(y));
        lemma_year_doy_roundtrip(z - days_in_year(y), y + 1);
    }
}

/// Every year has at least 365 days.
proof fn lemma_days_before_year_lower(y: int)
    requires
        1970 <= y,
    ensures
        days_before_year(y) >= 365 * (y - 1970),
    decreases y - 1970,
{
    if y > 1970 {
        lemma_days_before_year_lower(y - 1);
    }
}

/// Decomposing an epoch second in the 32-bit range into civil fields and
/// recomposing it yields the second back, and the fields are a real,
/// in-range calendar time no later than 2038.
pub proof fn lemma_civil_roundtrip(t: int)
    requires
        0 <= t <= CALENDAR_TS_MAX,
    ensures
        ({
            let c = civil_from_timestamp(t);
            &&& civil_wf(c)
            &&& c.year <= 2038
            &&& timestamp_of_civil(c) == t
        }),
{
    let z = t / 86400;
    let sod = t % 86400;
    lemma_fundamental_div_mod(t, 86400);
    assert(0 <= sod < 86400);
    assert(0 <= z);
    lemma_div_is_ordered(t, CALENDAR_TS_MAX as int, 86400);
    assert(CALENDAR_TS_MAX as int / 86400 == 24855);
    let yd = year_doy_from_days(z, 1970);
    lemma_year_doy_roundtrip(z, 1970);
    let y = yd.0;
    let doy = yd.1;
    assert(days_before_year(y) + doy == z);
    if y > 2038 {
        lemma_days_before_year_lower(y);
        assert(days_before_year(y) >= 365 * (y - 1970));
        assert(365 * (y - 1970) >= 365 * 69) by (nonlinear_arith)
            requires
                y - 1970 >= 69,
        ;
        assert(false);
    }
    let md = month_day_from_doy(y, doy, 1);
    lemma_month_day_roundtrip(y, doy, 1);
    assert(days_before_month(y, md.0) + md.1 - 1 == doy);
    let hh = sod / 3600;
    let mi = (sod / 60) % 60;
    let ss = sod % 60;
    lemma_fundamental_div_mod(sod, 60);
    lemma_fundamental_div_mod(sod / 60, 60);
    lemma_div_denominator(sod, 60, 60);
    assert(sod / 3600 == (sod / 60) / 60);
    assert(hh * 3600 + mi * 60 + ss == sod) by (nonlinear_arith)
        requires
            sod == 60 * (sod / 60) + sod % 60,
            sod / 60 == 60 * ((sod / 60) / 60) + (sod / 60) % 60,
            hh == (sod / 60) / 60,
            mi == (sod / 60) % 60,
            ss == sod % 60,
    ;
    assert(hh < 24) by {
        lemma_div_is_ordered(sod, 86399int, 3600);
        assert(86399int / 3600 == 23);
    }
    assert(mi < 60);
    assert(ss < 60);
    let c = civil_from_timestamp(t);
    assert(c.year as int == y);
    assert(c.month as int == md.0);
    assert(c.day as int == md.1);
    assert(c.hour as int == hh);
    assert(c.minute as int == mi);
    assert(c.second as int == ss);
    assert((days_before_year(y) + days_before_month(y, md.0) + (md.1 - 1)) * 86400 == z * 86400)
        by (nonlinear_arith)
        requires
            days_before_year(y) + days_before_month(y, md.0) + (md.1 - 1) == z,
    ;
    assert(timestamp_of_civil(c) == z * 86400 + sod);
}

/// The decimal digit character of `d`.
pub open spec fn digit_char(d: int) -> char {
    if d == 0 {
        '0'
    } else if d == 1 {
        '1'
    } else if d == 2 {
        '2'
    } else if d == 3 {
        '3'
    } else if d == 4 {
        '4'
    } else if d == 5 {
        '5'
    } else if d == 6 {
        '6'
    } else if d == 7 {
        '7'
    } else if d == 8 {
        '8'
    } else {
        '9'
    }
}

/// Whether `c` is a decimal digit character.
pub open spec fn is_digit(c: char) -> bool {
    48 <= c as u32 <= 57
}

/// The value of a decimal digit character.
pub open spec fn digit_of(c: char) -> int {
    c as u32 - 48
}

/// The two digit characters of a two-digit number.
pub open spec fn two_digits(n: int) -> Seq<char> {
    seq![digit_char(n / 10), digit_char(n % 10)]
}

/// The four digit characters of a four-digit number.
pub open spec fn four_digits(n: int) -> Seq<char> {
    seq![
        digit_char(n / 1000),
        digit_char((n / 100) % 10),
        digit_char((n / 10) % 10),
        digit_char(n % 10),
    ]
}

/// The canonical `"YYYY-MM-DD HH:MM:SS"` characters of civil fields.
pub open spec fn calendar_chars(c: CivilTime) -> Seq<char> {
    four_digits(c.year as int) + seq!['-'] + two_digits(c.month as int) + seq!['-'] + two_digits(
        c.day as int,
    ) + seq![' '] + two_digits(c.hour as int) + seq![':'] + two_digits(c.minute as int) + seq![':']
        + two_digits(c.second as int)
}

/// The canonical calendar text of an epoch second.
pub open spec fn calendar_string_of(t: int) -> Seq<char> {
    calendar_chars(civil_from_timestamp(t))
}

/// A two-digit number is its tens digit times ten plus its ones digit.
proof fn lemma_two_digit_value(n: int)
    requires
        0 <= n <= 99,
    ensures
        0 <= n / 10 <= 9,
        0 <= n % 10 <= 9,
        10 * (n / 10) + n % 10 == n,
{
    lemma_fundamental_div_mod(n, 10);
    lemma_div_is_ordered(n, 99, 10);
    assert(99int / 10 == 9);
}

/// A four-digit number is recovered from its four decimal digits.
proof fn lemma_four_digit_value(n: int)
    requires
        0 <= n <= 9999,
    ensures
        0 <= n / 1000 <= 9,
        0 <= (n / 100) % 10 <= 9,
        0 <= (n / 10) % 10 <= 9,
        0 <= n % 10 <= 9,
        1000 * (n / 1000) + 100 * ((n / 100) % 10) + 10 * ((n / 10) % 10) + n % 10 == n,
{
    lemma_fundamental_div_mod(n, 10);
    lemma_fundamental_div_mod(n / 10, 10);
    lemma_fundamental_div_mod(n / 100, 10);
    lemma_div_denominator(n, 10, 10);
    lemma_div_denominator(n, 100, 10);
    assert((n / 10) / 10 == n / 100);
    assert((n / 100) / 10 == n / 1000);
    lemma_div_is_ordered(n, 9999, 1000);
    assert(9999int / 1000 == 9);
}

/// The number of days of year `y`.
pub fn days_in_year_exec(y: u64) -> (r: u64)
    ensures
        r as int == days_in_year(y as int),
{
    if y % 4 == 0 && (y % 100 != 0 || y % 400 == 0) {
        366
    } else {
        365
    }
}

/// The number of days of month `m` of year `y`.
pub fn days_in_month_exec(y: u64, m: u64) -> (r: u64)
    ensures
        r as int == days_in_month(y as int, m as int),
{
    if m == 2 {
        if y % 4 == 0 && (y % 100 != 0 || y % 400 == 0) {
            29
        } else {
            28
        }
    } else if m == 4 || m == 6 || m == 9 || m == 11 {
        30
    } else {
        31
    }
}

/// Decomposes an epoch second in the 32-bit range into civil fields.
pub fn civil_from_timestamp_exec(t: i64) -> (c: CivilTime)
    requires
        0 <= t <= CALENDAR_TS_MAX,
    ensures
        c == civil_from_timestamp(t as int),
{
    let tu = t as u64;
    let z: u64 = tu / 86400;
    let sod: u64 = tu % 86400;
    proof {
        lemma_div_is_ordered(t as int, CALENDAR_TS_MAX as int, 86400);
        assert(CALENDAR_TS_MAX as int / 86400 == 24855);
    }
    let mut y: u64 = 1970;
    let mut rem: u64 = z;
    while rem >= days_in_year_exec(y)
        invariant
            0 <= t <= CALENDAR_TS_MAX,
            z == t as int / 86400,
            z <= 24855,
            1970 <= y,
            rem <= z,
            y - 1970 <= z - rem,
            year_doy_from_days(z as int, 1970) == year_doy_from_days(rem as int, y as int),
        decreases rem,
    {
        let d = days_in_year_exec(y);
        proof {
            assert(year_doy_from_days(rem as int, y as int) == year_doy_from_days(
                rem as int - days_in_year(y as int),
                y as int + 1,
            ));
        }
        rem = rem - d;
        y = y + 1;
    }
    proof {
        assert(year_doy_from_days(rem as int, y as int) == (y as int, rem as int));
    }
    let mut m: u64 = 1;
    let mut doy: u64 = rem;
    while m < 12 && doy >= days_in_month_exec(y, m)
        invariant
            1 <= m <= 12,
            doy <= rem,
            month_day_from_doy(y as int, rem as int, 1) == month_day_from_doy(
                y as int,
                doy as int,
                m as int,
            ),
        decreases 12 - m,
    {
        let d = days_in_month_exec(y, m);
        proof {
            assert(month_day_from_doy(y as int, doy as int, m as int) == month_day_from_doy(
                y as int,
                doy as int - days_in_month(y as int, m as int),
                m as int + 1,
            ));
        }
        doy = doy - d;
        m = m + 1;
    }
    proof {
        assert(month_day_from_doy(y as int, doy as int, m as int) == (m as int, doy as int + 1));
    }
    let hour = sod / 3600;
    let minute = (sod / 60) % 60;
    let second = sod % 60;
    let c = CivilTime {
        year: y as u32,
        month: m as u32,
        day: (doy + 1) as u32,
        hour: hour as u32,
        minute: minute as u32,
        second: second as u32,
    };
    proof {
        assert(sod as int == t as int % 86400);
        assert(c == civil_from_timestamp(t as int));
    }
    c
}

/// Recomposes civil fields into an epoch second count.
pub fn timestamp_of_civil_exec(c: &CivilTime) -> (r: u64)
    requires
        1970 <= c.year <= 9999,
        1 <= c.month <= 12,
        1 <= c.day <= 31,
        c.hour < 24,
        c.minute < 60,
        c.second < 60,
    ensures
        r as int == timestamp_of_civil(*c),
{
    let mut days: u64 = 0;
    let mut yy: u64 = 1970;
    while yy < c.year as u64
        invariant
            1970 <= yy <= c.year,
            days as int == days_before_year(yy as int),
            days <= 366 * (yy - 1970),
        decreases c.year as u64 - yy,
    {
        proof {
            assert(days_before_year(yy as int + 1) == days_before_year(yy as int) + days_in_year(
                yy as int,
            ));
        }
        days = days + days_in_year_exec(yy);
        yy = yy + 1;
    }
    let mut mm: u64 = 1;
    let mut mdays: u64 = 0;
    while mm < c.month as u64
        invariant
            1 <= mm <= c.month,
            mdays as int == days_before_month(c.year as int, mm as int),
            mdays <= 31 * (mm - 1),
        decreases c.month as u64 - mm,
    {
        proof {
            assert(days_before_month(c.year as int, mm as int + 1) == days_before_month(
                c.year as int,
                mm as int,
            ) + days_in_month(c.year as int, mm as int));
        }
        mdays = mdays + days_in_month_exec(c.year as u64, mm);
        mm = mm + 1;
    }
    let total_days = days + mdays + (c.day as u64 - 1);
    let r = total_days * 86400 + (c.hour as u64) * 3600 + (c.minute as u64) * 60 + (
    c.second as u64);
    proof {
        assert(days <= 366 * (9999 - 1970));
        assert(total_days <= 366 * 8029 + 341 + 30);
    }
    r
}

/// A digit character carries its value.
proof fn lemma_digit_char_code(v: int)
    requires
        0 <= v <= 9,
    ensures
        is_digit(digit_char(v)),
        digit_of(digit_char(v)) == v,
{
}

/// How a canonical calendar text is laid out, character by character.
proof fn lemma_canonical_calendar(t0: int)
    requires
        0 <= t0 <= CALENDAR_TS_MAX,
    ensures
        ({
            let c = civil_from_timestamp(t0);
            let cs = calendar_string_of(t0);
            &&& civil_wf(c)
            &&& c.year <= 2038
            &&& timestamp_of_civil(c) == t0
            &&& cs.len() == 19
            &&& cs[4] == '-' && cs[7] == '-' && cs[10] == ' ' && cs[13] == ':' && cs[16] == ':'
            &&& is_digit(cs[0]) && is_digit(cs[1]) && is_digit(cs[2]) && is_digit(cs[3])
            &&& is_digit(cs[5]) && is_digit(cs[6]) && is_digit(cs[8]) && is_digit(cs[9])
            &&& is_digit(cs[11]) && is_digit(cs[12]) && is_digit(cs[14]) && is_digit(cs[15])
            &&& is_digit(cs[17]) && is_digit(cs[18])
            &&& 1000 * digit_of(cs[0]) + 100 * digit_of(cs[1]) + 10 * digit_of(cs[2]) + digit_of(
                cs[3],
            ) == c.year as int
            &&& 10 * digit_of(cs[5]) + digit_of(cs[6]) == c.month as int
            &&& 10 * digit_of(cs[8]) + digit_of(cs[9]) == c.day as int
            &&& 10 * digit_of(cs[11]) + digit_of(cs[12]) == c.hour as int
            &&& 10 * digit_of(cs[14]) + digit_of(cs[15]) == c.minute as int
            &&& 10 * digit_of(cs[17]) + digit_of(cs[18]) == c.second as int
        }),
{
    lemma_civil_roundtrip(t0);
    let c = civil_from_timestamp(t0);
    let cs = calendar_string_of(t0);
    let y = c.year as int;
    let mo = c.month as int;
    let d = c.day as int;
    let hh = c.hour as int;
    let mi = c.minute as int;
    let ss = c.second as int;
    lemma_four_digit_value(y);
    lemma_two_digit_value(mo);
    lemma_two_digit_value(d);
    lemma_two_digit_value(hh);
    lemma_two_digit_value(mi);
    lemma_two_digit_value(ss);
    let flat = seq![
        digit_char(y / 1000),
        digit_char((y / 100) % 10),
        digit_char((y / 10) % 10),
        digit_char(y % 10),
        '-',
        digit_char(mo / 10),
        digit_char(mo % 10),
        '-',
        digit_char(d / 10),
        digit_char(d % 10),
        ' ',
        digit_char(hh / 10),
        digit_char(hh % 10),
        ':',
        digit_char(mi / 10),
        digit_char(mi % 10),
        ':',
        digit_char(ss / 10),
        digit_char(ss % 10),
    ];
    assert(cs =~= flat);
    lemma_digit_char_code(y / 1000);
    lemma_digit_char_code((y / 100) % 10);
    lemma_digit_char_code((y / 10) % 10);
    lemma_digit_char_code(y % 10);
    lemma_digit_char_code(mo / 10);
    lemma_digit_char_code(mo % 10);
    lemma_digit_char_code(d / 10);
    lemma_digit_char_code(d % 10);
    lemma_digit_char_code(hh / 10);
    lemma_digit_char_code(hh % 10);
    lemma_digit_char_code(mi / 10);
    lemma_digit_char_code(mi % 10);
    lemma_digit_char_code(ss / 10);
    lemma_digit_char_code(ss % 10);
}

/// Two epoch seconds with the same canonical calendar text are the same
/// second.
pub proof fn lemma_calendar_string_injective(t1: int, t2: int)
    requires
        0 <= t1 <= CALENDAR_TS_MAX,
        0 <= t2 <= CALENDAR_TS_MAX,
        calendar_string_of(t1) == calendar_string_of(t2),
    ensures
        t1 == t2,
{
    lemma_canonical_calendar(t1);
    lemma_canonical_calendar(t2);
    assert(civil_from_timestamp(t1) == civil_from_timestamp(t2));
}

/// The one-character text of a decimal digit.
fn digit_str(d: u64) -> (r: &'static str)
    requires
        d <= 9,
    ensures
        r@ =~= seq![digit_char(d as int)],
{
    proof {
        reveal_strlit("0");
        reveal_strlit("1");
        reveal_strlit("2");
        reveal_strlit("3");
        reveal_strlit("4");
        reveal_strlit("5");
        reveal_strlit("6");
        reveal_strlit("7");
        reveal_strlit("8");
        reveal_strlit("9");
    }
    match d {
        0 => "0",
        1 => "1",
        2 => "2",
        3 => "3",
        4 => "4",
        5 => "5",
        6 => "6",
        7 => "7",
        8 => "8",
        _ => "9",
    }
}

/// Appends the two digits of a two-digit number.
fn push_two_digits(out: &mut String, n: u64)
    requires
        n <= 99,
    ensures
        final(out)@ == old(out)@ + two_digits(n as int),
{
    out.append(digit_str(n / 10));
    out.append(digit_str(n % 10));
    proof {
        assert(out@ =~= old(out)@ + two_digits(n as int));
    }
}

/// Appends the four digits of a four-digit number.
fn push_four_digits(out: &mut String, n: u64)
    requires
        n <= 9999,
    ensures
        final(out)@ == old(out)@ + four_digits(n as int),
{
    out.append(digit_str(n / 1000));
    out.append(digit_str((n / 100) % 10));
    out.append(digit_str((n / 10) % 10));
    out.append(digit_str(n % 10));
    proof {
        assert(out@ =~= old(out)@ + four_digits(n as int));
    }
}

/// Renders civil fields in canonical `"YYYY-MM-DD HH:MM:SS"` form.
fn format_civil(c: &CivilTime) -> (r: String)
    requires
        c.year <= 9999,
        c.month <= 99,
        c.day <= 99,
        c.hour <= 99,
        c.minute <= 99,
        c.second <= 99,
    ensures
        r@ == calendar_chars(*c),
{
    proof {
        reveal_strlit("-");
        reveal_strlit(" ");
        reveal_strlit(":");
    }
    let mut out = String::new();
    push_four_digits(&mut out, c.year as u64);
    out.append("-");
    push_two_digits(&mut out, c.month as u64);
    out.append("-");
    push_two_digits(&mut out, c.day as u64);
    out.append(" ");
    push_two_digits(&mut out, c.hour as u64);
    out.append(":");
    push_two_digits(&mut out, c.minute as u64);
    out.append(":");
    push_two_digits(&mut out, c.second as u64);
    proof {
        assert(out@ =~= calendar_chars(*c));
    }
    out
}

/// Renders an epoch second in the 32-bit range as canonical calendar
/// text.
pub fn format_calendar(t: i64) -> (r: String)
    requires
        0 <= t <= CALENDAR_TS_MAX,
    ensures
        r@ == calendar_string_of(t as int),
{
    proof {
        lemma_civil_roundtrip(t as int);
    }
    let c = civil_from_timestamp_exec(t);
    format_civil(&c)
}

/// Reads the value of the digit character at `i`.
fn read_digit(s: &str, i: usize) -> (r: Option<u64>)
    requires
        i < s@.len(),
    ensures
        r is Some <==> is_digit(s@[i as int]),
        r matches Some(v) ==> v <= 9 && v as int == digit_of(s@[i as int]),
{
    let c = s.get_char(i);
    let u = c as u32;
    if 48 <= u && u <= 57 {
        Some((u - 48) as u64)
    } else {
        None
    }
}

/// Reads the two-digit number at `i`.
fn read_two(s: &str, i: usize) -> (r: Option<u64>)
    requires
        i + 2 <= s@.len() <= usize::MAX,
    ensures
        r is Some <==> is_digit(s@[i as int]) && is_digit(s@[i + 1]),
        r matches Some(v) ==> v <= 99 && v as int == 10 * digit_of(s@[i as int]) + digit_of(
            s@[i + 1],
        ),
{
    let a = match read_digit(s, i) {
        Some(v) => v,
        None => { return None; },
    };
    let b = match read_digit(s, i + 1) {
        Some(v) => v,
        None => { return None; },
    };
    Some(10 * a + b)
}

/// Reads the four-digit number at `i`.
fn read_four(s: &str, i: usize) -> (r: Option<u64>)
    requires
        i + 4 <= s@.len() <= usize::MAX,
    ensures
        r is Some <==> is_digit(s@[i as int]) && is_digit(s@[i + 1]) && is_digit(s@[i + 2])
            && is_digit(s@[i + 3]),
        r matches Some(v) ==> v <= 9999 && v as int == 1000 * digit_of(s@[i as int]) + 100
            * digit_of(s@[i + 1]) + 10 * digit_of(s@[i + 2]) + digit_of(s@[i + 3]),
{
    let a = match read_digit(s, i) {
        Some(v) => v,
        None => { return None; },
    };
    let b = match read_digit(s, i + 1) {
        Some(v) => v,
        None => { return None; },
    };
    let c = match read_digit(s, i + 2) {
        Some(v) => v,
        None => { return None; },
    };
    let d = match read_digit(s, i + 3) {
        Some(v) => v,
        None => { return None; },
    };
    Some(1000 * a + 100 * b + 10 * c + d)
}

/// Parses canonical `"YYYY-MM-DD HH:MM:SS"` text back into the epoch
/// second it renders. Exactly the canonical texts of the 32-bit epoch
/// range are accepted: parsing succeeds on the canonical text of any such
/// second and returns that second, and on nothing else.
pub fn parse_calendar(s: &str) -> (r: Option<i64>)
    ensures
        r matches Some(t) ==> 0 <= t <= CALENDAR_TS_MAX && s@ == calendar_string_of(t as int),
        forall|t0: i64|
            0 <= t0 <= CALENDAR_TS_MAX && s@ == #[trigger] calendar_string_of(t0 as int) ==> r
                == Some(t0),
{
    if s.unicode_len() != 19 {
        proof {
            assert forall|t0: i64|
                0 <= t0 <= CALENDAR_TS_MAX && s@ == #[trigger] calendar_string_of(t0 as int)
                    implies false by {
                lemma_canonical_calendar(t0 as int);
            }
        }
        return None;
    }
    if !(s.get_char(4) == '-' && s.get_char(7) == '-' && s.get_char(10) == ' ' && s.get_char(13)
        == ':' && s.get_char(16) == ':') {
        proof {
            assert forall|t0: i64|
                0 <= t0 <= CALENDAR_TS_MAX && s@ == #[trigger] calendar_string_of(t0 as int)
                    implies false by {
                lemma_canonical_calendar(t0 as int);
            }
        }
        return None;
    }
    let parts = (
        read_four(s, 0),
        read_two(s, 5),
        read_two(s, 8),
        read_two(s, 11),
        read_two(s, 14),
        read_two(s, 17),
    );
    let (y, mo, d, hh, mi, ss) = match parts {
        (Some(y), Some(mo), Some(d), Some(hh), Some(mi), Some(ss)) => (y, mo, d, hh, mi, ss),
        _ => {
            proof {
                assert forall|t0: i64|
                    0 <= t0 <= CALENDAR_TS_MAX && s@ == #[trigger] calendar_string_of(t0 as int)
                        implies false by {
                    lemma_canonical_calendar(t0 as int);
                }
            }
            return None;
        },
    };
    let fields_ok = 1970 <= y && y <= 9999 && 1 <= mo && mo <= 12 && 1 <= d && d
        <= days_in_month_exec(y, mo) && hh < 24 && mi < 60 && ss < 60;
    if !fields_ok {
        proof {
            assert forall|t0: i64|
                0 <= t0 <= CALENDAR_TS_MAX && s@ == #[trigger] calendar_string_of(t0 as int)
                    implies false by {
                lemma_canonical_calendar(t0 as int);
            }
        }
        return None;
    }
    let civil = CivilTime {
        year: y as u32,
        month: mo as u32,
        day: d as u32,
        hour: hh as u32,
        minute: mi as u32,
        second: ss as u32,
    };
    let total = timestamp_of_civil_exec(&civil);
    if total > CALENDAR_TS_MAX as u64 {
        proof {
            assert forall|t0: i64|
                0 <= t0 <= CALENDAR_TS_MAX && s@ == #[trigger] calendar_string_of(t0 as int)
                    implies false by {
                lemma_canonical_calendar(t0 as int);
                assert(civil == civil_from_timestamp(t0 as int));
            }
        }
        return None;
    }
    let t = total as i64;
    let formatted = format_calendar(t);
    if crate::json::str_eq(s, formatted.as_str()) {
        proof {
            assert forall|t0: i64|
                0 <= t0 <= CALENDAR_TS_MAX && s@ == #[trigger] calendar_string_of(t0 as int)
                    implies Some(t) == Some(t0) by {
                lemma_canonical_calendar(t0 as int);
                assert(civil == civil_from_timestamp(t0 as int));
            }
        }
        Some(t)
    } else {
        proof {
            assert forall|t0: i64|
                0 <= t0 <= CALENDAR_TS_MAX && s@ == #[trigger] calendar_string_of(t0 as int)
                    implies false by {
                lemma_canonical_calendar(t0 as int);
                assert(civil == civil_from_timestamp(t0 as int));
                assert(formatted@ == calendar_string_of(t0 as int));
            }
        }
        None
    }
}

} // verus!
