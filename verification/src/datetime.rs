//! Proleptic Gregorian calendar arithmetic for the date shown in the settings.
use vstd::prelude::*;

use crate::text::{decimal, push_decimal, zero_padded};

verus! {

/// Whether `y` is a leap year of the proleptic Gregorian calendar.
pub open spec fn is_leap_year(y: int) -> bool {
    y % 4 == 0 && (y % 100 != 0 || y % 400 == 0)
}

/// Number of days of month `m` (1 = January) of year `y`.
pub open spec fn days_in_month(y: int, m: int) -> int {
    if m == 2 {
        if is_leap_year(y) { 29 } else { 28 }
    } else if m == 4 || m == 6 || m == 9 || m == 11 {
        30
    } else {
        31
    }
}

/// Days of year `y` that come before the first day of month `m`.
pub open spec fn days_before_month(y: int, m: int) -> int
    decreases m,
{
    if m <= 1 { 0 } else { days_before_month(y, m - 1) + days_in_month(y, m - 1) }
}

/// The count of leap years among the years 1 through `y`, shifted by a constant
/// so that it stays meaningful for years before 1; only differences are used.
pub open spec fn leap_years_through(y: int) -> int {
    y / 4 - y / 100 + y / 400
}

/// Days from 1970-01-01 to the first of January of year `y` (negative before 1970).
pub open spec fn days_before_year(y: int) -> int {
    365 * (y - 1970) + leap_years_through(y - 1) - leap_years_through(1969)
}

/// Whether `(y, m, d)` names a day of the calendar.
pub open spec fn is_valid_date(y: int, m: int, d: int) -> bool {
    1 <= m <= 12 && 1 <= d <= days_in_month(y, m)
}

/// Days from 1970-01-01 to the date `(y, m, d)`.
pub open spec fn days_from_civil(y: int, m: int, d: int) -> int {
    days_before_year(y) + days_before_month(y, m) + d - 1
}

/// First day, counted from the start of a 400-year era that begins on a first of
/// March, of the March-based year `t` of that era.
spec fn era_year_start(t: int) -> int {
    365 * t + t / 4 - t / 100 + t / 400
}

/// Days of the March-based month `mp` (0 = March, 11 = February).
spec fn march_month_length(mp: int, leap: bool) -> int {
    if mp == 11 {
        if leap { 29 } else { 28 }
    } else if mp == 1 || mp == 3 || mp == 6 || mp == 8 {
        30
    } else {
        31
    }
}

proof fn lemma_leap_step(y: int)
    ensures
        leap_years_through(y) - leap_years_through(y - 1) == (if is_leap_year(y) { 1int } else { 0int }),
{
}

/// A year is one day longer than 365 exactly when it is a leap year.
pub proof fn lemma_year_length(y: int)
    ensures
        days_before_year(y + 1) - days_before_year(y) == (if is_leap_year(y) { 366int } else { 365int }),
{
    lemma_leap_step(y);
}

proof fn lemma_leap_era(e: int, t: int)
    ensures
        leap_years_through(400 * e + t) == 97 * e + leap_years_through(t),
        is_leap_year(400 * e + t) == is_leap_year(t),
{
    assert((400 * e + t) / 4 == 100 * e + t / 4);
    assert((400 * e + t) / 100 == 4 * e + t / 100);
    assert((400 * e + t) / 400 == e + t / 400);
    assert((400 * e + t) % 4 == t % 4);
    assert((400 * e + t) % 100 == t % 100);
    assert((400 * e + t) % 400 == t % 400);
}

/// The first of March of year `y` lies `365 * y + leap_years_through(y) - 719468`
/// days after 1970-01-01.
proof fn lemma_march_first(y: int)
    ensures
        days_before_year(y) + 59 + (if is_leap_year(y) { 1int } else { 0int })
            == 365 * y + leap_years_through(y) - 719468,
{
    lemma_leap_step(y);
}

proof fn lemma_days_before_month_values(y: int)
    ensures
        days_before_month(y, 1) == 0,
        days_before_month(y, 2) == 31,
        days_before_month(y, 3) == 59 + (if is_leap_year(y) { 1int } else { 0int }),
        days_before_month(y, 4) == 90 + (if is_leap_year(y) { 1int } else { 0int }),
        days_before_month(y, 5) == 120 + (if is_leap_year(y) { 1int } else { 0int }),
        days_before_month(y, 6) == 151 + (if is_leap_year(y) { 1int } else { 0int }),
        days_before_month(y, 7) == 181 + (if is_leap_year(y) { 1int } else { 0int }),
        days_before_month(y, 8) == 212 + (if is_leap_year(y) { 1int } else { 0int }),
        days_before_month(y, 9) == 243 + (if is_leap_year(y) { 1int } else { 0int }),
        days_before_month(y, 10) == 273 + (if is_leap_year(y) { 1int } else { 0int }),
        days_before_month(y, 11) == 304 + (if is_leap_year(y) { 1int } else { 0int }),
        days_before_month(y, 12) == 334 + (if is_leap_year(y) { 1int } else { 0int }),
        days_before_month(y, 13) == 365 + (if is_leap_year(y) { 1int } else { 0int }),
{
    reveal_with_fuel(days_before_month, 13);
}

/// The year of an era that a day of that era falls in.
proof fn lemma_year_of_era(doe: int)
    requires
        0 <= doe <= 146096,
    ensures
        ({
            let yoe = (doe - doe / 1460 + doe / 36524 - doe / 146096) / 365;
            &&& 0 <= yoe <= 399
            &&& era_year_start(yoe) <= doe < era_year_start(yoe + 1)
        }),
{
    let a = doe / 1460;
    let b = doe / 36524;
    let c = doe / 146096;
    let n = doe - a + b - c;
    let yoe = n / 365;
    assert(0 <= yoe <= 399);
    assert(era_year_start(yoe) <= doe < era_year_start(yoe + 1));
}

/// The March-based month and day of a day of a March-based year.
proof fn lemma_month_of_year(doy: int, leap: bool)
    requires
        0 <= doy < 365 + (if leap { 1int } else { 0int }),
    ensures
        ({
            let mp = (5 * doy + 2) / 153;
            &&& 0 <= mp <= 11
            &&& 0 <= doy - (153 * mp + 2) / 5 < march_month_length(mp, leap)
        }),
{
    let mp = (5 * doy + 2) / 153;
    assert(153 * mp <= 5 * doy + 2 < 153 * mp + 153);
    assert(0 <= mp <= 11);
}

proof fn lemma_leap_count_monotone(a: int, b: int)
    requires
        a <= b,
    ensures
        leap_years_through(a) <= leap_years_through(b),
{
    assert(a / 4 <= b / 4) by (nonlinear_arith)
        requires
            a <= b,
    ;
    assert(a / 100 <= b / 100) by (nonlinear_arith)
        requires
            a <= b,
    ;
    assert(a / 400 <= b / 400) by (nonlinear_arith)
        requires
            a <= b,
    ;
    // Between a and b there are at least as many multiples of 4 as of 100 beyond
    // those that are multiples of 400.
    assert(b / 4 - a / 4 >= b / 100 - a / 100) by (nonlinear_arith)
        requires
            a <= b,
    ;
}

proof fn lemma_date_within_year(y: int, m: int, d: int)
    requires
        is_valid_date(y, m, d),
    ensures
        days_before_year(y) <= days_from_civil(y, m, d) < days_before_year(y + 1),
        days_before_month(y, m) <= days_from_civil(y, m, d) - days_before_year(y) < days_before_month(y, m + 1),
{
    lemma_days_before_month_values(y);
    lemma_year_length(y);
}

/// The calendar day after the date `(y, m, d)`.
pub open spec fn next_day(y: int, m: int, d: int) -> (int, int, int) {
    if d < days_in_month(y, m) {
        (y, m, d + 1)
    } else if m < 12 {
        (y, m + 1, 1)
    } else {
        (y + 1, 1, 1)
    }
}

proof fn lemma_next_day_number(y: int, m: int, d: int)
    requires
        is_valid_date(y, m, d),
    ensures
        is_valid_date(next_day(y, m, d).0, next_day(y, m, d).1, next_day(y, m, d).2),
        days_from_civil(next_day(y, m, d).0, next_day(y, m, d).1, next_day(y, m, d).2) == days_from_civil(y, m, d)
            + 1,
{
    lemma_days_before_month_values(y);
    lemma_days_before_month_values(y + 1);
    lemma_year_length(y);
    if d >= days_in_month(y, m) && m < 12 {
        assert(days_before_month(y, m + 1) == days_before_month(y, m) + days_in_month(y, m));
    }
}

/// The day after a date is the next calendar day: where two valid dates lie one day apart,
/// counted from 1970-01-01, the later is `next_day` of the earlier. So `civil_date(days + 1)`
/// gives the calendar day after `civil_date(days)`.
pub proof fn lemma_civil_next_day(y1: int, m1: int, d1: int, y2: int, m2: int, d2: int)
    requires
        is_valid_date(y1, m1, d1),
        is_valid_date(y2, m2, d2),
        days_from_civil(y2, m2, d2) == days_from_civil(y1, m1, d1) + 1,
    ensures
        (y2, m2, d2) == next_day(y1, m1, d1),
{
    lemma_next_day_number(y1, m1, d1);
    let n = next_day(y1, m1, d1);
    lemma_days_from_civil_injective(y2, m2, d2, n.0, n.1, n.2);
}

/// Two valid dates that lie the same number of days after 1970-01-01 are the same date.
pub proof fn lemma_days_from_civil_injective(y1: int, m1: int, d1: int, y2: int, m2: int, d2: int)
    requires
        is_valid_date(y1, m1, d1),
        is_valid_date(y2, m2, d2),
        days_from_civil(y1, m1, d1) == days_from_civil(y2, m2, d2),
    ensures
        y1 == y2 && m1 == m2 && d1 == d2,
{
    lemma_date_within_year(y1, m1, d1);
    lemma_date_within_year(y2, m2, d2);
    if y1 < y2 {
        lemma_leap_count_monotone(y1, y2 - 1);
        assert(days_before_year(y1 + 1) <= days_before_year(y2));
    } else if y2 < y1 {
        lemma_leap_count_monotone(y2, y1 - 1);
        assert(days_before_year(y2 + 1) <= days_before_year(y1));
    }
    assert(y1 == y2);
    lemma_days_before_month_values(y1);
}

/// The date that day `doe` of era `e` (eras begin on 0000-03-01 + 146097 * e days) falls on.
proof fn lemma_date_of_era_day(e: int, doe: int)
    requires
        0 <= doe <= 146096,
    ensures
        ({
            let yoe = (doe - doe / 1460 + doe / 36524 - doe / 146096) / 365;
            let doy = doe - (365 * yoe + yoe / 4 - yoe / 100);
            let mp = (5 * doy + 2) / 153;
            let d = doy - (153 * mp + 2) / 5 + 1;
            let m = if mp < 10 { mp + 3 } else { mp - 9 };
            let y = yoe + 400 * e + (if m <= 2 { 1int } else { 0int });
            &&& 0 <= yoe <= 399
            &&& 0 <= doy <= 365
            &&& 0 <= mp <= 11
            &&& is_valid_date(y, m, d)
            &&& days_from_civil(y, m, d) == 146097 * e + doe - 719468
        }),
{
    let yoe = (doe - doe / 1460 + doe / 36524 - doe / 146096) / 365;
    lemma_year_of_era(doe);
    assert(yoe / 400 == 0);
    let doy = doe - (365 * yoe + yoe / 4 - yoe / 100);
    let leap_next = is_leap_year(yoe + 1);
    assert(era_year_start(yoe + 1) - era_year_start(yoe) == 365 + (if leap_next { 1int } else { 0int }));
    lemma_month_of_year(doy, leap_next);
    let mp = (5 * doy + 2) / 153;
    let d = doy - (153 * mp + 2) / 5 + 1;
    let m = if mp < 10 { mp + 3 } else { mp - 9 };
    let t = yoe + 400 * e;
    lemma_leap_era(e, yoe);
    lemma_leap_era(e, yoe + 1);
    lemma_march_first(t);
    assert(365 * t + leap_years_through(t) - 719468 == 146097 * e + era_year_start(yoe) - 719468);
    if mp < 10 {
        lemma_days_before_month_values(t);
        assert(days_before_month(t, m) - 59 - (if is_leap_year(t) { 1int } else { 0int }) == (153 * mp + 2) / 5);
        assert(days_in_month(t, m) == march_month_length(mp, leap_next));
    } else {
        lemma_days_before_month_values(t + 1);
        lemma_year_length(t);
        assert(days_before_month(t + 1, m) + 306 == (153 * mp + 2) / 5);
        assert(days_in_month(t + 1, m) == march_month_length(mp, leap_next));
    }
}

/// The calendar date `days` days after 1970-01-01, as (year, month, day);
/// `None` exactly where the computation would leave the range of `i64`.
pub fn civil_date(days: i64) -> (r: Option<(i64, i64, i64)>)
    ensures
        r is None <==> days > i64::MAX - 719_468,
        match r {
            None => days + 719_468 > i64::MAX,
            Some((y, m, d)) => is_valid_date(y as int, m as int, d as int)
                && days_from_civil(y as int, m as int, d as int) == days as int,
        },
{
    let shifted = match days.checked_add(719_468) {
        Some(s) => s,
        None => return None,
    };
    let era = if shifted >= 0 {
        shifted
    } else {
        shifted - 146_096
    } / 146_097;
    assert(era as int == (shifted as int) / 146_097);
    let day_of_era = shifted - era * 146_097;
    proof {
        lemma_date_of_era_day(era as int, day_of_era as int);
    }
    let year_of_era = (day_of_era - day_of_era / 1_460 + day_of_era / 36_524 - day_of_era / 146_096)
        / 365;
    let mut year = year_of_era + era * 400;
    let day_of_year = day_of_era - (365 * year_of_era + year_of_era / 4 - year_of_era / 100);
    let month_phase = (5 * day_of_year + 2) / 153;
    let day = day_of_year - (153 * month_phase + 2) / 5 + 1;
    let month = month_phase + if month_phase < 10 {
        3
    } else {
        -9
    };
    year += if month <= 2 { 1 } else { 0 };
    Some((year, month, day))
}

/// The date `days` days after 1970-01-01, as (year, month, day).
pub open spec fn civil_of(days: int) -> (int, int, int) {
    choose|ymd: (int, int, int)| is_valid_date(ymd.0, ymd.1, ymd.2) && days_from_civil(ymd.0, ymd.1, ymd.2) == days
}

/// The text `YYYY-MM-DD HH:MM UTC` of the moment `seconds` seconds after 1970-01-01 00:00 UTC,
/// or `Unavailable` when the count of seconds does not fit in `i64`.
pub open spec fn datetime_text(seconds: int) -> Seq<char> {
    if seconds > i64::MAX {
        "Unavailable"@
    } else {
        let (y, m, d) = civil_of(seconds / 86400);
        let in_day = seconds % 86400;
        zero_padded(decimal(y as nat), 4) + "-"@ + zero_padded(decimal(m as nat), 2) + "-"@
            + zero_padded(decimal(d as nat), 2) + " "@ + zero_padded(decimal((in_day / 3600) as nat), 2)
            + ":"@ + zero_padded(decimal(((in_day % 3600) / 60) as nat), 2) + " UTC"@
    }
}

/// Dates on or after 1970-01-01 fall in 1970 or later.
proof fn lemma_year_not_before_epoch(y: int, m: int, d: int)
    requires
        is_valid_date(y, m, d),
        days_from_civil(y, m, d) >= 0,
    ensures
        y >= 1970,
{
    lemma_date_within_year(y, m, d);
    if y < 1970 {
        lemma_leap_count_monotone(y, 1969);
        assert(days_before_year(y + 1) <= days_before_year(1970));
    }
}

/// The date and time of day, in UTC, that `seconds` seconds after the epoch denote.
pub fn format_utc_datetime(seconds: u64) -> (text: String)
    ensures
        text@ == datetime_text(seconds as int),
{
    if seconds > i64::MAX as u64 {
        return String::from_str("Unavailable");
    }
    let seconds = seconds as i64;
    let days = seconds / 86_400;
    let in_day = seconds % 86_400;
    let (year, month, day) = match civil_date(days) {
        Some(date) => date,
        None => {
            assert(false);
            return String::from_str("Unavailable");
        },
    };
    proof {
        let c = civil_of(days as int);
        assert(is_valid_date(year as int, month as int, day as int) && days_from_civil(
            year as int,
            month as int,
            day as int,
        ) == days as int);
        lemma_days_from_civil_injective(year as int, month as int, day as int, c.0, c.1, c.2);
        lemma_year_not_before_epoch(year as int, month as int, day as int);
    }
    let mut text = String::new();
    push_decimal(&mut text, year as u64, 4);
    text.append("-");
    push_decimal(&mut text, month as u64, 2);
    text.append("-");
    push_decimal(&mut text, day as u64, 2);
    text.append(" ");
    push_decimal(&mut text, (in_day / 3_600) as u64, 2);
    text.append(":");
    push_decimal(&mut text, ((in_day % 3_600) / 60) as u64, 2);
    text.append(" UTC");
    text
}

} // verus!
