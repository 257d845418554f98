//! The proleptic Gregorian calendar and the two timestamp formats.

use vstd::prelude::*;
use vstd::string::*;

use crate::text;

verus! {

// ---------------------------------------------------------------------------
// Model
// ---------------------------------------------------------------------------

/// A calendar date, the year counted as in ISO 8601 (year 0 precedes year 1).
pub struct CivilDate {
    pub year: u64,
    pub month: u64,
    pub day: u64,
}

/// Whether `y` is a leap year.
pub open spec fn is_leap(y: int) -> bool {
    y % 4 == 0 && (y % 100 != 0 || y % 400 == 0)
}

/// The number of days of year `y`.
pub open spec fn year_days(y: int) -> int {
    if is_leap(y) {
        366
    } else {
        365
    }
}

/// The number of days of month `m` of year `y`.
pub open spec fn month_days(y: int, m: int) -> int {
    if m == 2 {
        if is_leap(y) {
            29
        } else {
            28
        }
    } else if m == 4 || m == 6 || m == 9 || m == 11 {
        30
    } else {
        31
    }
}

/// The number of days of the years `0` to `y - 1`.
pub open spec fn days_before_year(y: int) -> int {
    365 * y + (y + 3) / 4 - (y + 99) / 100 + (y + 399) / 400
}

/// The number of days of the months of year `y` before month `m`.
pub open spec fn days_before_month(y: int, m: int) -> int
    decreases m,
{
    if m <= 1 {
        0
    } else {
        days_before_month(y, m - 1) + month_days(y, m - 1)
    }
}

/// Whether `y`-`m`-`d` is a date of the calendar.
pub open spec fn is_date(y: int, m: int, d: int) -> bool {
    0 <= y && 1 <= m <= 12 && 1 <= d <= month_days(y, m)
}

/// The number of days from 1970-01-01 to `y`-`m`-`d`.
pub open spec fn day_number(y: int, m: int, d: int) -> int {
    days_before_year(y) + days_before_month(y, m) + (d - 1) - 719_528
}

/// The text `YYYY-MM-DDTHH:MM:SS` of a date and a second of that day.
pub open spec fn date_time_text(y: nat, m: nat, d: nat, second_of_day: nat) -> Seq<char> {
    text::padded(y, 4) + "-"@ + text::padded(m, 2) + "-"@ + text::padded(d, 2) + "T"@ + text::padded(
        second_of_day / 3600,
        2,
    ) + ":"@ + text::padded(second_of_day % 3600 / 60, 2) + ":"@ + text::padded(second_of_day % 60, 2)
}

/// `t` writes the instant `seconds` after the Unix epoch, up to its suffix.
pub open spec fn writes_instant(t: Seq<char>, seconds: nat, suffix: Seq<char>) -> bool {
    exists|y: nat, m: nat, d: nat|
        #![trigger date_time_text(y, m, d, seconds % 86_400)]
        is_date(y as int, m as int, d as int) && day_number(y as int, m as int, d as int) == seconds
            / 86_400 && t == date_time_text(y, m, d, seconds % 86_400) + suffix
}

// ---------------------------------------------------------------------------
// Facts about the model
// ---------------------------------------------------------------------------

/// `days_before_year` counts one year after the other.
pub proof fn days_before_year_steps(y: int)
    requires
        y >= 0,
    ensures
        days_before_year(0) == 0,
        days_before_year(y + 1) == days_before_year(y) + year_days(y),
{
}

/// A later year begins after the end of an earlier one.
proof fn years_apart(y1: int, y2: int)
    requires
        0 <= y1 < y2,
    ensures
        days_before_year(y1) + year_days(y1) <= days_before_year(y2),
    decreases y2 - y1,
{
    days_before_year_steps(y1);
    if y1 + 1 < y2 {
        years_apart(y1 + 1, y2);
    }
}

/// A later month begins after the end of an earlier one.
proof fn months_apart(y: int, m1: int, m2: int)
    requires
        1 <= m1 < m2 <= 13,
    ensures
        days_before_month(y, m1) + month_days(y, m1) <= days_before_month(y, m2),
    decreases m2 - m1,
{
    if m1 + 1 < m2 {
        months_apart(y, m1, m2 - 1);
    }
}

/// The months fill the year.
proof fn months_fill_year(y: int)
    ensures
        days_before_month(y, 13) == year_days(y),
{
    reveal_with_fuel(days_before_month, 14);
}

/// A date lies inside its year.
proof fn date_inside_year(y: int, m: int, d: int)
    requires
        is_date(y, m, d),
    ensures
        0 <= days_before_month(y, m),
        days_before_month(y, m) + d <= year_days(y),
{
    months_apart(y, m, 13);
    months_fill_year(y);
    if m > 1 {
        months_apart(y, 1, m);
    }
}

/// Two different dates have different day numbers.
pub proof fn day_number_is_injective(y1: int, m1: int, d1: int, y2: int, m2: int, d2: int)
    requires
        is_date(y1, m1, d1),
        is_date(y2, m2, d2),
        day_number(y1, m1, d1) == day_number(y2, m2, d2),
    ensures
        y1 == y2,
        m1 == m2,
        d1 == d2,
{
    date_inside_year(y1, m1, d1);
    date_inside_year(y2, m2, d2);
    if y1 < y2 {
        years_apart(y1, y2);
    } else if y2 < y1 {
        years_apart(y2, y1);
    } else if m1 < m2 {
        months_apart(y1, m1, m2);
    } else if m2 < m1 {
        months_apart(y1, m2, m1);
    }
}

/// An instant is written in one way only.
pub proof fn instant_text_is_unique(t1: Seq<char>, t2: Seq<char>, seconds: nat, suffix: Seq<char>)
    requires
        writes_instant(t1, seconds, suffix),
        writes_instant(t2, seconds, suffix),
    ensures
        t1 == t2,
{
    let (y1, m1, d1) = choose|y: nat, m: nat, d: nat|
        #![trigger date_time_text(y, m, d, seconds % 86_400)]
        is_date(y as int, m as int, d as int) && day_number(y as int, m as int, d as int) == seconds
            / 86_400 && t1 == date_time_text(y, m, d, seconds % 86_400) + suffix;
    let (y2, m2, d2) = choose|y: nat, m: nat, d: nat|
        #![trigger date_time_text(y, m, d, seconds % 86_400)]
        is_date(y as int, m as int, d as int) && day_number(y as int, m as int, d as int) == seconds
            / 86_400 && t2 == date_time_text(y, m, d, seconds % 86_400) + suffix;
    day_number_is_injective(
        y1 as int,
        m1 as int,
        d1 as int,
        y2 as int,
        m2 as int,
        d2 as int,
    );
}

/// A later day has a later year, or a later month of the same year, or is a later day of the
/// same month.
proof fn days_order_dates(y1: int, m1: int, d1: int, y2: int, m2: int, d2: int)
    requires
        is_date(y1, m1, d1),
        is_date(y2, m2, d2),
        day_number(y1, m1, d1) < day_number(y2, m2, d2),
    ensures
        y1 < y2 || (y1 == y2 && (m1 < m2 || (m1 == m2 && d1 < d2))),
{
    date_inside_year(y1, m1, d1);
    date_inside_year(y2, m2, d2);
    if y2 < y1 {
        years_apart(y2, y1);
    } else if y1 == y2 && m2 < m1 {
        months_apart(y1, m2, m1);
    }
}

/// Whether `s` comes before `t`, or is `t` and `a` is at most `b`.
spec fn in_step(s: Seq<char>, t: Seq<char>, a: nat, b: nat) -> bool {
    text::comes_before(s, t) || (s == t && a <= b)
}

/// One more number keeps two texts in order.
proof fn order_with_a_field(s: Seq<char>, t: Seq<char>, sep: Seq<char>, a: nat, b: nat, w: nat)
    requires
        in_step(s, t, a, b),
        w >= 1,
        b < text::power_of_ten(w),
    ensures
        text::comes_before(s, t) || a < b ==> text::comes_before(
            s + sep + text::padded(a, w),
            t + sep + text::padded(b, w),
        ),
        s == t && a == b ==> s + sep + text::padded(a, w) == t + sep + text::padded(b, w),
{
    if text::comes_before(s, t) {
        text::order_is_decided_early(s, t, sep + text::padded(a, w), sep + text::padded(b, w));
        assert(s + (sep + text::padded(a, w)) =~= s + sep + text::padded(a, w));
        assert(t + (sep + text::padded(b, w)) =~= t + sep + text::padded(b, w));
    } else if a < b {
        text::padded_numbers_are_ordered(a, b, w);
        text::order_after_a_beginning(s + sep, text::padded(a, w), text::padded(b, w));
    }
}

/// Later dates, and later seconds of a date, have later texts.
proof fn date_times_are_ordered(
    y1: nat,
    m1: nat,
    d1: nat,
    x1: nat,
    y2: nat,
    m2: nat,
    d2: nat,
    x2: nat,
)
    requires
        is_date(y1 as int, m1 as int, d1 as int),
        is_date(y2 as int, m2 as int, d2 as int),
        y2 < 10_000,
        x1 < 86_400,
        x2 < 86_400,
        y1 < y2 || (y1 == y2 && (m1 < m2 || (m1 == m2 && (d1 < d2 || (d1 == d2 && x1 < x2))))),
    ensures
        text::comes_before(date_time_text(y1, m1, d1, x1), date_time_text(y2, m2, d2, x2)),
{
    reveal_with_fuel(text::power_of_ten, 5);
    let (h1, h2) = (x1 / 3600, x2 / 3600);
    let (n1, n2) = (x1 % 3600 / 60, x2 % 3600 / 60);
    let (s1, s2) = (x1 % 60, x2 % 60);
    assert(x1 == 3600 * h1 + 60 * n1 + s1);
    assert(x2 == 3600 * h2 + 60 * n2 + s2);
    let (a0, b0) = (text::padded(y1, 4), text::padded(y2, 4));
    if y1 < y2 {
        text::padded_numbers_are_ordered(y1, y2, 4);
    }
    order_with_a_field(a0, b0, "-"@, m1, m2, 2);
    let (a1, b1) = (a0 + "-"@ + text::padded(m1, 2), b0 + "-"@ + text::padded(m2, 2));
    order_with_a_field(a1, b1, "-"@, d1, d2, 2);
    let (a2, b2) = (a1 + "-"@ + text::padded(d1, 2), b1 + "-"@ + text::padded(d2, 2));
    order_with_a_field(a2, b2, "T"@, h1, h2, 2);
    let (a3, b3) = (a2 + "T"@ + text::padded(h1, 2), b2 + "T"@ + text::padded(h2, 2));
    order_with_a_field(a3, b3, ":"@, n1, n2, 2);
    let (a4, b4) = (a3 + ":"@ + text::padded(n1, 2), b3 + ":"@ + text::padded(n2, 2));
    order_with_a_field(a4, b4, ":"@, s1, s2, 2);
}

/// The first second of the year 10000: from then on a year has more than four digits.
pub const YEAR_10000: u64 = 253_402_300_800;

/// Up to the year 9999 a later second has a greater text, whatever fraction of a second
/// follows.
pub proof fn later_seconds_have_greater_texts(
    t1: Seq<char>,
    seconds1: nat,
    suffix1: Seq<char>,
    t2: Seq<char>,
    seconds2: nat,
    suffix2: Seq<char>,
)
    requires
        writes_instant(t1, seconds1, suffix1),
        writes_instant(t2, seconds2, suffix2),
        seconds1 < seconds2 < YEAR_10000,
    ensures
        text::comes_before(t1, t2),
{
    let (x1, x2) = (seconds1 % 86_400, seconds2 % 86_400);
    let (y1, m1, d1) = choose|y: nat, m: nat, d: nat|
        #![trigger date_time_text(y, m, d, seconds1 % 86_400)]
        is_date(y as int, m as int, d as int) && day_number(y as int, m as int, d as int)
            == seconds1 / 86_400 && t1 == date_time_text(y, m, d, seconds1 % 86_400) + suffix1;
    let (y2, m2, d2) = choose|y: nat, m: nat, d: nat|
        #![trigger date_time_text(y, m, d, seconds2 % 86_400)]
        is_date(y as int, m as int, d as int) && day_number(y as int, m as int, d as int)
            == seconds2 / 86_400 && t2 == date_time_text(y, m, d, seconds2 % 86_400) + suffix2;
    if seconds1 / 86_400 < seconds2 / 86_400 {
        days_order_dates(y1 as int, m1 as int, d1 as int, y2 as int, m2 as int, d2 as int);
    } else {
        day_number_is_injective(y1 as int, m1 as int, d1 as int, y2 as int, m2 as int, d2 as int);
    }
    if y2 >= 10_000 {
        date_inside_year(y2 as int, m2 as int, d2 as int);
        if y2 > 10_000 {
            years_apart(10_000, y2 as int);
        }
    }
    date_times_are_ordered(y1, m1, d1, x1, y2, m2, d2, x2);
    text::order_is_decided_early(
        date_time_text(y1, m1, d1, x1),
        date_time_text(y2, m2, d2, x2),
        suffix1,
        suffix2,
    );
}

/// Within a second, a later millisecond has a greater text.
pub proof fn later_millis_have_greater_texts(
    t1: Seq<char>,
    t2: Seq<char>,
    seconds: nat,
    millis1: nat,
    millis2: nat,
)
    requires
        writes_instant(t1, seconds, "."@ + text::padded(millis1, 3) + "Z"@),
        writes_instant(t2, seconds, "."@ + text::padded(millis2, 3) + "Z"@),
        millis1 < millis2 < 1000,
    ensures
        text::comes_before(t1, t2),
{
    reveal_with_fuel(text::power_of_ten, 4);
    let x = seconds % 86_400;
    let (p, q) = (text::padded(millis1, 3), text::padded(millis2, 3));
    let (y1, m1, d1) = choose|y: nat, m: nat, d: nat|
        #![trigger date_time_text(y, m, d, seconds % 86_400)]
        is_date(y as int, m as int, d as int) && day_number(y as int, m as int, d as int) == seconds
            / 86_400 && t1 == date_time_text(y, m, d, seconds % 86_400) + ("."@ + p + "Z"@);
    let (y2, m2, d2) = choose|y: nat, m: nat, d: nat|
        #![trigger date_time_text(y, m, d, seconds % 86_400)]
        is_date(y as int, m as int, d as int) && day_number(y as int, m as int, d as int) == seconds
            / 86_400 && t2 == date_time_text(y, m, d, seconds % 86_400) + ("."@ + q + "Z"@);
    day_number_is_injective(y1 as int, m1 as int, d1 as int, y2 as int, m2 as int, d2 as int);
    let head = date_time_text(y1, m1, d1, x);
    order_with_a_field(head, head, "."@, millis1, millis2, 3);
    text::order_is_decided_early(head + "."@ + p, head + "."@ + q, "Z"@, "Z"@);
    assert(t1 =~= head + "."@ + p + "Z"@);
    assert(t2 =~= head + "."@ + q + "Z"@);
}

/// The first day, counted from 1 March of year 0, of the year that begins in March
/// of year `y`, for `y` within one 400-year cycle.
spec fn march_year_start(y: int) -> int {
    365 * y + y / 4 - y / 100
}

/// The quotient picks the March-based year that holds day `doe` of a cycle.
#[verifier::spinoff_prover]
proof fn year_of_cycle_day(doe: int, yoe: int)
    requires
        0 <= doe < 146_097,
        yoe == (doe - doe / 1460 + doe / 36_524 - doe / 146_096) / 365,
    ensures
        0 <= yoe < 400,
        march_year_start(yoe) <= doe,
        doe - march_year_start(yoe) <= 365,
        doe - march_year_start(yoe) == 365 ==> is_leap(yoe + 1),
{
}

/// The quotient picks the month, counted from March, that holds day `doy` of a year.
#[verifier::spinoff_prover]
proof fn month_of_year_day(doy: int, mp: int)
    requires
        0 <= doy <= 365,
        mp == (5 * doy + 2) / 153,
    ensures
        0 <= mp < 12,
        (153 * mp + 2) / 5 <= doy,
        mp < 11 ==> doy < (153 * (mp + 1) + 2) / 5,
{
}

/// The days of a year before month `m`, each sum written out.
proof fn month_table(y: int, m: int)
    requires
        1 <= m <= 12,
    ensures
        days_before_month(y, m) == (if m == 1 {
            0int
        } else if m == 2 {
            31
        } else {
            (153 * (m - 3) + 2) / 5 + 59 + (if is_leap(y) {
                1int
            } else {
                0int
            })
        }),
{
    reveal_with_fuel(days_before_month, 13);
}

/// The date found for a day of one 400-year cycle has that day's number.
#[verifier::spinoff_prover]
proof fn date_in_cycle(yoe: int, doy: int, mp: int, month: int, day: int, year: int)
    requires
        0 <= yoe < 400,
        0 <= doy <= 365,
        doy == 365 ==> is_leap(yoe + 1),
        0 <= mp < 12,
        (153 * mp + 2) / 5 <= doy,
        mp < 11 ==> doy < (153 * (mp + 1) + 2) / 5,
        month == (if mp < 10 {
            mp + 3
        } else {
            mp - 9
        }),
        day == doy - (153 * mp + 2) / 5 + 1,
        year == (if month <= 2 {
            yoe + 1
        } else {
            yoe
        }),
    ensures
        is_date(year, month, day),
        days_before_year(year) + days_before_month(year, month) + day - 1 == march_year_start(yoe)
            + doy + 60,
{
    month_table(year, month);
    days_before_year_steps(yoe);
}

/// A whole number of 400-year cycles shifts a date by the days of those cycles.
#[verifier::spinoff_prover]
proof fn date_across_cycles(era: int, cycle_year: int, year: int, month: int)
    requires
        0 <= era,
        0 <= cycle_year,
        year == cycle_year + 400 * era,
        1 <= month <= 12,
    ensures
        is_leap(year) == is_leap(cycle_year),
        month_days(year, month) == month_days(cycle_year, month),
        days_before_year(year) == days_before_year(cycle_year) + 146_097 * era,
        days_before_month(year, month) == days_before_month(cycle_year, month),
{
    vstd::arithmetic::div_mod::lemma_mod_multiples_vanish(era, cycle_year, 400);
    vstd::arithmetic::div_mod::lemma_mod_multiples_vanish(4 * era, cycle_year, 100);
    vstd::arithmetic::div_mod::lemma_mod_multiples_vanish(100 * era, cycle_year, 4);
    vstd::arithmetic::div_mod::lemma_hoist_over_denominator(cycle_year + 3, 100 * era, 4);
    vstd::arithmetic::div_mod::lemma_hoist_over_denominator(cycle_year + 99, 4 * era, 100);
    vstd::arithmetic::div_mod::lemma_hoist_over_denominator(cycle_year + 399, era, 400);
    month_table(year, month);
    month_table(cycle_year, month);
}

// ---------------------------------------------------------------------------
// Conversion and formatting
// ---------------------------------------------------------------------------

/// The date that lies `days` days after 1970-01-01 (before it where negative).
pub fn civil_from_days(days: i64) -> (r: CivilDate)
    requires
        -719_468 <= days <= 0x7fff_ffff_ffff_ffff - 719_468,
    ensures
        is_date(r.year as int, r.month as int, r.day as int),
        day_number(r.year as int, r.month as int, r.day as int) == days,
{
    let z: u64 = (days + 719_468) as u64;
    let era: u64 = z / 146_097;
    let doe: u64 = z % 146_097;
    let yoe: u64 = (doe - doe / 1460 + doe / 36_524 - doe / 146_096) / 365;
    proof {
        year_of_cycle_day(doe as int, yoe as int);
    }
    let y: u64 = yoe + era * 400;
    let doy: u64 = doe - (365 * yoe + yoe / 4 - yoe / 100);
    let mp: u64 = (5 * doy + 2) / 153;
    proof {
        month_of_year_day(doy as int, mp as int);
    }
    let day: u64 = doy - (153 * mp + 2) / 5 + 1;
    let month: u64 = if mp < 10 {
        mp + 3
    } else {
        mp - 9
    };
    let year: u64 = if month <= 2 {
        y + 1
    } else {
        y
    };
    proof {
        let cycle_year: int = yoe as int + (year - y);
        date_in_cycle(yoe as int, doy as int, mp as int, month as int, day as int, cycle_year);
        date_across_cycles(era as int, cycle_year, year as int, month as int);
    }
    CivilDate { year, month, day }
}

/// The text of a date and a second of that day.
fn date_time(date: &CivilDate, second_of_day: u64) -> (r: String)
    ensures
        r@ == date_time_text(
            date.year as nat,
            date.month as nat,
            date.day as nat,
            second_of_day as nat,
        ),
{
    let mut out = text::padded_u64(date.year, 4);
    out.append("-");
    out.append(text::padded_u64(date.month, 2).as_str());
    out.append("-");
    out.append(text::padded_u64(date.day, 2).as_str());
    out.append("T");
    out.append(text::padded_u64(second_of_day / 3600, 2).as_str());
    out.append(":");
    out.append(text::padded_u64(second_of_day % 3600 / 60, 2).as_str());
    out.append(":");
    out.append(text::padded_u64(second_of_day % 60, 2).as_str());
    out
}

/// The instant `seconds` after the Unix epoch as `YYYY-MM-DDTHH:MM:SSZ`.
pub fn format_iso8601_utc(seconds: u64) -> (r: String)
    ensures
        writes_instant(r@, seconds as nat, "Z"@),
{
    let days: u64 = seconds / 86_400;
    let date = civil_from_days(days as i64);
    let mut out = date_time(&date, seconds % 86_400);
    out.append("Z");
    out
}

/// The instant `seconds` and `millis` after the Unix epoch as
/// `YYYY-MM-DDTHH:MM:SS.mmmZ`.
pub fn rfc3339_millis(seconds: u64, millis: u32) -> (r: String)
    requires
        millis < 1000,
    ensures
        writes_instant(r@, seconds as nat, "."@ + text::padded(millis as nat, 3) + "Z"@),
{
    let days: u64 = seconds / 86_400;
    let date = civil_from_days(days as i64);
    let mut out = date_time(&date, seconds % 86_400);
    let ghost head = out@;
    out.append(".");
    out.append(text::padded_u64(millis as u64, 3).as_str());
    out.append("Z");
    assert(out@ =~= head + ("."@ + text::padded(millis as nat, 3) + "Z"@));
    out
}

// ---------------------------------------------------------------------------
// Laws of the calendar
// ---------------------------------------------------------------------------

/// Days are counted from the first of January 1970, one after the other, through the ends of
/// months and years. February has 29 days in every fourth year, but for those full centuries
/// that four does not divide.
pub proof fn days_follow_each_other(y: int, m: int, d: int)
    requires
        is_date(y, m, d),
    ensures
        day_number(1970, 1, 1) == 0,
        d < month_days(y, m) ==> day_number(y, m, d + 1) == day_number(y, m, d) + 1,
        d == month_days(y, m) && m < 12 ==> day_number(y, m + 1, 1) == day_number(y, m, d) + 1,
        d == 31 && m == 12 ==> day_number(y + 1, 1, 1) == day_number(y, m, d) + 1,
        m == 1 || m == 3 || m == 5 || m == 7 || m == 8 || m == 10 || m == 12 ==> month_days(y, m)
            == 31,
        m == 4 || m == 6 || m == 9 || m == 11 ==> month_days(y, m) == 30,
        m == 2 && y % 4 != 0 ==> month_days(y, m) == 28,
        m == 2 && y % 4 == 0 && y % 100 != 0 ==> month_days(y, m) == 29,
        m == 2 && y % 100 == 0 && y % 400 != 0 ==> month_days(y, m) == 28,
        m == 2 && y % 400 == 0 ==> month_days(y, m) == 29,
{
    reveal_with_fuel(days_before_month, 13);
    days_before_year_steps(y);
}

/// A written instant is read back from its fixed places: the year, month and day, and the hour,
/// minute and second of the day.
pub proof fn written_instant_reads_back(y: nat, m: nat, d: nat, second_of_day: nat, suffix: Seq<char>)
    requires
        y < 10_000,
        is_date(y as int, m as int, d as int),
        second_of_day < 86_400,
    ensures
        ({
            let t = date_time_text(y, m, d, second_of_day) + suffix;
            &&& t.len() == 19 + suffix.len()
            &&& text::digits_value(t.subrange(0, 4)) == y
            &&& t[4] == '-' && text::digits_value(t.subrange(5, 7)) == m
            &&& t[7] == '-' && text::digits_value(t.subrange(8, 10)) == d
            &&& t[10] == 'T' && t[13] == ':' && t[16] == ':'
            &&& text::digits_value(t.subrange(11, 13)) * 3600 + text::digits_value(
                t.subrange(14, 16),
            ) * 60 + text::digits_value(t.subrange(17, 19)) == second_of_day
            &&& text::digits_value(t.subrange(14, 16)) < 60
            &&& text::digits_value(t.subrange(17, 19)) < 60
            &&& t.skip(19) == suffix
        }),
{
    reveal_with_fuel(text::power_of_ten, 5);
    reveal_strlit("-");
    reveal_strlit("T");
    reveal_strlit(":");
    let (h, n, s) = (second_of_day / 3600, second_of_day % 3600 / 60, second_of_day % 60);
    text::padded_number_reads_back(y, 4);
    text::padded_number_reads_back(m, 2);
    text::padded_number_reads_back(d, 2);
    text::padded_number_reads_back(h, 2);
    text::padded_number_reads_back(n, 2);
    text::padded_number_reads_back(s, 2);
    let t = date_time_text(y, m, d, second_of_day) + suffix;
    assert(t.subrange(0, 4) =~= text::padded(y, 4));
    assert(t.subrange(5, 7) =~= text::padded(m, 2));
    assert(t.subrange(8, 10) =~= text::padded(d, 2));
    assert(t.subrange(11, 13) =~= text::padded(h, 2));
    assert(t.subrange(14, 16) =~= text::padded(n, 2));
    assert(t.subrange(17, 19) =~= text::padded(s, 2));
    assert(t.skip(19) =~= suffix);
}

} // verus!
