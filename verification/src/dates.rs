//! Dates for the history.

use vstd::prelude::*;

use crate::text::{concat3, decimal_fill, decimal_padded};

verus! {

/// The year has a 29th of February.
pub open spec fn is_leap(y: int) -> bool {
    y % 4 == 0 && (y % 100 != 0 || y % 400 == 0)
}

/// How many days a month has.
pub open spec fn days_in_month(y: int, m: int) -> int {
    if m == 2 {
        if is_leap(y) {
            29
        } else {
            28
        }
    } else if m == 4 || m == 6 || m == 9 || m == 11 {
        30
    } else {
        31
    }
}

/// The date is one of the calendar.
pub open spec fn is_date(y: int, m: int, d: int) -> bool {
    1 <= m <= 12 && 1 <= d <= days_in_month(y, m)
}

/// How many days of a year lie before a month.
pub open spec fn days_before_month(y: int, m: int) -> int
    decreases m,
{
    if m <= 1 {
        0
    } else {
        days_before_month(y, m - 1) + days_in_month(y, m - 1)
    }
}

/// How many days lie between the beginning of the year one and that of `y`.
pub open spec fn days_before_year(y: int) -> int {
    365 * (y - 1) + (y - 1) / 4 - (y - 1) / 100 + (y - 1) / 400
}

/// How many days a date lies behind the first of January 1970.
pub open spec fn day_number(y: int, m: int, d: int) -> int {
    days_before_year(y) - days_before_year(1970) + days_before_month(y, m) + d - 1
}

proof fn lemma_month_table(y: int)
    ensures
        ({
            let l = if is_leap(y) {
                1int
            } else {
                0
            };
            &&& days_before_month(y, 1) == 0
            &&& days_before_month(y, 2) == 31
            &&& days_before_month(y, 3) == 59 + l
            &&& days_before_month(y, 4) == 90 + l
            &&& days_before_month(y, 5) == 120 + l
            &&& days_before_month(y, 6) == 151 + l
            &&& days_before_month(y, 7) == 181 + l
            &&& days_before_month(y, 8) == 212 + l
            &&& days_before_month(y, 9) == 243 + l
            &&& days_before_month(y, 10) == 273 + l
            &&& days_before_month(y, 11) == 304 + l
            &&& days_before_month(y, 12) == 334 + l
        }),
{
    reveal_with_fuel(days_before_month, 13);
}

/// The days of a cycle of 400 years, counted from the first of March, that lie
/// before a year of the cycle.
spec fn before_year_of_cycle(yoe: int) -> int {
    365 * yoe + yoe / 4 - yoe / 100
}

proof fn lemma_year_of_cycle(doe: int, yoe: int)
    requires
        0 <= doe < 146097,
        yoe == (doe - doe / 1460 + doe / 36524 - doe / 146096) / 365,
    ensures
        0 <= yoe < 400,
        before_year_of_cycle(yoe) <= doe,
        doe - before_year_of_cycle(yoe) <= 365,
        doe - before_year_of_cycle(yoe) == 365 ==> is_leap(yoe + 1),
{
}

/// Counting months from March, what month and day the day `doy` falls on.
proof fn lemma_month_of_year(doy: int, mp: int)
    requires
        0 <= doy <= 365,
        mp == (5 * doy + 2) / 153,
    ensures
        0 <= mp <= 11,
        ({
            let first = (153 * mp + 2) / 5;
            let next = (153 * (mp + 1) + 2) / 5;
            first <= doy < next
        }),
{
}

/// The first of January lies 306 days behind the first of March before it.
proof fn lemma_year_start(base: int)
    ensures
        days_before_year(base + 1) == 365 * base + base / 4 - base / 100 + base / 400,
        days_before_year(base) + 365 + (if is_leap(base) {
            1int
        } else {
            0
        }) == days_before_year(base + 1),
{
    let q = base / 400;
    let r = base % 400;
    assert(base == 400 * q + r && 0 <= r < 400);
    assert(base / 4 == 100 * q + r / 4);
    assert(base / 100 == 4 * q + r / 100);
    assert((base - 1) / 4 == 100 * q + (r - 1) / 4);
    assert((base - 1) / 100 == 4 * q + (r - 1) / 100);
    assert((base - 1) / 400 == q + (r - 1) / 400);
    assert(base % 4 == r % 4);
    assert(base % 100 == r % 100);
}

#[verifier::spinoff_prover]
#[verifier::rlimit(60)]
proof fn lemma_date_of_cycle(era: int, yoe: int, doy: int, mp: int)
    requires
        0 <= yoe < 400,
        0 <= doy <= 365,
        doy == 365 ==> is_leap(yoe + 1),
        mp == (5 * doy + 2) / 153,
    ensures
        ({
            let d = doy - (153 * mp + 2) / 5 + 1;
            let m = if mp < 10 {
                mp + 3
            } else {
                mp - 9
            };
            let y = yoe + era * 400 + if m <= 2 {
                1int
            } else {
                0
            };
            &&& 0 <= mp <= 11
            &&& 1 <= d <= 31
            &&& is_date(y, m, d)
            &&& day_number(y, m, d) == era * 146097 + before_year_of_cycle(yoe) + doy - 719468
        }),
{
    lemma_month_of_year(doy, mp);
    let base = yoe + era * 400;
    lemma_year_start(base);
    lemma_month_table(base);
    lemma_month_table(base + 1);
    assert(base / 4 == yoe / 4 + 100 * era);
    assert(base / 100 == yoe / 100 + 4 * era);
    assert(base / 400 == era);
    assert(days_before_year(base + 1) == era * 146097 + before_year_of_cycle(yoe));
    assert(is_leap(base + 1) == is_leap(yoe + 1)) by {
        assert((base + 1) % 4 == (yoe + 1) % 4);
        assert((base + 1) % 100 == (yoe + 1) % 100);
        assert((base + 1) % 400 == (yoe + 1) % 400);
    }
    let d = doy - (153 * mp + 2) / 5 + 1;
    if mp < 10 {
        assert(is_date(base, mp + 3, d));
        assert(day_number(base, mp + 3, d) == era * 146097 + before_year_of_cycle(yoe) + doy - 719468);
    } else {
        assert(is_date(base + 1, mp - 9, d));
        assert(day_number(base + 1, mp - 9, d) == era * 146097 + before_year_of_cycle(yoe) + doy - 719468);
    }
}

/// The date that lies `z` days behind the first of January 1970, at midnight:
/// year, month, day, hour and minute.
pub fn civil_from_days(z: i64) -> (r: (i64, u32, u32, u32, u32))
    requires
        z <= i64::MAX - 719468,
    ensures
        is_date(r.0 as int, r.1 as int, r.2 as int),
        day_number(r.0 as int, r.1 as int, r.2 as int) == z,
        r.3 == 0 && r.4 == 0,
{
    let s: i64 = z + 719468;
    let era: i64 = if s >= 0 {
        s / 146097
    } else {
        -((146096 - s) / 146097)
    };
    let doe: i64 = s - era * 146097;
    assert(0 <= doe < 146097);
    let yoe: i64 = (doe - doe / 1460 + doe / 36524 - doe / 146096) / 365;
    proof {
        lemma_year_of_cycle(doe as int, yoe as int);
    }
    let doy: i64 = doe - (365 * yoe + yoe / 4 - yoe / 100);
    let mp: i64 = (5 * doy + 2) / 153;
    proof {
        lemma_date_of_cycle(era as int, yoe as int, doy as int, mp as int);
    }
    let d: u32 = (doy - (153 * mp + 2) / 5 + 1) as u32;
    let m: u32 = (if mp < 10 {
        mp + 3
    } else {
        mp - 9
    }) as u32;
    let y: i64 = yoe + era * 400;
    (if m <= 2 {
        y + 1
    } else {
        y
    }, m, d, 0, 0)
}

/// A date has one number only.
pub proof fn lemma_date_unique(y1: int, m1: int, d1: int, y2: int, m2: int, d2: int)
    requires
        is_date(y1, m1, d1),
        is_date(y2, m2, d2),
        day_number(y1, m1, d1) == day_number(y2, m2, d2),
    ensures
        y1 == y2 && m1 == m2 && d1 == d2,
{
    lemma_month_table(y1);
    lemma_month_table(y2);
    if y1 < y2 {
        lemma_years_apart(y1, y2);
    } else if y2 < y1 {
        lemma_years_apart(y2, y1);
    }
}

proof fn lemma_years_apart(y1: int, y2: int)
    requires
        y1 < y2,
    ensures
        days_before_year(y1) + 365 + (if is_leap(y1) {
            1int
        } else {
            0
        }) <= days_before_year(y2),
    decreases y2 - y1,
{
    lemma_year_start(y2 - 1);
    if y1 < y2 - 1 {
        lemma_years_apart(y1, y2 - 1);
    }
}

/// How a time is written: year, month and day, hour and minute.
pub open spec fn written_date(y: int, m: int, d: int, hour: int, minute: int) -> Seq<char> {
    decimal_padded(y as nat, 4) + "-"@ + decimal_padded(m as nat, 2) + "-"@ + decimal_padded(
        d as nat,
        2,
    ) + " "@ + decimal_padded(hour as nat, 2) + ":"@ + decimal_padded(minute as nat, 2)
}

/// What the history shows for a time in seconds since the beginning of 1970.
pub open spec fn is_shown_date(secs: i64, shown: Seq<char>) -> bool {
    if secs <= 0 {
        shown == "(no date)"@
    } else {
        exists|y: int, m: int, d: int|
            is_date(y, m, d) && #[trigger] day_number(y, m, d) == secs as int / 86400 && shown
                == written_date(y, m, d, secs as int % 86400 / 3600, secs as int % 3600 / 60)
    }
}

/// When a song was played, to the minute, as the history shows it.
pub fn chrono_from_unix(secs: i64) -> (r: String)
    ensures
        is_shown_date(secs, r@),
{
    if secs <= 0 {
        return "(no date)".to_string();
    }
    let (y, m, d, _, _) = civil_from_days(secs / 86400);
    let hour: u64 = (secs % 86400 / 3600) as u64;
    let minute: u64 = (secs % 3600 / 60) as u64;
    proof {
        lemma_year_not_negative(y as int, m as int, d as int);
    }
    let month = concat3(decimal_fill(y as u64, 4).as_str(), "-", decimal_fill(m as u64, 2).as_str());
    let day = concat3(month.as_str(), "-", decimal_fill(d as u64, 2).as_str());
    let time = concat3(day.as_str(), " ", decimal_fill(hour, 2).as_str());
    let r = concat3(time.as_str(), ":", decimal_fill(minute, 2).as_str());
    assert(r@ == written_date(y as int, m as int, d as int, hour as int, minute as int));
    r
}

proof fn lemma_year_not_negative(y: int, m: int, d: int)
    requires
        is_date(y, m, d),
        day_number(y, m, d) >= 0,
    ensures
        y >= 1970,
{
    lemma_month_table(y);
    if y < 1970 {
        lemma_years_apart(y, 1970);
    }
}

/// Which years are leap years, and how long each month is.
pub proof fn lemma_calendar(y: int)
    ensures
        y % 400 == 0 ==> is_leap(y),
        y % 100 == 0 && y % 400 != 0 ==> !is_leap(y),
        y % 4 == 0 && y % 100 != 0 ==> is_leap(y),
        y % 4 != 0 ==> !is_leap(y),
        days_in_month(y, 1) == 31 && days_in_month(y, 3) == 31 && days_in_month(y, 5) == 31,
        days_in_month(y, 7) == 31 && days_in_month(y, 8) == 31 && days_in_month(y, 10) == 31,
        days_in_month(y, 12) == 31,
        days_in_month(y, 4) == 30 && days_in_month(y, 6) == 30 && days_in_month(y, 9) == 30,
        days_in_month(y, 11) == 30,
        is_leap(y) ==> days_in_month(y, 2) == 29,
        !is_leap(y) ==> days_in_month(y, 2) == 28,
{
    assert(y % 400 == 0 ==> y % 100 == 0 && y % 4 == 0);
    assert(y % 100 == 0 ==> y % 4 == 0);
}

/// Days are counted from the first of January 1970, and the next day has the
/// next number: within a month, into the next month, and into the next year.
pub proof fn lemma_next_day(y: int, m: int, d: int)
    requires
        is_date(y, m, d),
    ensures
        day_number(1970, 1, 1) == 0,
        d < days_in_month(y, m) ==> day_number(y, m, d + 1) == day_number(y, m, d) + 1,
        d == days_in_month(y, m) && m < 12 ==> day_number(y, m + 1, 1) == day_number(y, m, d) + 1,
        d == days_in_month(y, m) && m == 12 ==> day_number(y + 1, 1, 1) == day_number(y, m, d) + 1,
{
    lemma_month_table(y);
    lemma_month_table(y + 1);
    lemma_month_table(1970);
    lemma_year_start(y);
}

/// A time is shown in one way, and all seconds of a minute are shown alike.
pub proof fn lemma_minute_shown_alike(a: i64, b: i64, shown: Seq<char>, other: Seq<char>)
    requires
        is_shown_date(a, shown),
        is_shown_date(b, other),
        a > 0,
        b > 0,
        a as int / 60 == b as int / 60,
    ensures
        shown == other,
{
    let (y1, m1, d1): (int, int, int) = choose|y: int, m: int, d: int|
        is_date(y, m, d) && #[trigger] day_number(y, m, d) == a as int / 86400 && shown
            == written_date(y, m, d, a as int % 86400 / 3600, a as int % 3600 / 60);
    let (y2, m2, d2): (int, int, int) = choose|y: int, m: int, d: int|
        is_date(y, m, d) && #[trigger] day_number(y, m, d) == b as int / 86400 && other
            == written_date(y, m, d, b as int % 86400 / 3600, b as int % 3600 / 60);
    lemma_same_minute(a as int, b as int);
    lemma_date_unique(y1, m1, d1, y2, m2, d2);
}

proof fn lemma_of_minute(a: int)
    requires
        a >= 0,
    ensures
        a / 86400 == (a / 60) / 1440,
        a % 86400 / 3600 == (a / 60) % 1440 / 60,
        a % 3600 / 60 == (a / 60) % 60,
{
    let n = a / 60;
    let r = a % 60;
    let q = n / 1440;
    let k = n % 1440;
    assert(a == 60 * n + r && n == 1440 * q + k);
    let t = 60 * k + r;
    assert(0 <= t < 86400 && a == 86400 * q + t);
    assert(a / 86400 == q && a % 86400 == t);
    let h = k / 60;
    let m = k % 60;
    assert(k == 60 * h + m && t == 3600 * h + (60 * m + r));
    assert(t / 3600 == h);
    assert(a == 3600 * (24 * q + h) + (60 * m + r));
    assert(a % 3600 == 60 * m + r);
    assert((60 * m + r) / 60 == m);
    assert(n == 60 * (24 * q + h) + m);
    assert(n % 60 == m);
}

proof fn lemma_same_minute(a: int, b: int)
    requires
        a >= 0,
        b >= 0,
        a / 60 == b / 60,
    ensures
        a / 86400 == b / 86400,
        a % 86400 / 3600 == b % 86400 / 3600,
        a % 3600 / 60 == b % 3600 / 60,
{
    lemma_of_minute(a);
    lemma_of_minute(b);
}

proof fn lemma_time_parts(n: int, hour: int, minute: int, secs: int)
    requires
        0 <= hour < 24,
        0 <= minute < 60,
        secs == n * 86400 + hour * 3600 + minute * 60,
    ensures
        secs / 86400 == n,
        secs % 86400 / 3600 == hour,
        secs % 3600 / 60 == minute,
{
    let t = hour * 3600 + minute * 60;
    assert(0 <= t < 86400 && secs == 86400 * n + t);
    assert(secs % 86400 == t);
    assert(secs == 3600 * (24 * n + hour) + 60 * minute);
    assert(secs % 3600 == 60 * minute);
}

/// Midnight and a time of day: `hour` hours and `minute` minutes after the start
/// of a day are shown as that day, that hour and that minute.
pub proof fn lemma_time_of_day_shown(
    y: int,
    m: int,
    d: int,
    hour: int,
    minute: int,
    secs: i64,
    shown: Seq<char>,
)
    requires
        is_date(y, m, d),
        0 <= hour < 24,
        0 <= minute < 60,
        secs > 0,
        secs == day_number(y, m, d) * 86400 + hour * 3600 + minute * 60,
        is_shown_date(secs, shown),
    ensures
        shown == decimal_padded(y as nat, 4) + "-"@ + decimal_padded(m as nat, 2) + "-"@
            + decimal_padded(d as nat, 2) + " "@ + decimal_padded(hour as nat, 2) + ":"@
            + decimal_padded(minute as nat, 2),
{
    let n = day_number(y, m, d);
    lemma_time_parts(n, hour, minute, secs as int);
    let (y1, m1, d1): (int, int, int) = choose|y: int, m: int, d: int|
        is_date(y, m, d) && #[trigger] day_number(y, m, d) == secs as int / 86400 && shown
            == written_date(y, m, d, secs as int % 86400 / 3600, secs as int % 3600 / 60);
    lemma_date_unique(y, m, d, y1, m1, d1);
}

} // verus!
