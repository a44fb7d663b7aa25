//! Calendar arithmetic: a count of days since 1970-01-01 to a proleptic
//! Gregorian year, month and day (years counted from March inside 400-year eras).
use vstd::prelude::*;

verus! {

pub open spec fn year_of_era(doe: int) -> int {
    (doe - doe / 1460 + doe / 36524 - doe / 146096) / 365
}

pub open spec fn day_of_year(doe: int) -> int {
    let yoe = year_of_era(doe);
    doe - (365 * yoe + yoe / 4 - yoe / 100)
}

/// Year, month (1..=12) and day (1..=31) of the day `days` after 1970-01-01.
pub open spec fn civil_from_days(days: nat) -> (int, int, int) {
    let z: int = days as int + 719468;
    let era = z / 146097;
    let doe = z % 146097;
    let yoe = year_of_era(doe);
    let doy = day_of_year(doe);
    let mp = (5 * doy + 2) / 153;
    let d = doy - (153 * mp + 2) / 5 + 1;
    let m = if mp < 10 { mp + 3 } else { mp - 9 };
    let y = yoe + era * 400;
    (if m <= 2 { y + 1 } else { y }, m, d)
}

proof fn lemma_doe_bounds(doe: int)
    requires
        0 <= doe < 146097,
    ensures
        0 <= year_of_era(doe) <= 399,
        0 <= day_of_year(doe) <= 365,
{
}

/// Year, month and day of the day `days` after 1970-01-01.
pub fn civil_date(days: u64) -> (r: (u64, u64, u64))
    requires
        days <= u64::MAX / 2,
    ensures
        r.0 as int == civil_from_days(days as nat).0,
        r.1 as int == civil_from_days(days as nat).1,
        r.2 as int == civil_from_days(days as nat).2,
        1 <= r.1 <= 12,
        1 <= r.2 <= 31,
{
    let z: u64 = days + 719468;
    let era: u64 = z / 146097;
    let doe: u64 = z % 146097;
    proof {
        lemma_doe_bounds(doe as int);
    }
    let yoe: u64 = (doe - doe / 1460 + doe / 36524 - doe / 146096) / 365;
    let doy: u64 = doe - (365 * yoe + yoe / 4 - yoe / 100);
    let mp: u64 = (5 * doy + 2) / 153;
    let d: u64 = doy - (153 * mp + 2) / 5 + 1;
    let m: u64 = if mp < 10 { mp + 3 } else { mp - 9 };
    let y: u64 = yoe + era * 400;
    let y: u64 = if m <= 2 { y + 1 } else { y };
    (y, m, d)
}


/// The month (counted from March, 0..=11) of day `doy` of a March-based year.
pub open spec fn march_month(doy: int) -> int {
    (5 * doy + 2) / 153
}

/// The day of the month of day `doy` of a March-based year.
pub open spec fn month_day(doy: int) -> int {
    doy - (153 * march_month(doy) + 2) / 5 + 1
}

/// A number that grows with the date: the month counted from year 0
/// (12 * year + month - 1), times 32, plus the day of the month.
pub open spec fn date_key(days: nat) -> int {
    let (y, m, d) = civil_from_days(days);
    (12 * y + m - 1) * 32 + d
}

proof fn lemma_month_bounds(doy: int)
    requires
        0 <= doy <= 365,
    ensures
        0 <= march_month(doy) <= 11,
        1 <= month_day(doy) <= 31,
{
    let mp = march_month(doy);
    assert(0 <= mp <= 11) by (nonlinear_arith)
        requires
            mp == (5 * doy + 2) / 153,
            0 <= doy <= 365,
    ;
    assert(153 * mp <= 5 * doy + 2 < 153 * mp + 153) by (nonlinear_arith)
        requires
            mp == (5 * doy + 2) / 153,
            0 <= doy,
    ;
}

/// The date key in terms of the era, the year of the era and the day of that year.
pub(crate) proof fn lemma_key_parts(days: nat)
    ensures
        ({
            let z: int = days as int + 719468;
            let era = z / 146097;
            let doe = z % 146097;
            let doy = day_of_year(doe);
            &&& 0 <= doe < 146097
            &&& 0 <= doy <= 365
            &&& 0 <= march_month(doy) <= 11
            &&& 1 <= month_day(doy) <= 31
            &&& date_key(days) == (12 * (year_of_era(doe) + era * 400) + march_month(doy) + 2) * 32 + month_day(doy)
        }),
{
    let z: int = days as int + 719468;
    let doe = z % 146097;
    lemma_doe_bounds(doe);
    lemma_month_bounds(day_of_year(doe));
}

proof fn lemma_year_of_era_step(doe: int)
    requires
        0 <= doe,
        doe + 1 < 146097,
    ensures
        year_of_era(doe) <= year_of_era(doe + 1),
        year_of_era(doe) == year_of_era(doe + 1) ==> day_of_year(doe + 1) == day_of_year(doe) + 1,
{
    let a = doe - doe / 1460 + doe / 36524 - doe / 146096;
    let b = (doe + 1) - (doe + 1) / 1460 + (doe + 1) / 36524 - (doe + 1) / 146096;
    assert(doe / 1460 <= (doe + 1) / 1460 <= doe / 1460 + 1);
    assert(doe / 36524 <= (doe + 1) / 36524);
    if doe + 1 == 146096 {
        assert(a <= b);
    } else {
        assert((doe + 1) / 146096 == 0 && doe / 146096 == 0);
        assert(a <= b);
    }
    assert(a / 365 <= b / 365) by (nonlinear_arith)
        requires
            0 <= a <= b,
    ;
}

/// The date key grows from each day to the next.
proof fn lemma_date_key_step(days: nat)
    ensures
        date_key(days) < date_key(days + 1),
{
    lemma_key_parts(days);
    lemma_key_parts(days + 1);
    let z: int = days as int + 719468;
    let era = z / 146097;
    let doe = z % 146097;
    let era2 = (z + 1) / 146097;
    let doe2 = (z + 1) % 146097;
    assert(z == 146097 * era + doe);
    assert(z + 1 == 146097 * era2 + doe2);
    if doe + 1 < 146097 {
        assert(era2 == era && doe2 == doe + 1) by (nonlinear_arith)
            requires
                z == 146097 * era + doe,
                z + 1 == 146097 * era2 + doe2,
                0 <= doe + 1 < 146097,
                0 <= doe2 < 146097,
        ;
        lemma_year_of_era_step(doe);
        let doy = day_of_year(doe);
        let doy2 = day_of_year(doe2);
        if year_of_era(doe) == year_of_era(doe2) {
            assert(doy2 == doy + 1);
            assert(march_month(doy) <= march_month(doy2));
            if march_month(doy) == march_month(doy2) {
                assert(month_day(doy2) == month_day(doy) + 1);
            }
        }
    } else {
        assert(era2 == era + 1 && doe2 == 0) by (nonlinear_arith)
            requires
                z == 146097 * era + doe,
                z + 1 == 146097 * era2 + doe2,
                doe == 146096,
                0 <= doe2 < 146097,
        ;
        assert(year_of_era(146096) == 399);
        assert(year_of_era(0) == 0);
    }
}

/// Later days have larger date keys.
pub proof fn lemma_date_key_monotone(d1: nat, d2: nat)
    requires
        d1 <= d2,
    ensures
        date_key(d1) <= date_key(d2),
        d1 < d2 ==> date_key(d1) < date_key(d2),
    decreases d2 - d1,
{
    if d1 < d2 {
        lemma_date_key_step(d1);
        lemma_date_key_monotone((d1 + 1) as nat, d2);
    }
}


/// The month and the day of every date are in range.
pub(crate) proof fn lemma_civil_bounds(days: nat)
    ensures
        1 <= civil_from_days(days).1 <= 12,
        1 <= civil_from_days(days).2 <= 31,
        date_key(days) == (12 * civil_from_days(days).0 + civil_from_days(days).1 - 1) * 32 + civil_from_days(days).2,
{
    lemma_key_parts(days);
}

/// 1970-01-01 is day zero.
proof fn lemma_first_day()
    ensures
        civil_from_days(0) == (1970int, 1int, 1int),
{
    let doe: int = 135080;
    assert(719468int / 146097 == 4 && 719468int % 146097 == doe);
    assert(year_of_era(doe) == 369);
    assert(day_of_year(doe) == 306);
}

/// 9999-12-31 is day 2932896.
proof fn lemma_last_day_of_9999()
    ensures
        civil_from_days(2932896) == (9999int, 12int, 31int),
{
    let doe: int = 146036;
    assert(3652364int / 146097 == 24 && 3652364int % 146097 == doe);
    assert(year_of_era(doe) == 399);
    assert(day_of_year(doe) == 305);
}

/// Dates follow the order of their days: of two days, the later one's
/// (year, month, day) is not smaller, compared field by field from the year;
/// from day zero to day 2932896 the years run from 1970 to 9999.
pub(crate) proof fn lemma_date_order(d1: nat, d2: nat)
    requires
        d1 <= d2,
    ensures
        ({
            let (y1, m1, x1) = civil_from_days(d1);
            let (y2, m2, x2) = civil_from_days(d2);
            &&& y1 <= y2
            &&& y1 == y2 ==> m1 <= m2
            &&& y1 == y2 && m1 == m2 ==> x1 <= x2
            &&& 1970 <= y1
            &&& d2 <= 2932896 ==> y2 <= 9999
        }),
{
    lemma_date_key_monotone(d1, d2);
    lemma_date_key_monotone(0, d1);
    lemma_civil_bounds(d1);
    lemma_civil_bounds(d2);
    lemma_civil_bounds(0);
    lemma_first_day();
    if d2 <= 2932896 {
        lemma_date_key_monotone(d2, 2932896);
        lemma_civil_bounds(2932896);
        lemma_last_day_of_9999();
    }
    let (y1, m1, x1) = civil_from_days(d1);
    let (y2, m2, x2) = civil_from_days(d2);
    let k1 = date_key(d1);
    let k2 = date_key(d2);
    assert(y1 <= y2 && (y1 == y2 ==> m1 <= m2) && (y1 == y2 && m1 == m2 ==> x1 <= x2)) by (nonlinear_arith)
        requires
            k1 <= k2,
            k1 == (12 * y1 + m1 - 1) * 32 + x1,
            k2 == (12 * y2 + m2 - 1) * 32 + x2,
            1 <= m1 <= 12,
            1 <= m2 <= 12,
            1 <= x1 <= 31,
            1 <= x2 <= 31,
    ;
    assert(1970 <= y1) by (nonlinear_arith)
        requires
            date_key(0) <= k1,
            date_key(0) == (12 * 1970 + 1 - 1) * 32 + 1,
            k1 == (12 * y1 + m1 - 1) * 32 + x1,
            1 <= m1 <= 12,
            1 <= x1 <= 31,
    ;
    if d2 <= 2932896 {
        assert(y2 <= 9999) by (nonlinear_arith)
            requires
                k2 <= date_key(2932896),
                date_key(2932896) == (12 * 9999 + 12 - 1) * 32 + 31,
                k2 == (12 * y2 + m2 - 1) * 32 + x2,
                1 <= m2 <= 12,
                1 <= x2 <= 31,
        ;
    }
}

/// The first day, counted from the start of its era, of the March-based
/// year `yoe` of that era.
pub open spec fn year_start(yoe: int) -> int {
    365 * yoe + yoe / 4 - yoe / 100
}

/// The first day of each year of an era falls in that year.
proof fn lemma_year_start_year(y: int)
    requires
        0 <= y <= 399,
    ensures
        year_of_era(year_start(y)) == y,
{
    let q4 = y / 4;
    let r4 = y % 4;
    let q100 = y / 100;
    let r100 = y % 100;
    let doe = year_start(y);
    assert(q4 == 25 * q100 + r100 / 4 && 0 <= r100 / 4 <= 24) by (nonlinear_arith)
        requires
            q4 == y / 4,
            q100 == y / 100,
            r100 == y % 100,
            0 <= y,
    ;
    assert(y == 4 * q4 + r4 && 0 <= r4 < 4 && y == 100 * q100 + r100 && 0 <= r100 < 100 && 0 <= q100 <= 3);
    assert(doe == 1460 * q4 + (365 * r4 + q4 - q100));
    assert(doe == 36524 * q100 + (365 * r100 + r100 / 4));
    vstd::arithmetic::div_mod::lemma_fundamental_div_mod_converse(doe, 1460, q4, 365 * r4 + q4 - q100);
    vstd::arithmetic::div_mod::lemma_fundamental_div_mod_converse(doe, 36524, q100, 365 * r100 + r100 / 4);
    vstd::arithmetic::div_mod::lemma_fundamental_div_mod_converse(doe, 146096, 0, doe);
    vstd::arithmetic::div_mod::lemma_fundamental_div_mod_converse(365 * y, 365, y, 0);
}

/// A day that is the 366th of its March-based year lies in a year of 366
/// days: the year that ends it is a multiple of 4 and not of 100, or the
/// last year of the era.
proof fn lemma_last_doy_leap(doe: int)
    requires
        0 <= doe < 146097,
        day_of_year(doe) == 365,
    ensures
        ({
            let i = year_of_era(doe) + 1;
            i % 4 == 0 && (i % 100 != 0 || i == 400)
        }),
{
    lemma_doe_bounds(doe);
    let y = year_of_era(doe);
    assert(doe == year_start(y) + 365);
    if y < 399 {
        lemma_year_start_year(y + 1);
        let d4 = (y + 1) / 4 - y / 4;
        let d100 = (y + 1) / 100 - y / 100;
        assert((d4 == 0 || d4 == 1) && (d4 == 1 <==> (y + 1) % 4 == 0));
        assert((d100 == 0 || d100 == 1) && (d100 == 1 <==> (y + 1) % 100 == 0));
        assert((y + 1) % 100 == 0 ==> (y + 1) % 4 == 0);
        assert(year_start(y + 1) == year_start(y) + 365 + d4 - d100);
        assert(year_start(y + 1) != doe);
    }
}

/// Whether `y` is a leap year of the Gregorian calendar.
pub open spec fn is_leap_year(y: int) -> bool {
    y % 4 == 0 && (y % 100 != 0 || y % 400 == 0)
}

/// The number of days of month `m` (1..=12) of year `y`.
pub open spec fn month_length(y: int, m: int) -> int {
    if m == 2 {
        if is_leap_year(y) {
            29
        } else {
            28
        }
    } else if m == 4 || m == 6 || m == 9 || m == 11 {
        30
    } else {
        31
    }
}

/// Every day after 1970-01-01 gets a real date: its month is one of the
/// twelve and its day is within the length of that month, February having
/// 29 days in leap years only.
pub proof fn law_dates_are_real(days: nat)
    ensures
        1 <= civil_from_days(days).1 <= 12,
        1 <= civil_from_days(days).2 <= month_length(civil_from_days(days).0, civil_from_days(days).1),
{
    let z: int = days as int + 719468;
    let era = z / 146097;
    let doe = z % 146097;
    lemma_doe_bounds(doe);
    let doy = day_of_year(doe);
    lemma_month_bounds(doy);
    let mp = march_month(doy);
    assert(153 * mp <= 5 * doy + 2 < 153 * mp + 153) by (nonlinear_arith)
        requires
            mp == (5 * doy + 2) / 153,
            0 <= doy,
    ;
    let (y, m, d) = civil_from_days(days);
    assert(d == doy - (153 * mp + 2) / 5 + 1);
    if mp == 11 && doy == 365 {
        lemma_last_doy_leap(doe);
        let i = year_of_era(doe) + 1;
        assert(y == i + era * 400);
        assert(is_leap_year(y)) by (nonlinear_arith)
            requires
                y == i + era * 400,
                1 <= i <= 400,
                i % 4 == 0 && (i % 100 != 0 || i == 400),
        ;
    }
}

} // verus!
