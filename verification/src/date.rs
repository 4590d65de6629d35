//! Calendar dates in the proleptic Gregorian calendar.
//!
//! All times in the library are naive local times: no timezone or DST
//! handling anywhere. A [`Date`] is modelled as plain year, month and day
//! fields; the mathematical model of a valid date is its day index, the
//! number of days since the calendar epoch 0001-01-01 (which is a Monday).

use vstd::prelude::*;
use vstd::arithmetic::div_mod::{
    lemma_fundamental_div_mod, lemma_fundamental_div_mod_converse, lemma_mod_multiples_basic,
};

verus! {

/// A calendar date (naive local frame). Years are counted from 1 in the
/// proleptic Gregorian calendar.
#[derive(Debug, Clone, Copy, PartialEq, Eq, Structural)]
pub struct Date {
    pub year: u32,
    pub month: u32,
    pub day: u32,
}

pub open spec fn spec_is_leap_year(y: int) -> bool {
    y % 400 == 0 || (y % 4 == 0 && y % 100 != 0)
}

pub open spec fn spec_days_in_year(y: int) -> int {
    if spec_is_leap_year(y) {
        366
    } else {
        365
    }
}

pub open spec fn spec_days_in_month(y: int, m: int) -> int {
    if m == 2 {
        if spec_is_leap_year(y) {
            29
        } else {
            28
        }
    } else if m == 4 || m == 6 || m == 9 || m == 11 {
        30
    } else {
        31
    }
}

/// Days in all years strictly before year `y` (years count from 1).
pub open spec fn spec_days_before_year(y: int) -> int
    decreases y,
{
    if y <= 1 {
        0
    } else {
        spec_days_before_year(y - 1) + spec_days_in_year(y - 1)
    }
}

/// Days in all months of year `y` strictly before month `m`.
pub open spec fn spec_days_before_month(y: int, m: int) -> int
    decreases m,
{
    if m <= 1 {
        0
    } else {
        spec_days_before_month(y, m - 1) + spec_days_in_month(y, m - 1)
    }
}

/// The number of days from 0001-01-01 to this date: the mathematical
/// model of a valid date.
pub open spec fn spec_day_index(d: Date) -> int {
    spec_days_before_year(d.year as int) + spec_days_before_month(d.year as int, d.month as int)
        + d.day - 1
}

/// Lexicographic order on (year, month, day).
pub open spec fn spec_date_lt(a: Date, b: Date) -> bool {
    a.year < b.year || (a.year == b.year && (a.month < b.month || (a.month == b.month
        && a.day < b.day)))
}

impl Date {
    /// A structurally valid calendar date.
    pub open spec fn valid(self) -> bool {
        1 <= self.year && 1 <= self.month <= 12 && 1 <= self.day <= spec_days_in_month(
            self.year as int,
            self.month as int,
        )
    }

    pub fn new(year: u32, month: u32, day: u32) -> (r: Self)
        requires
            (Date { year, month, day }).valid(),
        ensures
            r == (Date { year, month, day }),
    {
        Date { year, month, day }
    }
}

/// Whether `y` is a leap year in the Gregorian rules.
pub fn is_leap_year(y: u32) -> (r: bool)
    ensures
        r == spec_is_leap_year(y as int),
{
    y % 400 == 0 || (y % 4 == 0 && y % 100 != 0)
}

/// Number of days in the given month, leap-year aware.
pub fn days_in_month(year: u32, month: u32) -> (r: u32)
    requires
        1 <= month <= 12,
    ensures
        r == spec_days_in_month(year as int, month as int),
{
    if month == 2 {
        if is_leap_year(year) {
            29
        } else {
            28
        }
    } else if month == 4 || month == 6 || month == 9 || month == 11 {
        30
    } else {
        31
    }
}

/// The last calendar day of the month that `d` falls in.
pub fn last_day_of_month(d: &Date) -> (r: u32)
    requires
        d.valid(),
    ensures
        r == spec_days_in_month(d.year as int, d.month as int),
{
    days_in_month(d.year, d.month)
}

/// How an integer division by a positive constant moves when its
/// dividend steps down by one: it drops exactly at the multiples.
proof fn lemma_div_step(n: int, k: int)
    requires
        n >= 1,
        k >= 2,
    ensures
        n / k == (n - 1) / k + if n % k == 0 {
            1int
        } else {
            0int
        },
{
    lemma_fundamental_div_mod(n, k);
    let q = n / k;
    let r = n % k;
    if r == 0 {
        assert(n - 1 == (q - 1) * k + (k - 1)) by (nonlinear_arith)
            requires
                n == k * q,
        ;
        lemma_fundamental_div_mod_converse(n - 1, k, q - 1, k - 1);
    } else {
        assert(n - 1 == q * k + (r - 1)) by (nonlinear_arith)
            requires
                n == k * q + r,
        ;
        lemma_fundamental_div_mod_converse(n - 1, k, q, r - 1);
    }
}

/// Divisibility by 400 or by 100 implies divisibility by 4 and by 100 or 4
/// respectively, so the three leap-year indicator terms add up to the
/// length correction of year `n`.
proof fn lemma_leap_indicator(n: int)
    requires
        n >= 1,
    ensures
        spec_days_in_year(n) == 365 + (if n % 4 == 0 {
            1int
        } else {
            0int
        }) - (if n % 100 == 0 {
            1int
        } else {
            0int
        }) + (if n % 400 == 0 {
            1int
        } else {
            0int
        }),
{
    if n % 400 == 0 {
        lemma_fundamental_div_mod(n, 400);
        let q = n / 400;
        assert(n == 4 * (100 * q));
        assert(n == 100 * (4 * q));
        lemma_mod_multiples_basic(100 * q, 4);
        lemma_mod_multiples_basic(4 * q, 100);
    } else if n % 100 == 0 {
        lemma_fundamental_div_mod(n, 100);
        let q = n / 100;
        assert(n == 4 * (25 * q));
        lemma_mod_multiples_basic(25 * q, 4);
    }
}

/// Closed form for the day count of the complete years before year `y`.
proof fn lemma_days_before_year_closed(y: int)
    requires
        y >= 1,
    ensures
        spec_days_before_year(y) == 365 * (y - 1) + (y - 1) / 4 - (y - 1) / 100 + (y - 1) / 400,
    decreases y,
{
    if y == 1 {
    } else {
        lemma_days_before_year_closed(y - 1);
        lemma_div_step(y - 1, 4);
        lemma_div_step(y - 1, 100);
        lemma_div_step(y - 1, 400);
        lemma_leap_indicator(y - 1);
    }
}

/// Cumulative days before each month of a year.
fn month_prefix_days(year: u32, month: u32) -> (r: u32)
    requires
        1 <= month <= 12,
    ensures
        r == spec_days_before_month(year as int, month as int),
{
    proof {
        reveal_with_fuel(spec_days_before_month, 13);
    }
    let base: u32 = match month {
        1 => 0,
        2 => 31,
        3 => 59,
        4 => 90,
        5 => 120,
        6 => 151,
        7 => 181,
        8 => 212,
        9 => 243,
        10 => 273,
        11 => 304,
        _ => 334,
    };
    if month > 2 && is_leap_year(year) {
        base + 1
    } else {
        base
    }
}

/// Quotients by larger denominators are no larger.
proof fn lemma_quot_bounds(y: int)
    requires
        y >= 0,
    ensures
        0 <= y / 400 <= y / 100 <= y / 4 <= y,
{
    lemma_fundamental_div_mod(y, 4);
    lemma_fundamental_div_mod(y, 100);
    lemma_fundamental_div_mod(y, 400);
    let (q4, q100, q400) = (y / 4, y / 100, y / 400);
    assert(q4 >= 0 && q100 >= 0 && q400 >= 0) by {
        if q4 < 0 {
            assert(4 * q4 <= -4);
        }
        if q100 < 0 {
            assert(100 * q100 <= -100);
        }
        if q400 < 0 {
            assert(400 * q400 <= -400);
        }
    }
    assert(q100 <= q4) by {
        if q100 > q4 {
            assert(100 * q100 >= 100 * q4 + 100);
            assert(100 * q4 >= 4 * q4) by {
                assert(96 * q4 >= 0);
            }
        }
    }
    assert(q400 <= q100) by {
        if q400 > q100 {
            assert(400 * q400 >= 400 * q100 + 400);
            assert(400 * q100 >= 100 * q100) by {
                assert(300 * q100 >= 0);
            }
        }
    }
    assert(q4 <= y) by {
        assert(4 * q4 >= q4) by {
            assert(3 * q4 >= 0);
        }
    }
}

/// The day index of a valid date, computed in closed form.
///
/// The result is the number of days from 0001-01-01 to this date.
pub fn day_number(d: &Date) -> (r: u64)
    requires
        d.valid(),
    ensures
        r == spec_day_index(*d),
{
    let y: u64 = (d.year - 1) as u64;
    proof {
        lemma_days_before_year_closed(d.year as int);
        lemma_quot_bounds(y as int);
    }
    let before_year: u64 = 365 * y + y / 4 - y / 100 + y / 400;
    let before_month: u64 = month_prefix_days(d.year, d.month) as u64;
    before_year + before_month + (d.day - 1) as u64
}

/// Weekday of a valid date: 0 is Monday through 6 is Sunday.
///
/// The calendar epoch 0001-01-01 is a Monday in the proleptic Gregorian
/// calendar, so the weekday is the day index modulo seven.
pub open spec fn spec_weekday(d: Date) -> int {
    spec_day_index(d) % 7
}

pub fn weekday_index(d: &Date) -> (r: u8)
    requires
        d.valid(),
    ensures
        r == spec_weekday(*d),
        r < 7,
{
    (day_number(d) % 7) as u8
}

/// Three-letter abbreviation of a weekday index, as bytes.
pub open spec fn spec_weekday_abbr(w: int) -> Seq<u8> {
    if w == 0 {
        seq!['M' as u8, 'o' as u8, 'n' as u8]
    } else if w == 1 {
        seq!['T' as u8, 'u' as u8, 'e' as u8]
    } else if w == 2 {
        seq!['W' as u8, 'e' as u8, 'd' as u8]
    } else if w == 3 {
        seq!['T' as u8, 'h' as u8, 'u' as u8]
    } else if w == 4 {
        seq!['F' as u8, 'r' as u8, 'i' as u8]
    } else if w == 5 {
        seq!['S' as u8, 'a' as u8, 't' as u8]
    } else {
        seq!['S' as u8, 'u' as u8, 'n' as u8]
    }
}

/// Full weekday name of a weekday index.
pub open spec fn spec_weekday_name(w: int) -> Seq<char> {
    if w == 0 {
        "Monday"@
    } else if w == 1 {
        "Tuesday"@
    } else if w == 2 {
        "Wednesday"@
    } else if w == 3 {
        "Thursday"@
    } else if w == 4 {
        "Friday"@
    } else if w == 5 {
        "Saturday"@
    } else {
        "Sunday"@
    }
}

/// Full weekday name of a valid date.
pub fn weekday_name(d: &Date) -> (r: String)
    requires
        d.valid(),
    ensures
        r@ == spec_weekday_name(spec_weekday(*d)),
{
    let w = weekday_index(d);
    match w {
        0 => "Monday".to_owned(),
        1 => "Tuesday".to_owned(),
        2 => "Wednesday".to_owned(),
        3 => "Thursday".to_owned(),
        4 => "Friday".to_owned(),
        5 => "Saturday".to_owned(),
        _ => "Sunday".to_owned(),
    }
}

/// Three-letter abbreviation of a month number, as bytes.
pub open spec fn spec_month_abbr(m: int) -> Seq<u8> {
    if m == 1 {
        seq!['J' as u8, 'a' as u8, 'n' as u8]
    } else if m == 2 {
        seq!['F' as u8, 'e' as u8, 'b' as u8]
    } else if m == 3 {
        seq!['M' as u8, 'a' as u8, 'r' as u8]
    } else if m == 4 {
        seq!['A' as u8, 'p' as u8, 'r' as u8]
    } else if m == 5 {
        seq!['M' as u8, 'a' as u8, 'y' as u8]
    } else if m == 6 {
        seq!['J' as u8, 'u' as u8, 'n' as u8]
    } else if m == 7 {
        seq!['J' as u8, 'u' as u8, 'l' as u8]
    } else if m == 8 {
        seq!['A' as u8, 'u' as u8, 'g' as u8]
    } else if m == 9 {
        seq!['S' as u8, 'e' as u8, 'p' as u8]
    } else if m == 10 {
        seq!['O' as u8, 'c' as u8, 't' as u8]
    } else if m == 11 {
        seq!['N' as u8, 'o' as u8, 'v' as u8]
    } else {
        seq!['D' as u8, 'e' as u8, 'c' as u8]
    }
}

} // verus!
