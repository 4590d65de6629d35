//! Parsing the monthly CSV feed into a [`Month`] of [`Day`] records.
//!
//! The feed is one header row followed by one row per day with the
//! columns weekday+day+month, fajr, sunrise (ignored), dhuhr, asr,
//! maghrib and isha. Times come in an `H:MM`-like 24-hour form with the
//! afternoon and evening prayers emitted as if on a 12-hour clock.

use crate::clock::{spec_performed, spec_shift_twelve, Moment, TimeOfDay};
use crate::date::{
    days_in_month, spec_days_in_month, spec_month_abbr, spec_weekday, spec_weekday_abbr,
    weekday_index, Date,
};
use crate::day::Day;
use crate::month::Month;
use crate::prayer::Prayer;
use crate::text::{
    parse_u32_at, spec_digit_run_end, spec_digit_val, spec_digits_val, spec_is_digit,
};
use crate::types::{PrayerName, UmmahError, UmmahResult};
use vstd::prelude::*;

verus! {

/// Position of the first occurrence of `sep` in `s` at or after `i`
/// (the length of `s` if there is none).
pub open spec fn spec_find(s: Seq<u8>, sep: u8, i: int) -> int
    decreases s.len() - i,
{
    if i < 0 || i >= s.len() {
        s.len() as int
    } else if s[i] == sep {
        i
    } else {
        spec_find(s, sep, i + 1)
    }
}

/// `s` split at every occurrence of `sep`: one more piece than there are
/// separators, in order, separators dropped.
pub open spec fn spec_split(s: Seq<u8>, sep: u8) -> Seq<Seq<u8>>
    decreases s.len(),
{
    let i = spec_find(s, sep, 0);
    if 0 <= i < s.len() {
        seq![s.take(i)] + spec_split(s.skip(i + 1), sep)
    } else {
        seq![s]
    }
}

/// A line with any trailing carriage return removed.
pub open spec fn spec_strip_cr(l: Seq<u8>) -> Seq<u8> {
    if l.len() > 0 && l.last() == 13 {
        l.drop_last()
    } else {
        l
    }
}

/// The first occurrence is a separator, and nothing before it is.
proof fn lemma_find_char(s: Seq<u8>, sep: u8, i: int)
    requires
        0 <= i <= s.len(),
    ensures
        i <= spec_find(s, sep, i) <= s.len(),
        spec_find(s, sep, i) < s.len() ==> s[spec_find(s, sep, i)] == sep,
        forall|k: int| i <= k < spec_find(s, sep, i) ==> s[k] != sep,
    decreases s.len() - i,
{
    if i < s.len() && s[i] != sep {
        lemma_find_char(s, sep, i + 1);
    }
}

/// Split `s` at every occurrence of `sep`.
pub fn split_bytes(s: &Vec<u8>, sep: u8) -> (r: Vec<Vec<u8>>)
    ensures
        r@.len() == spec_split(s@, sep).len(),
        forall|k: int| 0 <= k < r@.len() ==> (#[trigger] r@[k])@ == spec_split(s@, sep)[k],
{
    let n = s.len();
    let mut pieces: Vec<Vec<u8>> = Vec::new();
    let mut start: usize = 0;
    let mut cur: Vec<u8> = Vec::new();
    let mut i: usize = 0;
    proof {
        assert(s@.skip(0) =~= s@);
        assert(pieces@.map_values(|v: Vec<u8>| v@) =~= Seq::<Seq<u8>>::empty());
        assert(cur@ =~= s@.subrange(0, 0));
    }
    while i < n
        invariant
            0 <= start <= i <= n,
            n == s@.len(),
            cur@ == s@.subrange(start as int, i as int),
            forall|k: int| start <= k < i ==> s@[k] != sep,
            spec_split(s@, sep) == pieces@.map_values(|v: Vec<u8>| v@) + spec_split(
                s@.skip(start as int),
                sep,
            ),
        decreases n - i,
    {
        if s[i] == sep {
            proof {
                let suffix = s@.skip(start as int);
                lemma_find_char(suffix, sep, 0);
                assert(suffix[i - start] == sep);
                assert(forall|k: int| 0 <= k < i - start ==> suffix[k] != sep);
                lemma_find_exact_pub(suffix, sep, i - start);
                assert(suffix.take(i - start) =~= s@.subrange(start as int, i as int));
                assert(suffix.skip(i - start + 1) =~= s@.skip(i + 1));
            }
            pieces.push(cur);
            cur = Vec::new();
            start = i + 1;
            proof {
                assert(pieces@.map_values(|v: Vec<u8>| v@) =~= pieces@.drop_last().map_values(
                    |v: Vec<u8>| v@,
                ) + seq![pieces@.last()@]);
                assert(cur@ =~= s@.subrange(start as int, start as int));
            }
        } else {
            cur.push(s[i]);
            proof {
                assert(cur@ =~= s@.subrange(start as int, i + 1));
            }
        }
        i = i + 1;
    }
    proof {
        let suffix = s@.skip(start as int);
        lemma_find_char(suffix, sep, 0);
        assert(forall|k: int| 0 <= k < suffix.len() ==> suffix[k] != sep);
        assert(spec_find(suffix, sep, 0) == suffix.len()) by {
            if spec_find(suffix, sep, 0) < suffix.len() {
                assert(suffix[spec_find(suffix, sep, 0)] == sep);
            }
        }
        assert(cur@ =~= suffix);
        assert(spec_split(suffix, sep) == seq![suffix]);
    }
    pieces.push(cur);
    proof {
        assert(pieces@.map_values(|v: Vec<u8>| v@) =~= pieces@.drop_last().map_values(
            |v: Vec<u8>| v@,
        ) + seq![pieces@.last()@]);
        assert(forall|k: int|
            0 <= k < pieces@.len() ==> (#[trigger] pieces@[k])@ == pieces@.map_values(
                |v: Vec<u8>| v@,
            )[k]);
    }
    pieces
}

/// A separator at the first position past a separator-free stretch is
/// where the search lands.
pub proof fn lemma_find_exact_pub(s: Seq<u8>, sep: u8, j: int)
    requires
        0 <= j < s.len(),
        s[j] == sep,
        forall|k: int| 0 <= k < j ==> s[k] != sep,
    ensures
        spec_find(s, sep, 0) == j,
{
    lemma_find_from(s, sep, 0, j);
}

proof fn lemma_find_from(s: Seq<u8>, sep: u8, i: int, j: int)
    requires
        0 <= i <= j < s.len(),
        s[j] == sep,
        forall|k: int| i <= k < j ==> s[k] != sep,
    ensures
        spec_find(s, sep, i) == j,
    decreases j - i,
{
    if i < j {
        lemma_find_from(s, sep, i + 1, j);
    }
}

/// Weekday index of a three-byte abbreviation.
pub open spec fn spec_weekday_of_abbr(a: Seq<u8>) -> Option<int> {
    if a == spec_weekday_abbr(0) {
        Some(0int)
    } else if a == spec_weekday_abbr(1) {
        Some(1int)
    } else if a == spec_weekday_abbr(2) {
        Some(2int)
    } else if a == spec_weekday_abbr(3) {
        Some(3int)
    } else if a == spec_weekday_abbr(4) {
        Some(4int)
    } else if a == spec_weekday_abbr(5) {
        Some(5int)
    } else if a == spec_weekday_abbr(6) {
        Some(6int)
    } else {
        None
    }
}

/// Month number of a three-byte abbreviation.
pub open spec fn spec_month_of_abbr(a: Seq<u8>) -> Option<int> {
    if a == spec_month_abbr(1) {
        Some(1int)
    } else if a == spec_month_abbr(2) {
        Some(2int)
    } else if a == spec_month_abbr(3) {
        Some(3int)
    } else if a == spec_month_abbr(4) {
        Some(4int)
    } else if a == spec_month_abbr(5) {
        Some(5int)
    } else if a == spec_month_abbr(6) {
        Some(6int)
    } else if a == spec_month_abbr(7) {
        Some(7int)
    } else if a == spec_month_abbr(8) {
        Some(8int)
    } else if a == spec_month_abbr(9) {
        Some(9int)
    } else if a == spec_month_abbr(10) {
        Some(10int)
    } else if a == spec_month_abbr(11) {
        Some(11int)
    } else {
        if a == spec_month_abbr(12) {
            Some(12int)
        } else {
            None
        }
    }
}

/// Match the first three bytes of `s` against the weekday abbreviations.
fn weekday_from_prefix(s: &Vec<u8>) -> (r: Option<u8>)
    requires
        s@.len() >= 3,
    ensures
        (match spec_weekday_of_abbr(s@.take(3)) {
            Some(w) => r == Some(w as u8),
            None => r is None,
        }),
{
    let (a, b, c) = (s[0], s[1], s[2]);
    proof {
        assert(s@.take(3).len() == 3);
        assert(s@.take(3)[0] == a && s@.take(3)[1] == b && s@.take(3)[2] == c);
    }
    if a == 'M' as u8 && b == 'o' as u8 && c == 'n' as u8 {
        proof {
            assert(s@.take(3) =~= spec_weekday_abbr(0));
        }
        Some(0)
    } else if a == 'T' as u8 && b == 'u' as u8 && c == 'e' as u8 {
        proof {
            assert(s@.take(3) =~= spec_weekday_abbr(1));
        }
        Some(1)
    } else if a == 'W' as u8 && b == 'e' as u8 && c == 'd' as u8 {
        proof {
            assert(s@.take(3) =~= spec_weekday_abbr(2));
        }
        Some(2)
    } else if a == 'T' as u8 && b == 'h' as u8 && c == 'u' as u8 {
        proof {
            assert(s@.take(3) =~= spec_weekday_abbr(3));
        }
        Some(3)
    } else if a == 'F' as u8 && b == 'r' as u8 && c == 'i' as u8 {
        proof {
            assert(s@.take(3) =~= spec_weekday_abbr(4));
        }
        Some(4)
    } else if a == 'S' as u8 && b == 'a' as u8 && c == 't' as u8 {
        proof {
            assert(s@.take(3) =~= spec_weekday_abbr(5));
        }
        Some(5)
    } else if a == 'S' as u8 && b == 'u' as u8 && c == 'n' as u8 {
        proof {
            assert(s@.take(3) =~= spec_weekday_abbr(6));
        }
        Some(6)
    } else {
        None
    }
}

/// Match the three bytes of `s` at `i` against the month abbreviations.
fn month_from_at(s: &Vec<u8>, i: usize) -> (r: Option<u8>)
    requires
        i + 3 <= s@.len(),
    ensures
        (match spec_month_of_abbr(s@.subrange(i as int, i + 3)) {
            Some(m) => r == Some(m as u8),
            None => r is None,
        }),
{
    let n = s.len();
    let (a, b, c) = (s[i], s[i + 1], s[i + 2]);
    proof {
        let w = s@.subrange(i as int, i + 3);
        assert(w.len() == 3);
        assert(w[0] == a && w[1] == b && w[2] == c);
    }
    if a == 'J' as u8 && b == 'a' as u8 && c == 'n' as u8 {
        proof {
            assert(s@.subrange(i as int, i + 3) =~= spec_month_abbr(1));
        }
        Some(1)
    } else if a == 'F' as u8 && b == 'e' as u8 && c == 'b' as u8 {
        proof {
            assert(s@.subrange(i as int, i + 3) =~= spec_month_abbr(2));
        }
        Some(2)
    } else if a == 'M' as u8 && b == 'a' as u8 && c == 'r' as u8 {
        proof {
            assert(s@.subrange(i as int, i + 3) =~= spec_month_abbr(3));
        }
        Some(3)
    } else if a == 'A' as u8 && b == 'p' as u8 && c == 'r' as u8 {
        proof {
            assert(s@.subrange(i as int, i + 3) =~= spec_month_abbr(4));
        }
        Some(4)
    } else if a == 'M' as u8 && b == 'a' as u8 && c == 'y' as u8 {
        proof {
            assert(s@.subrange(i as int, i + 3) =~= spec_month_abbr(5));
        }
        Some(5)
    } else if a == 'J' as u8 && b == 'u' as u8 && c == 'n' as u8 {
        proof {
            assert(s@.subrange(i as int, i + 3) =~= spec_month_abbr(6));
        }
        Some(6)
    } else if a == 'J' as u8 && b == 'u' as u8 && c == 'l' as u8 {
        proof {
            assert(s@.subrange(i as int, i + 3) =~= spec_month_abbr(7));
        }
        Some(7)
    } else if a == 'A' as u8 && b == 'u' as u8 && c == 'g' as u8 {
        proof {
            assert(s@.subrange(i as int, i + 3) =~= spec_month_abbr(8));
        }
        Some(8)
    } else if a == 'S' as u8 && b == 'e' as u8 && c == 'p' as u8 {
        proof {
            assert(s@.subrange(i as int, i + 3) =~= spec_month_abbr(9));
        }
        Some(9)
    } else if a == 'O' as u8 && b == 'c' as u8 && c == 't' as u8 {
        proof {
            assert(s@.subrange(i as int, i + 3) =~= spec_month_abbr(10));
        }
        Some(10)
    } else if a == 'N' as u8 && b == 'o' as u8 && c == 'v' as u8 {
        proof {
            assert(s@.subrange(i as int, i + 3) =~= spec_month_abbr(11));
        }
        Some(11)
    } else if a == 'D' as u8 && b == 'e' as u8 && c == 'c' as u8 {
        proof {
            assert(s@.subrange(i as int, i + 3) =~= spec_month_abbr(12));
        }
        Some(12)
    } else {
        None
    }
}

/// The `H:MM`-like time grammar: an optional leading space, a one- or
/// two-digit hour below 24, a colon, and a zero-padded two-digit minute
/// below 60. Seconds are always zero.
pub open spec fn spec_parse_time(s: Seq<u8>) -> Option<TimeOfDay> {
    let t = if s.len() >= 1 && s[0] == 32 {
        s.skip(1)
    } else {
        s
    };
    if t.len() == 4 && spec_is_digit(t[0]) && t[1] == 58 && spec_is_digit(t[2]) && spec_is_digit(
        t[3],
    ) {
        let h = spec_digit_val(t[0]);
        let m = spec_digit_val(t[2]) * 10 + spec_digit_val(t[3]);
        if m < 60 {
            Some(TimeOfDay { hour: h as u8, minute: m as u8, second: 0 })
        } else {
            None
        }
    } else if t.len() == 5 && spec_is_digit(t[0]) && spec_is_digit(t[1]) && t[2] == 58
        && spec_is_digit(t[3]) && spec_is_digit(t[4]) {
        let h = spec_digit_val(t[0]) * 10 + spec_digit_val(t[1]);
        let m = spec_digit_val(t[3]) * 10 + spec_digit_val(t[4]);
        if h < 24 && m < 60 {
            Some(TimeOfDay { hour: h as u8, minute: m as u8, second: 0 })
        } else {
            None
        }
    } else {
        None
    }
}

/// Parse one textual prayer time, optionally applying the fixed 12-hour
/// re-basing. Fails with a date-time error exactly when the text does
/// not match the grammar.
pub fn parse_prayer_time(time: &Vec<u8>, apply_shift: bool) -> (r: UmmahResult<TimeOfDay>)
    ensures
        (match spec_parse_time(time@) {
            Some(t) => r == Ok::<TimeOfDay, UmmahError>(
                if apply_shift {
                    spec_shift_twelve(t)
                } else {
                    t
                },
            ) && r->Ok_0.valid(),
            None => r == Err::<TimeOfDay, UmmahError>(UmmahError::DateTime),
        }),
{
    let n = time.len();
    let off: usize = if n >= 1 && time[0] == 32 {
        1
    } else {
        0
    };
    proof {
        let t = if time@.len() >= 1 && time@[0] == 32 {
            time@.skip(1)
        } else {
            time@
        };
        assert(t.len() == n - off);
        assert(forall|k: int| 0 <= k < t.len() ==> t[k] == time@[off + k]);
    }
    let rem = n - off;
    if rem == 4 {
        let (b0, b1, b2, b3) = (time[off], time[off + 1], time[off + 2], time[off + 3]);
        if b0 >= 48 && b0 <= 57 && b1 == 58 && b2 >= 48 && b2 <= 57 && b3 >= 48 && b3 <= 57 {
            let h = (b0 - 48) as u8;
            let m = (b2 - 48) * 10 + (b3 - 48);
            if m < 60 {
                let t = TimeOfDay { hour: h, minute: m, second: 0 };
                if apply_shift {
                    Ok(crate::clock::shift_twelve(&t))
                } else {
                    Ok(t)
                }
            } else {
                Err(UmmahError::DateTime)
            }
        } else {
            Err(UmmahError::DateTime)
        }
    } else if rem == 5 {
        let (b0, b1, b2, b3, b4) = (
            time[off],
            time[off + 1],
            time[off + 2],
            time[off + 3],
            time[off + 4],
        );
        if b0 >= 48 && b0 <= 57 && b1 >= 48 && b1 <= 57 && b2 == 58 && b3 >= 48 && b3 <= 57 && b4
            >= 48 && b4 <= 57 {
            let h = (b0 - 48) * 10 + (b1 - 48);
            let m = (b3 - 48) * 10 + (b4 - 48);
            if h < 24 && m < 60 {
                let t = TimeOfDay { hour: h, minute: m, second: 0 };
                if apply_shift {
                    Ok(crate::clock::shift_twelve(&t))
                } else {
                    Ok(t)
                }
            } else {
                Err(UmmahError::DateTime)
            }
        } else {
            Err(UmmahError::DateTime)
        }
    } else {
        Err(UmmahError::DateTime)
    }
}

/// The digit run of a suffix is the digit run of the whole, shifted.
pub proof fn lemma_run_shift_pub(s: Seq<u8>, base: int, k: int)
    requires
        0 <= base <= base + k <= s.len(),
    ensures
        spec_digit_run_end(s.skip(base), k) == spec_digit_run_end(s, base + k) - base,
    decreases s.len() - base - k,
{
    let t = s.skip(base);
    if k < t.len() && spec_is_digit(t[k]) {
        lemma_run_shift_pub(s, base, k + 1);
    }
}

/// The date grammar of the feed's first column, with the year injected
/// by the caller: a weekday abbreviation, a space, a one- or two-digit
/// day, a space, and a month abbreviation. The result is a valid
/// calendar date whose weekday agrees with the abbreviation; any
/// mismatch (including a wrong weekday) fails.
pub open spec fn spec_parse_date(s: Seq<u8>, year: u32) -> Option<Date> {
    if s.len() < 5 {
        None
    } else {
        let w = spec_weekday_of_abbr(s.take(3));
        if w is None || s[3] != 32 {
            None
        } else {
            let rest = s.skip(4);
            let e = spec_digit_run_end(rest, 0);
            if e < 1 || e > 2 || rest.len() != e + 4 || rest[e] != 32 {
                None
            } else {
                let day = spec_digits_val(rest.take(e));
                let mo = spec_month_of_abbr(rest.skip(e + 1));
                if mo is None {
                    None
                } else {
                    let d = Date { year, month: mo->0 as u32, day: day as u32 };
                    if 1 <= year && 1 <= day && day <= spec_days_in_month(year as int, mo->0)
                        && spec_weekday(d) == w->0 {
                        Some(d)
                    } else {
                        None
                    }
                }
            }
        }
    }
}

/// Parse the feed's date column against the injected year. Fails with a
/// date-time error exactly when the text does not match the grammar,
/// names an impossible calendar day, or contradicts the weekday that the
/// date works out to.
pub fn parse_prayer_date(s: &Vec<u8>, year: u32) -> (r: UmmahResult<Date>)
    ensures
        (match spec_parse_date(s@, year) {
            Some(d) => r == Ok::<Date, UmmahError>(d) && d.valid(),
            None => r == Err::<Date, UmmahError>(UmmahError::DateTime),
        }),
{
    let n = s.len();
    if n < 5 {
        return Err(UmmahError::DateTime);
    }
    let w = match weekday_from_prefix(s) {
        Some(w) => w,
        None => {
            return Err(UmmahError::DateTime);
        },
    };
    if s[3] != 32 {
        return Err(UmmahError::DateTime);
    }
    proof {
        lemma_run_shift_pub(s@, 4, 0);
    }
    let (day_val, j) = match parse_u32_at(s, 4) {
        Some(p) => p,
        None => {
            proof {
                let rest = s@.skip(4);
                let e = spec_digit_run_end(rest, 0);
                crate::text::lemma_digit_run_chars(rest, 0);
                if 1 <= e <= 2 {
                    assert(forall|k: int|
                        0 <= k < rest.take(e).len() ==> crate::text::spec_is_digit(
                            #[trigger] rest.take(e)[k],
                        ));
                    assert(rest.take(e) =~= s@.subrange(4, spec_digit_run_end(s@, 4)));
                    crate::text::lemma_digits_val_bound(rest.take(e));
                    assert(crate::text::spec_pow10(2) == 100) by {
                        reveal_with_fuel(crate::text::spec_pow10, 3);
                    }
                }
            }
            return Err(UmmahError::DateTime);
        },
    };
    proof {
        crate::text::lemma_digit_run_chars(s@, 4);
        assert(s@.skip(4).take(j - 4) =~= s@.subrange(4, j as int));
    }
    let run = j - 4;
    if run > 2 {
        return Err(UmmahError::DateTime);
    }
    if n != j + 4 {
        return Err(UmmahError::DateTime);
    }
    if s[j] != 32 {
        return Err(UmmahError::DateTime);
    }
    let mo = match month_from_at(s, j + 1) {
        Some(m) => m,
        None => {
            proof {
                let rest = s@.skip(4);
                let e = spec_digit_run_end(rest, 0);
                assert(rest.skip(e + 1) =~= s@.subrange(j + 1, j + 4));
            }
            return Err(UmmahError::DateTime);
        },
    };
    proof {
        let rest = s@.skip(4);
        let e = spec_digit_run_end(rest, 0);
        assert(rest.skip(e + 1) =~= s@.subrange(j + 1, j + 4));
    }
    if !(year >= 1 && day_val >= 1 && day_val <= days_in_month(year, mo as u32)) {
        return Err(UmmahError::DateTime);
    }
    let d = Date { year, month: mo as u32, day: day_val };
    let w2 = weekday_index(&d);
    if w2 == w {
        Ok(d)
    } else {
        Err(UmmahError::DateTime)
    }
}

/// The five prayers of one row, tagged with their performed status
/// against the current moment, in canonical kind order.
pub open spec fn spec_built_prayers(
    date: Date,
    fajr: TimeOfDay,
    dhuhr: TimeOfDay,
    asr: TimeOfDay,
    maghrib: TimeOfDay,
    isha: TimeOfDay,
    now: Moment,
) -> Seq<Prayer> {
    seq![
        Prayer { name: PrayerName::Fajr, time: fajr, performed: spec_performed(now, date, fajr) },
        Prayer {
            name: PrayerName::Dhuhr,
            time: dhuhr,
            performed: spec_performed(now, date, dhuhr),
        },
        Prayer { name: PrayerName::Asr, time: asr, performed: spec_performed(now, date, asr) },
        Prayer {
            name: PrayerName::Maghrib,
            time: maghrib,
            performed: spec_performed(now, date, maghrib),
        },
        Prayer { name: PrayerName::Isha, time: isha, performed: spec_performed(now, date, isha) },
    ]
}

/// What one raw row works out to: the parsed date and the five prayers,
/// with the 12-hour re-basing applied to every prayer but Fajr. `None`
/// exactly when any field fails its parse.
pub open spec fn spec_build_row(
    day_f: Seq<u8>,
    fajr_f: Seq<u8>,
    dhuhr_f: Seq<u8>,
    asr_f: Seq<u8>,
    maghrib_f: Seq<u8>,
    isha_f: Seq<u8>,
    year: u32,
    now: Moment,
) -> Option<(Date, Seq<Prayer>)> {
    if spec_parse_date(day_f, year) is Some && spec_parse_time(fajr_f) is Some && spec_parse_time(
        dhuhr_f,
    ) is Some && spec_parse_time(asr_f) is Some && spec_parse_time(maghrib_f) is Some
        && spec_parse_time(isha_f) is Some {
        let date = spec_parse_date(day_f, year)->0;
        let fajr = spec_parse_time(fajr_f)->0;
        let dhuhr = spec_shift_twelve(spec_parse_time(dhuhr_f)->0);
        let asr = spec_shift_twelve(spec_parse_time(asr_f)->0);
        let maghrib = spec_shift_twelve(spec_parse_time(maghrib_f)->0);
        let isha = spec_shift_twelve(spec_parse_time(isha_f)->0);
        Some((date, spec_built_prayers(date, fajr, dhuhr, asr, maghrib, isha, now)))
    } else {
        None
    }
}

/// The abstract content of a [`Day`]: its date and its prayer sequence.
pub open spec fn spec_day_model(d: Day) -> (Date, Seq<Prayer>) {
    (d.date, d.prayers@)
}

/// One raw CSV row of the feed, by column.
pub struct CSVPrayer {
    pub day: Vec<u8>,
    pub fajr: Vec<u8>,
    pub sunrise: Vec<u8>,
    pub dhuhr: Vec<u8>,
    pub asr: Vec<u8>,
    pub maghrib: Vec<u8>,
    pub isha: Vec<u8>,
}

impl CSVPrayer {
    /// Build the [`Day`] this row describes: parse the date against the
    /// injected year, parse Fajr unshifted and the other four prayers
    /// with the 12-hour re-basing, and tag every prayer's performed flag
    /// against the injected current moment. Fails with a date-time error
    /// exactly when any field fails its parse; the sunrise column is
    /// ignored.
    pub fn build(self, year: u32, now: &Moment) -> (r: UmmahResult<Day>)
        ensures
            (match spec_build_row(
                self.day@,
                self.fajr@,
                self.dhuhr@,
                self.asr@,
                self.maghrib@,
                self.isha@,
                year,
                *now,
            ) {
                Some(p) => r is Ok && spec_day_model(r->Ok_0) == p && r->Ok_0.wf(),
                None => r == Err::<Day, UmmahError>(UmmahError::DateTime),
            }),
    {
        let date = match parse_prayer_date(&self.day, year) {
            Ok(d) => d,
            Err(e) => {
                return Err(e);
            },
        };
        let fajr = match parse_prayer_time(&self.fajr, false) {
            Ok(t) => t,
            Err(e) => {
                return Err(e);
            },
        };
        let dhuhr = match parse_prayer_time(&self.dhuhr, true) {
            Ok(t) => t,
            Err(e) => {
                return Err(e);
            },
        };
        let asr = match parse_prayer_time(&self.asr, true) {
            Ok(t) => t,
            Err(e) => {
                return Err(e);
            },
        };
        let maghrib = match parse_prayer_time(&self.maghrib, true) {
            Ok(t) => t,
            Err(e) => {
                return Err(e);
            },
        };
        let isha = match parse_prayer_time(&self.isha, true) {
            Ok(t) => t,
            Err(e) => {
                return Err(e);
            },
        };
        let prayers: [Prayer; 5] = [
            Prayer::new(PrayerName::Fajr, fajr, crate::clock::get_performed_status(now, &date, &fajr)),
            Prayer::new(
                PrayerName::Dhuhr,
                dhuhr,
                crate::clock::get_performed_status(now, &date, &dhuhr),
            ),
            Prayer::new(PrayerName::Asr, asr, crate::clock::get_performed_status(now, &date, &asr)),
            Prayer::new(
                PrayerName::Maghrib,
                maghrib,
                crate::clock::get_performed_status(now, &date, &maghrib),
            ),
            Prayer::new(PrayerName::Isha, isha, crate::clock::get_performed_status(now, &date, &isha)),
        ];
        let d = Day::new(date, prayers);
        proof {
            assert(d.prayers@ =~= spec_built_prayers(
                date,
                fajr,
                dhuhr,
                asr,
                maghrib,
                isha,
                *now,
            ));
        }
        Ok(d)
    }
}

/// What a stretch of raw feed rows works out to: the day models in feed
/// order. Empty lines are skipped (any trailing carriage return removed
/// first); a row that does not split into exactly seven fields is a CSV
/// error; a row whose fields fail to parse is a date-time error; the
/// first bad row decides, and one bad row fails the whole feed.
pub open spec fn spec_rows_to_days(rows: Seq<Seq<u8>>, year: u32, now: Moment) -> Result<
    Seq<(Date, Seq<Prayer>)>,
    UmmahError,
>
    decreases rows.len(),
{
    if rows.len() == 0 {
        Ok(Seq::empty())
    } else {
        let line = spec_strip_cr(rows[0]);
        if line.len() == 0 {
            spec_rows_to_days(rows.drop_first(), year, now)
        } else {
            let fields = spec_split(line, 44);
            if fields.len() != 7 {
                Err(UmmahError::Csv)
            } else {
                match spec_build_row(
                    fields[0],
                    fields[1],
                    fields[3],
                    fields[4],
                    fields[5],
                    fields[6],
                    year,
                    now,
                ) {
                    None => Err(UmmahError::DateTime),
                    Some(p) => match spec_rows_to_days(rows.drop_first(), year, now) {
                        Ok(days) => Ok(seq![p] + days),
                        Err(e) => Err(e),
                    },
                }
            }
        }
    }
}

/// What a whole feed response works out to: the first line is the
/// header and is skipped, every later line is one day.
pub open spec fn spec_parse_csv(data: Seq<u8>, year: u32, now: Moment) -> Result<
    Seq<(Date, Seq<Prayer>)>,
    UmmahError,
> {
    spec_rows_to_days(spec_split(data, 10).drop_first(), year, now)
}

/// Copy of a line with any trailing carriage return removed.
fn strip_cr(v: &Vec<u8>) -> (r: Vec<u8>)
    ensures
        r@ == spec_strip_cr(v@),
{
    let n = v.len();
    let m: usize = if n > 0 && v[n - 1] == 13 {
        n - 1
    } else {
        n
    };
    let mut out: Vec<u8> = Vec::new();
    let mut k: usize = 0;
    while k < m
        invariant
            k <= m <= n,
            n == v@.len(),
            out@ == v@.subrange(0, k as int),
        decreases m - k,
    {
        out.push(v[k]);
        proof {
            assert(out@ =~= v@.subrange(0, k + 1));
        }
        k = k + 1;
    }
    proof {
        assert(out@ =~= spec_strip_cr(v@));
    }
    out
}

/// How the outcome of the remaining rows combines with the days already
/// built: an error wins, otherwise the models concatenate.
pub open spec fn spec_combine_rows(
    prefix: Seq<(Date, Seq<Prayer>)>,
    rest: Result<Seq<(Date, Seq<Prayer>)>, UmmahError>,
) -> Result<Seq<(Date, Seq<Prayer>)>, UmmahError> {
    match rest {
        Ok(days) => Ok(prefix + days),
        Err(e) => Err(e),
    }
}

/// Parse a whole CSV feed response into a [`Month`].
///
/// The first line is the header and is skipped; every later non-empty
/// line must hold exactly seven comma-separated fields and parse as one
/// day. The first bad row aborts the whole feed: a wrong field count is
/// a CSV error, a bad date or time field a date-time error. On success
/// the month holds one well-formed day per row, in feed order.
#[verifier::rlimit(60)]
pub fn parse_csv_file(data: &Vec<u8>, year: u32, now: &Moment) -> (r: UmmahResult<Month>)
    ensures
        (match spec_parse_csv(data@, year, *now) {
            Ok(models) => r is Ok && r->Ok_0@.map_values(|d: Day| spec_day_model(d)) == models
                && r->Ok_0.wf() && (forall|k: int|
                0 <= k < r->Ok_0@.len() ==> (#[trigger] r->Ok_0@[k]).wf()),
            Err(e) => r == Err::<Month, UmmahError>(e),
        }),
{
    let lines = split_bytes(data, 10);
    let ghost rows = spec_split(data@, 10);
    let n = lines.len();
    let mut days: Vec<Day> = Vec::new();
    let mut i: usize = 1;
    proof {
        assert(rows.skip(1) =~= rows.drop_first());
        assert(days@.map_values(|d: Day| spec_day_model(d)) =~= Seq::<(Date, Seq<Prayer>)>::empty());
    }
    while i < n
        invariant
            1 <= i <= n,
            n == rows.len(),
            n == lines@.len(),
            rows == spec_split(data@, 10),
            forall|k: int| 0 <= k < n ==> (#[trigger] lines@[k])@ == rows[k],
            forall|k: int| 0 <= k < days@.len() ==> (#[trigger] days@[k]).wf(),
            spec_parse_csv(data@, year, *now) == spec_combine_rows(
                days@.map_values(|d: Day| spec_day_model(d)),
                spec_rows_to_days(rows.skip(i as int), year, *now),
            ),
        decreases n - i,
    {
        proof {
            assert(rows.skip(i as int).drop_first() =~= rows.skip(i + 1));
            assert(rows.skip(i as int)[0] == rows[i as int]);
        }
        let line = strip_cr(&lines[i]);
        if line.len() > 0 {
            let mut fields = split_bytes(&line, 44);
            if fields.len() != 7 {
                return Err(UmmahError::Csv);
            }
            let ghost fseq = spec_split(spec_strip_cr(rows[i as int]), 44);
            let isha = fields.pop().unwrap();
            let maghrib = fields.pop().unwrap();
            let asr = fields.pop().unwrap();
            let dhuhr = fields.pop().unwrap();
            let sunrise = fields.pop().unwrap();
            let fajr = fields.pop().unwrap();
            let day_field = fields.pop().unwrap();
            proof {
                assert(day_field@ == fseq[0]);
                assert(fajr@ == fseq[1]);
                assert(sunrise@ == fseq[2]);
                assert(dhuhr@ == fseq[3]);
                assert(asr@ == fseq[4]);
                assert(maghrib@ == fseq[5]);
                assert(isha@ == fseq[6]);
            }
            let row = CSVPrayer {
                day: day_field,
                fajr,
                sunrise,
                dhuhr,
                asr,
                maghrib,
                isha,
            };
            let d = match row.build(year, now) {
                Ok(d) => d,
                Err(e) => {
                    return Err(e);
                },
            };
            let ghost prefix0 = days@.map_values(|d: Day| spec_day_model(d));
            let ghost m = spec_day_model(d);
            days.push(d);
            proof {
                assert(days@.map_values(|d: Day| spec_day_model(d)) =~= prefix0 + seq![m]);
                match spec_rows_to_days(rows.skip(i + 1), year, *now) {
                    Ok(rest) => {
                        assert((prefix0 + seq![m]) + rest =~= prefix0 + (seq![m] + rest));
                    },
                    Err(_) => {},
                }
            }
        }
        i = i + 1;
    }
    proof {
        assert(rows.skip(n as int) =~= Seq::<Seq<u8>>::empty());
    }
    Ok(Month::new(days))
}

/// A row's date column never contradicts the date built from it: when
/// the date parse succeeds, re-deriving the weekday from the resulting
/// calendar date gives back exactly the weekday abbreviation that the
/// row started with.
pub proof fn lemma_parsed_date_matches_weekday(s: Seq<u8>, year: u32)
    requires
        spec_parse_date(s, year) is Some,
    ensures
        spec_parse_date(s, year)->0.valid(),
        s.take(3) == spec_weekday_abbr(spec_weekday(spec_parse_date(s, year)->0)),
{
    let d = spec_parse_date(s, year)->0;
    let w = spec_weekday_of_abbr(s.take(3));
    assert(w is Some && spec_weekday(d) == w->0);
}

/// The canonical text of a row's date column: weekday abbreviation,
/// zero-padded day, month abbreviation.
pub open spec fn spec_format_row_date(d: Date) -> Seq<u8> {
    spec_weekday_abbr(spec_weekday(d)) + seq![32u8] + crate::text::spec_two_digit_bytes(
        d.day as nat,
    ) + seq![32u8] + spec_month_abbr(d.month as int)
}

/// Round trip of a valid row's date column: re-serializing the date a
/// zero-padded row parsed to gives back exactly the column it came from,
/// weekday abbreviation included.
pub proof fn lemma_row_date_round_trip(s: Seq<u8>, year: u32)
    requires
        spec_parse_date(s, year) is Some,
        spec_digit_run_end(s.skip(4), 0) == 2,
    ensures
        spec_format_row_date(spec_parse_date(s, year)->0) == s,
{
    reveal_with_fuel(crate::text::spec_digits_val, 4);
    let d = spec_parse_date(s, year)->0;
    lemma_parsed_date_matches_weekday(s, year);
    let rest = s.skip(4);
    crate::text::lemma_digit_run_chars(rest, 0);
    let a = spec_digit_val(rest[0]);
    let b = spec_digit_val(rest[1]);
    assert(rest.take(2).drop_last() =~= seq![rest[0]]);
    assert(seq![rest[0]].drop_last() =~= Seq::<u8>::empty());
    assert(spec_digits_val(rest.take(2)) == a * 10 + b);
    assert(d.day == a * 10 + b);
    assert(a <= 9 && b <= 9);
    assert(a == d.day as int / 10 && b == d.day as int % 10);
    assert(crate::text::spec_two_digit_bytes(d.day as nat) =~= rest.take(2));
    let mo = spec_month_of_abbr(rest.skip(3));
    assert(mo is Some && mo->0 == d.month);
    assert(rest.skip(3) == spec_month_abbr(d.month as int));
    assert(rest.len() == 6);
    assert(spec_format_row_date(d) =~= s);
}

} // verus!
