//! The cache codec: a human-readable, field-named text form for a
//! [`Month`] snapshot and for the settings fingerprint, with a proved
//! round trip.
//!
//! Each day serializes as six labelled lines (date and the five prayer
//! times); the performed flag is transient and is never written, and the
//! parser recomputes it against the injected current moment. The parser
//! is strict: it accepts exactly the canonical form the serializer
//! emits.

use crate::clock::{Moment, TimeOfDay};
use crate::csv_parser::{spec_split, split_bytes};
use crate::date::{days_in_month, spec_days_in_month, Date};
use crate::day::Day;
use crate::month::Month;
use crate::prayer::Prayer;
use crate::settings::PrayerSettings;
use crate::text::{
    lemma_dec_bytes_shape, lemma_dec_bytes_val, lemma_digit_run_of_digits, lemma_two_digit_val,
    parse_u32_at, push_two_digit, push_u32_dec, spec_dec_bytes, spec_digit_run_end,
    spec_digit_val, spec_digits_val, spec_is_digit, spec_two_digit_bytes,
};
use crate::types::{PrayerName, UmmahError, UmmahResult};
use vstd::prelude::*;
use vstd::string::StrSliceExecFns;

verus! {

/// The date and raw prayer times of one day: everything the cache
/// persists about it.
pub ghost struct DayTimes {
    pub date: Date,
    pub fajr: TimeOfDay,
    pub dhuhr: TimeOfDay,
    pub asr: TimeOfDay,
    pub maghrib: TimeOfDay,
    pub isha: TimeOfDay,
}

impl DayTimes {
    pub open spec fn valid(self) -> bool {
        self.date.valid() && self.fajr.valid() && self.dhuhr.valid() && self.asr.valid()
            && self.maghrib.valid() && self.isha.valid()
    }
}

/// The persisted content of a [`Day`].
pub open spec fn spec_day_times(d: Day) -> DayTimes {
    DayTimes {
        date: d.date,
        fajr: d.prayers@[0].time,
        dhuhr: d.prayers@[1].time,
        asr: d.prayers@[2].time,
        maghrib: d.prayers@[3].time,
        isha: d.prayers@[4].time,
    }
}

pub open spec fn spec_label_date() -> Seq<u8> {
    seq!['d' as u8, 'a' as u8, 't' as u8, 'e' as u8, ':' as u8, ' ' as u8]
}

pub open spec fn spec_label_fajr() -> Seq<u8> {
    seq!['f' as u8, 'a' as u8, 'j' as u8, 'r' as u8, ':' as u8, ' ' as u8]
}

pub open spec fn spec_label_dhuhr() -> Seq<u8> {
    seq!['d' as u8, 'h' as u8, 'u' as u8, 'h' as u8, 'r' as u8, ':' as u8, ' ' as u8]
}

pub open spec fn spec_label_asr() -> Seq<u8> {
    seq!['a' as u8, 's' as u8, 'r' as u8, ':' as u8, ' ' as u8]
}

pub open spec fn spec_label_maghrib() -> Seq<u8> {
    seq!['m' as u8, 'a' as u8, 'g' as u8, 'h' as u8, 'r' as u8, 'i' as u8, 'b' as u8, ':' as u8,
        ' ' as u8]
}

pub open spec fn spec_label_isha() -> Seq<u8> {
    seq!['i' as u8, 's' as u8, 'h' as u8, 'a' as u8, ':' as u8, ' ' as u8]
}

/// A time as `HH:MM:SS`, each part zero-padded to two digits.
pub open spec fn spec_ser_time(t: TimeOfDay) -> Seq<u8> {
    spec_two_digit_bytes(t.hour as nat) + seq![58u8] + spec_two_digit_bytes(t.minute as nat)
        + seq![58u8] + spec_two_digit_bytes(t.second as nat)
}

/// A date as `year-MM-DD`, month and day zero-padded to two digits.
pub open spec fn spec_ser_date(d: Date) -> Seq<u8> {
    spec_dec_bytes(d.year as nat) + seq![45u8] + spec_two_digit_bytes(d.month as nat) + seq![45u8]
        + spec_two_digit_bytes(d.day as nat)
}

/// One day as six labelled lines.
pub open spec fn spec_ser_day(dt: DayTimes) -> Seq<u8> {
    spec_label_date() + spec_ser_date(dt.date) + seq![10u8] + spec_label_fajr() + spec_ser_time(
        dt.fajr,
    ) + seq![10u8] + spec_label_dhuhr() + spec_ser_time(dt.dhuhr) + seq![10u8] + spec_label_asr()
        + spec_ser_time(dt.asr) + seq![10u8] + spec_label_maghrib() + spec_ser_time(dt.maghrib)
        + seq![10u8] + spec_label_isha() + spec_ser_time(dt.isha) + seq![10u8]
}

/// A month as its days, one block of six lines each, in order.
pub open spec fn spec_ser_month(dts: Seq<DayTimes>) -> Seq<u8>
    decreases dts.len(),
{
    if dts.len() == 0 {
        Seq::empty()
    } else {
        spec_ser_day(dts[0]) + spec_ser_month(dts.drop_first())
    }
}

/// Append the canonical time form to `out`.
fn push_time(out: &mut Vec<u8>, t: &TimeOfDay)
    requires
        t.valid(),
    ensures
        final(out)@ == old(out)@ + spec_ser_time(*t),
{
    push_two_digit(out, t.hour as u32);
    out.push(58);
    push_two_digit(out, t.minute as u32);
    out.push(58);
    push_two_digit(out, t.second as u32);
    proof {
        assert(out@ =~= old(out)@ + spec_ser_time(*t));
    }
}

/// Append the canonical date form to `out`.
fn push_date(out: &mut Vec<u8>, d: &Date)
    requires
        d.valid(),
    ensures
        final(out)@ == old(out)@ + spec_ser_date(*d),
{
    push_u32_dec(out, d.year);
    out.push(45);
    push_two_digit(out, d.month);
    out.push(45);
    push_two_digit(out, d.day);
    proof {
        assert(out@ =~= old(out)@ + spec_ser_date(*d));
    }
}

/// Append the exact bytes of a label.
fn push_label(out: &mut Vec<u8>, which: u8)
    requires
        which < 6,
    ensures
        final(out)@ == old(out)@ + (if which == 0 {
            spec_label_date()
        } else if which == 1 {
            spec_label_fajr()
        } else if which == 2 {
            spec_label_dhuhr()
        } else if which == 3 {
            spec_label_asr()
        } else if which == 4 {
            spec_label_maghrib()
        } else {
            spec_label_isha()
        }),
{
    let lab: Vec<u8> = match which {
        0 => vec!['d' as u8, 'a' as u8, 't' as u8, 'e' as u8, ':' as u8, ' ' as u8],
        1 => vec!['f' as u8, 'a' as u8, 'j' as u8, 'r' as u8, ':' as u8, ' ' as u8],
        2 => vec!['d' as u8, 'h' as u8, 'u' as u8, 'h' as u8, 'r' as u8, ':' as u8, ' ' as u8],
        3 => vec!['a' as u8, 's' as u8, 'r' as u8, ':' as u8, ' ' as u8],
        4 => vec![
            'm' as u8,
            'a' as u8,
            'g' as u8,
            'h' as u8,
            'r' as u8,
            'i' as u8,
            'b' as u8,
            ':' as u8,
            ' ' as u8,
        ],
        _ => vec!['i' as u8, 's' as u8, 'h' as u8, 'a' as u8, ':' as u8, ' ' as u8],
    };
    let mut k: usize = 0;
    let m = lab.len();
    while k < m
        invariant
            k <= m,
            m == lab@.len(),
            out@ == old(out)@ + lab@.take(k as int),
        decreases m - k,
    {
        out.push(lab[k]);
        proof {
            assert(out@ =~= old(out)@ + lab@.take(k + 1));
        }
        k = k + 1;
    }
    proof {
        assert(lab@.take(m as int) =~= lab@);
        if which == 0 {
            assert(lab@ =~= spec_label_date());
        } else if which == 1 {
            assert(lab@ =~= spec_label_fajr());
        } else if which == 2 {
            assert(lab@ =~= spec_label_dhuhr());
        } else if which == 3 {
            assert(lab@ =~= spec_label_asr());
        } else if which == 4 {
            assert(lab@ =~= spec_label_maghrib());
        } else {
            assert(lab@ =~= spec_label_isha());
        }
    }
}

/// Append one day's six lines to `out`.
fn push_day(out: &mut Vec<u8>, d: &Day)
    requires
        d.wf(),
    ensures
        final(out)@ == old(out)@ + spec_ser_day(spec_day_times(*d)),
{
    push_label(out, 0);
    push_date(out, &d.get_date());
    out.push(10);
    push_label(out, 1);
    push_time(out, &d.prayer_at(0).get_time());
    out.push(10);
    push_label(out, 2);
    push_time(out, &d.prayer_at(1).get_time());
    out.push(10);
    push_label(out, 3);
    push_time(out, &d.prayer_at(2).get_time());
    out.push(10);
    push_label(out, 4);
    push_time(out, &d.prayer_at(3).get_time());
    out.push(10);
    push_label(out, 5);
    push_time(out, &d.prayer_at(4).get_time());
    out.push(10);
    proof {
        assert(out@ =~= old(out)@ + spec_ser_day(spec_day_times(*d)));
    }
}

/// Serialize a whole month snapshot to its canonical text form.
///
/// The performed flags are not written: they are derived state.
pub fn serialize_month(m: &Month) -> (r: Vec<u8>)
    requires
        forall|k: int| 0 <= k < m@.len() ==> (#[trigger] m@[k]).wf(),
    ensures
        r@ == spec_ser_month(m@.map_values(|d: Day| spec_day_times(d))),
{
    let ghost models = m@.map_values(|d: Day| spec_day_times(d));
    let mut out: Vec<u8> = Vec::new();
    let n = m.len();
    let mut i: usize = 0;
    proof {
        assert(models.skip(0) =~= models);
        assert(out@ =~= Seq::<u8>::empty() + Seq::<u8>::empty());
        lemma_ser_month_split(models, 0);
    }
    while i < n
        invariant
            i <= n,
            n == m@.len(),
            models == m@.map_values(|d: Day| spec_day_times(d)),
            forall|k: int| 0 <= k < m@.len() ==> (#[trigger] m@[k]).wf(),
            out@ == spec_ser_month(models.take(i as int)),
        decreases n - i,
    {
        push_day(&mut out, m.day_at(i));
        proof {
            lemma_ser_month_take_step(models, i as int);
        }
        i = i + 1;
    }
    proof {
        assert(models.take(n as int) =~= models);
    }
    out
}

/// Serialization distributes over concatenation of day sequences.
#[verifier::spinoff_prover]
#[verifier::rlimit(100)]
proof fn lemma_ser_month_append(a: Seq<DayTimes>, b: Seq<DayTimes>)
    ensures
        spec_ser_month(a + b) == spec_ser_month(a) + spec_ser_month(b),
    decreases a.len(),
{
    if a.len() == 0 {
        assert(a + b =~= b);
        assert(spec_ser_month(a) + spec_ser_month(b) =~= spec_ser_month(b));
    } else {
        lemma_ser_month_append(a.drop_first(), b);
        assert((a + b).drop_first() =~= a.drop_first() + b);
        assert((a + b)[0] == a[0]);
        assert(spec_ser_day(a[0]) + (spec_ser_month(a.drop_first()) + spec_ser_month(b)) =~= (
        spec_ser_day(a[0]) + spec_ser_month(a.drop_first())) + spec_ser_month(b));
    }
}

/// Serializing one more day appends its block.
proof fn lemma_ser_month_take_step(dts: Seq<DayTimes>, i: int)
    requires
        0 <= i < dts.len(),
    ensures
        spec_ser_month(dts.take(i + 1)) == spec_ser_month(dts.take(i)) + spec_ser_day(dts[i]),
{
    assert(dts.take(i + 1) =~= dts.take(i) + seq![dts[i]]);
    lemma_ser_month_append(dts.take(i), seq![dts[i]]);
    assert(seq![dts[i]].drop_first() =~= Seq::<DayTimes>::empty());
    assert(spec_ser_month(seq![dts[i]]) =~= spec_ser_day(dts[i])) by {
        reveal_with_fuel(spec_ser_month, 3);
        assert(spec_ser_month(Seq::<DayTimes>::empty()) =~= Seq::<u8>::empty());
        assert(spec_ser_day(dts[i]) + Seq::<u8>::empty() =~= spec_ser_day(dts[i]));
    }
}

/// Helper for loop entry: an empty prefix serializes to nothing.
proof fn lemma_ser_month_split(dts: Seq<DayTimes>, i: int)
    requires
        0 <= i <= dts.len(),
    ensures
        spec_ser_month(dts.take(0)) == Seq::<u8>::empty(),
{
    assert(dts.take(0) =~= Seq::<DayTimes>::empty());
}

/// The label of each of the six lines of a day block.
pub open spec fn spec_label(which: int) -> Seq<u8> {
    if which == 0 {
        spec_label_date()
    } else if which == 1 {
        spec_label_fajr()
    } else if which == 2 {
        spec_label_dhuhr()
    } else if which == 3 {
        spec_label_asr()
    } else if which == 4 {
        spec_label_maghrib()
    } else {
        spec_label_isha()
    }
}

/// Strict inverse of [`spec_ser_time`]: exactly `HH:MM:SS` with the
/// parts in range.
pub open spec fn spec_parse_ser_time(s: Seq<u8>) -> Option<TimeOfDay> {
    if s.len() == 8 && spec_is_digit(s[0]) && spec_is_digit(s[1]) && s[2] == 58 && spec_is_digit(
        s[3],
    ) && spec_is_digit(s[4]) && s[5] == 58 && spec_is_digit(s[6]) && spec_is_digit(s[7]) {
        let h = spec_digit_val(s[0]) * 10 + spec_digit_val(s[1]);
        let m = spec_digit_val(s[3]) * 10 + spec_digit_val(s[4]);
        let sec = spec_digit_val(s[6]) * 10 + spec_digit_val(s[7]);
        if h < 24 && m < 60 && sec < 60 {
            Some(TimeOfDay { hour: h as u8, minute: m as u8, second: sec as u8 })
        } else {
            None
        }
    } else {
        None
    }
}

/// Strict inverse of [`spec_ser_date`]: a year (at most ten digits,
/// fitting a `u32`), then zero-padded month and day naming a real
/// calendar date.
pub open spec fn spec_parse_ser_date(s: Seq<u8>) -> Option<Date> {
    let e = spec_digit_run_end(s, 0);
    if e < 1 || e > 10 || spec_digits_val(s.take(e)) > u32::MAX {
        None
    } else if s.len() == e + 6 && s[e] == 45 && spec_is_digit(s[e + 1]) && spec_is_digit(s[e + 2])
        && s[e + 3] == 45 && spec_is_digit(s[e + 4]) && spec_is_digit(s[e + 5]) {
        let year = spec_digits_val(s.take(e));
        let month = spec_digit_val(s[e + 1]) * 10 + spec_digit_val(s[e + 2]);
        let day = spec_digit_val(s[e + 4]) * 10 + spec_digit_val(s[e + 5]);
        if 1 <= year && 1 <= month <= 12 && 1 <= day && day <= spec_days_in_month(
            year as int,
            month as int,
        ) {
            Some(Date { year: year as u32, month: month as u32, day: day as u32 })
        } else {
            None
        }
    } else {
        None
    }
}

/// One labelled date line.
pub open spec fn spec_parse_date_line(l: Seq<u8>) -> Option<Date> {
    if l.len() >= 6 && l.take(6) == spec_label_date() {
        spec_parse_ser_date(l.skip(6))
    } else {
        None
    }
}

/// One labelled time line.
pub open spec fn spec_parse_time_line(l: Seq<u8>, which: int) -> Option<TimeOfDay> {
    let lab = spec_label(which);
    if l.len() >= lab.len() && l.take(lab.len() as int) == lab {
        spec_parse_ser_time(l.skip(lab.len() as int))
    } else {
        None
    }
}

/// The whole snapshot, line by line: six lines per day, nothing else.
pub open spec fn spec_parse_month_lines(lines: Seq<Seq<u8>>) -> Option<Seq<DayTimes>>
    decreases lines.len(),
{
    if lines.len() == 0 {
        Some(Seq::empty())
    } else if lines.len() < 6 {
        None
    } else {
        let date = spec_parse_date_line(lines[0]);
        let fajr = spec_parse_time_line(lines[1], 1);
        let dhuhr = spec_parse_time_line(lines[2], 2);
        let asr = spec_parse_time_line(lines[3], 3);
        let maghrib = spec_parse_time_line(lines[4], 4);
        let isha = spec_parse_time_line(lines[5], 5);
        if date is Some && fajr is Some && dhuhr is Some && asr is Some && maghrib is Some
            && isha is Some {
            match spec_parse_month_lines(lines.skip(6)) {
                Some(rest) => Some(
                    seq![
                        DayTimes {
                            date: date->0,
                            fajr: fajr->0,
                            dhuhr: dhuhr->0,
                            asr: asr->0,
                            maghrib: maghrib->0,
                            isha: isha->0,
                        },
                    ] + rest,
                ),
                None => None,
            }
        } else {
            None
        }
    }
}

/// What a snapshot file means: its lines (one trailing empty line from
/// the final newline allowed), six per day.
pub open spec fn spec_parse_month(data: Seq<u8>) -> Option<Seq<DayTimes>> {
    let lines = spec_split(data, 10);
    let body = if lines.len() > 0 && lines.last().len() == 0 {
        lines.drop_last()
    } else {
        lines
    };
    spec_parse_month_lines(body)
}

/// Parse one labelled date line.
fn parse_date_line(l: &Vec<u8>) -> (r: Option<Date>)
    ensures
        (match spec_parse_date_line(l@) {
            Some(d) => r == Some(d) && d.valid(),
            None => r is None,
        }),
{
    let mut lab: Vec<u8> = Vec::new();
    push_label(&mut lab, 0);
    if crate::text::expect_bytes(l, 0, &lab).is_none() {
        proof {
            if l@.len() >= 6 {
                assert(l@.subrange(0, 6) =~= l@.take(6));
            }
        }
        return None;
    }
    proof {
        assert(l@.subrange(0, 6) =~= l@.take(6));
        crate::csv_parser::lemma_run_shift_pub(l@, 6, 0);
        crate::text::lemma_digit_run_chars(l@, 6);
    }
    let (year, j) = match parse_u32_at(l, 6) {
        Some(p) => p,
        None => {
            proof {
                let rest = l@.skip(6);
                let e = spec_digit_run_end(rest, 0);
                crate::text::lemma_digit_run_chars(rest, 0);
                assert(rest.take(e) =~= l@.subrange(6, 6 + e));
                assert(l@.subrange(6, 6 + e) =~= l@.subrange(6, spec_digit_run_end(l@, 6)));
            }
            return None;
        },
    };
    proof {
        let rest = l@.skip(6);
        let e = spec_digit_run_end(rest, 0);
        assert(rest.take(e) =~= l@.subrange(6, j as int));
    }
    let n = l.len();
    if j > n - 6 || n != j + 6 {
        return None;
    }
    let (b1, b2, b3, b4, b5, b6) = (l[j], l[j + 1], l[j + 2], l[j + 3], l[j + 4], l[j + 5]);
    if !(b1 == 45 && b2 >= 48 && b2 <= 57 && b3 >= 48 && b3 <= 57 && b4 == 45 && b5 >= 48 && b5
        <= 57 && b6 >= 48 && b6 <= 57) {
        return None;
    }
    let month = ((b2 - 48) * 10 + (b3 - 48)) as u32;
    let day = ((b5 - 48) * 10 + (b6 - 48)) as u32;
    if !(year >= 1 && month >= 1 && month <= 12 && day >= 1 && day <= days_in_month(year, month)) {
        return None;
    }
    Some(Date { year, month, day })
}

/// Parse one labelled time line (`which` picks the prayer label).
fn parse_time_line(l: &Vec<u8>, which: u8) -> (r: Option<TimeOfDay>)
    requires
        1 <= which < 6,
    ensures
        (match spec_parse_time_line(l@, which as int) {
            Some(t) => r == Some(t) && t.valid(),
            None => r is None,
        }),
{
    let mut lab: Vec<u8> = Vec::new();
    push_label(&mut lab, which);
    let m = lab.len();
    let j0 = match crate::text::expect_bytes(l, 0, &lab) {
        Some(j) => j,
        None => {
            proof {
                if l@.len() >= lab@.len() {
                    assert(l@.subrange(0, lab@.len() as int) =~= l@.take(lab@.len() as int));
                }
            }
            return None;
        },
    };
    proof {
        assert(l@.subrange(0, lab@.len() as int) =~= l@.take(lab@.len() as int));
        assert(forall|k: int| 0 <= k < l@.len() - m ==> l@.skip(m as int)[k] == l@[m + k]);
    }
    let n = l.len();
    if n != j0 + 8 {
        return None;
    }
    let (b0, b1, b2, b3, b4, b5, b6, b7) = (
        l[j0],
        l[j0 + 1],
        l[j0 + 2],
        l[j0 + 3],
        l[j0 + 4],
        l[j0 + 5],
        l[j0 + 6],
        l[j0 + 7],
    );
    if !(b0 >= 48 && b0 <= 57 && b1 >= 48 && b1 <= 57 && b2 == 58 && b3 >= 48 && b3 <= 57 && b4
        >= 48 && b4 <= 57 && b5 == 58 && b6 >= 48 && b6 <= 57 && b7 >= 48 && b7 <= 57) {
        return None;
    }
    let h = (b0 - 48) * 10 + (b1 - 48);
    let mi = (b3 - 48) * 10 + (b4 - 48);
    let sec = (b6 - 48) * 10 + (b7 - 48);
    if !(h < 24 && mi < 60 && sec < 60) {
        return None;
    }
    Some(TimeOfDay { hour: h, minute: mi, second: sec })
}

/// How the remaining lines' outcome combines with the days already
/// rebuilt: a failure anywhere fails the whole load.
pub open spec fn spec_combine_days(
    prefix: Seq<DayTimes>,
    rest: Option<Seq<DayTimes>>,
) -> Option<Seq<DayTimes>> {
    match rest {
        Some(days) => Some(prefix + days),
        None => None,
    }
}

/// Parse a snapshot back into a [`Month`], recomputing every prayer's
/// performed flag against the injected current moment.
///
/// Fails with a serde error exactly when the text is not a canonical
/// snapshot; the caller treats that as a cache miss, never as fatal.
#[verifier::rlimit(60)]
pub fn parse_month(data: &Vec<u8>, now: &Moment) -> (r: UmmahResult<Month>)
    ensures
        (match spec_parse_month(data@) {
            Some(models) => r is Ok && r->Ok_0@.map_values(|d: Day| spec_day_times(d)) == models
                && r->Ok_0.wf() && (forall|k: int|
                0 <= k < r->Ok_0@.len() ==> (#[trigger] r->Ok_0@[k]).wf()) && (forall|k: int|
                0 <= k < r->Ok_0@.len() ==> (#[trigger] r->Ok_0@[k]).prayers@
                    == crate::csv_parser::spec_built_prayers(
                    models[k].date,
                    models[k].fajr,
                    models[k].dhuhr,
                    models[k].asr,
                    models[k].maghrib,
                    models[k].isha,
                    *now,
                )),
            None => r == Err::<Month, UmmahError>(UmmahError::Serde),
        }),
{
    let lines = split_bytes(data, 10);
    let mut n = lines.len();
    if n > 0 && lines[n - 1].len() == 0 {
        n = n - 1;
    }
    let ghost body = ({
        let ls = spec_split(data@, 10);
        if ls.len() > 0 && ls.last().len() == 0 {
            ls.drop_last()
        } else {
            ls
        }
    });
    proof {
        assert(body.len() == n);
        assert(forall|k: int| 0 <= k < n ==> (#[trigger] lines@[k])@ == body[k]);
        assert(body.skip(0) =~= body);
        assert(Seq::<DayTimes>::empty() + spec_parse_month_lines(body)->0 =~= spec_parse_month_lines(
            body,
        )->0);
    }
    let mut days: Vec<Day> = Vec::new();
    let mut i: usize = 0;
    while n - i >= 6
        invariant
            0 <= i <= n,
            i % 6 == 0,
            n <= lines@.len(),
            n == body.len(),
            body == ({
                let ls = spec_split(data@, 10);
                if ls.len() > 0 && ls.last().len() == 0 {
                    ls.drop_last()
                } else {
                    ls
                }
            }),
            forall|k: int| 0 <= k < n ==> (#[trigger] lines@[k])@ == body[k],
            forall|k: int| 0 <= k < days@.len() ==> (#[trigger] days@[k]).wf(),
            days@.len() * 6 == i,
            spec_parse_month_lines(body) == spec_combine_days(
                days@.map_values(|d: Day| spec_day_times(d)),
                spec_parse_month_lines(body.skip(i as int)),
            ),
            forall|k: int|
                0 <= k < days@.len() ==> (#[trigger] days@[k]).prayers@
                    == crate::csv_parser::spec_built_prayers(
                    spec_day_times(days@[k]).date,
                    spec_day_times(days@[k]).fajr,
                    spec_day_times(days@[k]).dhuhr,
                    spec_day_times(days@[k]).asr,
                    spec_day_times(days@[k]).maghrib,
                    spec_day_times(days@[k]).isha,
                    *now,
                ),
        decreases n - i,
    {
        proof {
            assert(body.skip(i as int).skip(6) =~= body.skip(i + 6));
            assert(forall|k: int|
                0 <= k < 6 ==> body.skip(i as int)[k] == body[i + k]);
        }
        let date = match parse_date_line(&lines[i]) {
            Some(d) => d,
            None => {
                proof {
                    assert(spec_parse_date_line(body.skip(i as int)[0]) is None);
                    assert(spec_parse_month_lines(body.skip(i as int)) is None);
                    assert(spec_parse_month_lines(body) is None);
                    assert(spec_parse_month(data@) is None);
                }
                return Err(UmmahError::Serde);
            },
        };
        let fajr = match parse_time_line(&lines[i + 1], 1) {
            Some(t) => t,
            None => {
                proof {
                    assert(spec_parse_time_line(body.skip(i as int)[1], 1) is None);
                    assert(spec_parse_month_lines(body.skip(i as int)) is None);
                }
                return Err(UmmahError::Serde);
            },
        };
        let dhuhr = match parse_time_line(&lines[i + 2], 2) {
            Some(t) => t,
            None => {
                proof {
                    assert(spec_parse_time_line(body.skip(i as int)[2], 2) is None);
                    assert(spec_parse_month_lines(body.skip(i as int)) is None);
                }
                return Err(UmmahError::Serde);
            },
        };
        let asr = match parse_time_line(&lines[i + 3], 3) {
            Some(t) => t,
            None => {
                proof {
                    assert(spec_parse_time_line(body.skip(i as int)[3], 3) is None);
                    assert(spec_parse_month_lines(body.skip(i as int)) is None);
                }
                return Err(UmmahError::Serde);
            },
        };
        let maghrib = match parse_time_line(&lines[i + 4], 4) {
            Some(t) => t,
            None => {
                proof {
                    assert(spec_parse_time_line(body.skip(i as int)[4], 4) is None);
                    assert(spec_parse_month_lines(body.skip(i as int)) is None);
                }
                return Err(UmmahError::Serde);
            },
        };
        let isha = match parse_time_line(&lines[i + 5], 5) {
            Some(t) => t,
            None => {
                proof {
                    assert(spec_parse_time_line(body.skip(i as int)[5], 5) is None);
                    assert(spec_parse_month_lines(body.skip(i as int)) is None);
                }
                return Err(UmmahError::Serde);
            },
        };
        let prayers: [Prayer; 5] = [
            Prayer::new(
                PrayerName::Fajr,
                fajr,
                crate::clock::get_performed_status(now, &date, &fajr),
            ),
            Prayer::new(
                PrayerName::Dhuhr,
                dhuhr,
                crate::clock::get_performed_status(now, &date, &dhuhr),
            ),
            Prayer::new(
                PrayerName::Asr,
                asr,
                crate::clock::get_performed_status(now, &date, &asr),
            ),
            Prayer::new(
                PrayerName::Maghrib,
                maghrib,
                crate::clock::get_performed_status(now, &date, &maghrib),
            ),
            Prayer::new(
                PrayerName::Isha,
                isha,
                crate::clock::get_performed_status(now, &date, &isha),
            ),
        ];
        let d = Day::new(date, prayers);
        let ghost prefix0 = days@.map_values(|d: Day| spec_day_times(d));
        let ghost m = spec_day_times(d);
        proof {
            assert(d.prayers@ =~= crate::csv_parser::spec_built_prayers(
                date,
                fajr,
                dhuhr,
                asr,
                maghrib,
                isha,
                *now,
            ));
        }
        days.push(d);
        proof {
            assert(days@.map_values(|d: Day| spec_day_times(d)) =~= prefix0 + seq![m]);
            match spec_parse_month_lines(body.skip(i + 6)) {
                Some(rest) => {
                    assert((prefix0 + seq![m]) + rest =~= prefix0 + (seq![m] + rest));
                },
                None => {},
            }
        }
        i = i + 6;
    }
    if i != n {
        proof {
            assert(0 < body.skip(i as int).len() < 6);
        }
        return Err(UmmahError::Serde);
    }
    proof {
        assert(body.skip(n as int) =~= Seq::<Seq<u8>>::empty());
    }
    Ok(Month::new(days))
}

/// Splitting at the first line boundary peels off the first line.
proof fn lemma_split_first_line(a: Seq<u8>, b: Seq<u8>)
    requires
        forall|k: int| 0 <= k < a.len() ==> a[k] != 10,
    ensures
        spec_split(a + seq![10u8] + b, 10) == seq![a] + spec_split(b, 10),
{
    let s = a + seq![10u8] + b;
    assert(s[a.len() as int] == 10);
    assert(forall|k: int| 0 <= k < a.len() ==> s[k] == a[k] && s[k] != 10);
    crate::csv_parser::lemma_find_exact_pub(s, 10, a.len() as int);
    assert(s.take(a.len() as int) =~= a);
    assert(s.skip(a.len() as int + 1) =~= b);
}

/// No byte of a serialized date is a newline.
proof fn lemma_ser_date_no_nl(d: Date)
    requires
        d.valid(),
    ensures
        forall|k: int| 0 <= k < spec_ser_date(d).len() ==> (#[trigger] spec_ser_date(d)[k]) != 10,
{
    let y = spec_dec_bytes(d.year as nat);
    lemma_dec_bytes_shape(d.year as nat);
    let s = spec_ser_date(d);
    assert forall|k: int| 0 <= k < s.len() implies (#[trigger] s[k]) != 10 by {
        if k < y.len() {
            assert(s[k] == y[k]);
            assert(spec_is_digit(y[k]));
        } else {
            assert(k - y.len() < 6);
        }
    }
}

/// No byte of a serialized time is a newline.
proof fn lemma_ser_time_no_nl(t: TimeOfDay)
    requires
        t.valid(),
    ensures
        forall|k: int| 0 <= k < spec_ser_time(t).len() ==> (#[trigger] spec_ser_time(t)[k]) != 10,
        spec_ser_time(t).len() == 8,
{
    let s = spec_ser_time(t);
    assert forall|k: int| 0 <= k < s.len() implies (#[trigger] s[k]) != 10 by {
        assert(0 <= k < 8);
    }
}

/// No byte of a label is a newline.
proof fn lemma_label_no_nl(which: int)
    requires
        0 <= which < 6,
    ensures
        forall|k: int|
            0 <= k < spec_label(which).len() ==> (#[trigger] spec_label(which)[k]) != 10,
{
}

/// A serialized, labelled date line reads back as the date it came from.
proof fn lemma_date_line_rt(d: Date)
    requires
        d.valid(),
    ensures
        spec_parse_date_line(spec_label_date() + spec_ser_date(d)) == Some(d),
{
    let l = spec_label_date() + spec_ser_date(d);
    let p = spec_ser_date(d);
    assert(l.take(6) =~= spec_label_date());
    assert(l.skip(6) =~= p);
    let y = spec_dec_bytes(d.year as nat);
    lemma_dec_bytes_shape(d.year as nat);
    lemma_dec_bytes_val(d.year as nat);
    lemma_two_digit_val(d.month as nat);
    lemma_two_digit_val(d.day as nat);
    let e = y.len() as int;
    assert(forall|k: int| 0 <= k < e ==> spec_is_digit(#[trigger] p[k]));
    assert(p[e] == 45);
    assert(!spec_is_digit(p[e]));
    lemma_digit_run_of_digits(p, 0, e);
    assert(p.take(e) =~= y);
    assert(p.len() == e + 6);
    assert(p[e + 1] == spec_two_digit_bytes(d.month as nat)[0]);
    assert(p[e + 2] == spec_two_digit_bytes(d.month as nat)[1]);
    assert(p[e + 4] == spec_two_digit_bytes(d.day as nat)[0]);
    assert(p[e + 5] == spec_two_digit_bytes(d.day as nat)[1]);
    assert(spec_digit_val(p[e + 1]) * 10 + spec_digit_val(p[e + 2]) == d.month as nat);
    assert(spec_digit_val(p[e + 4]) * 10 + spec_digit_val(p[e + 5]) == d.day as nat);
    assert(spec_parse_ser_date(p) == Some(d));
}

/// A serialized, labelled time line reads back as the time it came from.
proof fn lemma_time_line_rt(t: TimeOfDay, which: int)
    requires
        t.valid(),
        1 <= which < 6,
    ensures
        spec_parse_time_line(spec_label(which) + spec_ser_time(t), which) == Some(t),
{
    let lab = spec_label(which);
    let l = lab + spec_ser_time(t);
    let p = spec_ser_time(t);
    assert(l.take(lab.len() as int) =~= lab);
    assert(l.skip(lab.len() as int) =~= p);
    lemma_two_digit_val(t.hour as nat);
    lemma_two_digit_val(t.minute as nat);
    lemma_two_digit_val(t.second as nat);
    assert(p.len() == 8);
    assert(p[0] == spec_two_digit_bytes(t.hour as nat)[0]);
    assert(p[1] == spec_two_digit_bytes(t.hour as nat)[1]);
    assert(p[2] == 58);
    assert(p[3] == spec_two_digit_bytes(t.minute as nat)[0]);
    assert(p[4] == spec_two_digit_bytes(t.minute as nat)[1]);
    assert(p[5] == 58);
    assert(p[6] == spec_two_digit_bytes(t.second as nat)[0]);
    assert(p[7] == spec_two_digit_bytes(t.second as nat)[1]);
    assert(spec_digit_val(p[0]) * 10 + spec_digit_val(p[1]) == t.hour as nat);
    assert(spec_digit_val(p[3]) * 10 + spec_digit_val(p[4]) == t.minute as nat);
    assert(spec_digit_val(p[6]) * 10 + spec_digit_val(p[7]) == t.second as nat);
    assert(spec_parse_ser_time(p) == Some(t));
}

/// The six lines of one serialized day, in order.
pub open spec fn spec_day_lines_of(dt: DayTimes) -> Seq<Seq<u8>> {
    seq![
        spec_label_date() + spec_ser_date(dt.date),
        spec_label_fajr() + spec_ser_time(dt.fajr),
        spec_label_dhuhr() + spec_ser_time(dt.dhuhr),
        spec_label_asr() + spec_ser_time(dt.asr),
        spec_label_maghrib() + spec_ser_time(dt.maghrib),
        spec_label_isha() + spec_ser_time(dt.isha),
    ]
}

/// The lines of a whole serialized month, six per day.
pub open spec fn spec_month_lines_of(dts: Seq<DayTimes>) -> Seq<Seq<u8>>
    decreases dts.len(),
{
    if dts.len() == 0 {
        Seq::empty()
    } else {
        spec_day_lines_of(dts[0]) + spec_month_lines_of(dts.drop_first())
    }
}

/// One line, its newline, and the rest: peeling a labelled line.
proof fn lemma_peel_line(lab: int, payload: Seq<u8>, rest: Seq<u8>)
    requires
        0 <= lab < 6,
        forall|k: int| 0 <= k < payload.len() ==> payload[k] != 10,
    ensures
        spec_split(spec_label(lab) + payload + seq![10u8] + rest, 10) == seq![
            spec_label(lab) + payload,
        ] + spec_split(rest, 10),
{
    lemma_label_no_nl(lab);
    let line = spec_label(lab) + payload;
    assert(forall|k: int| 0 <= k < line.len() ==> line[k] != 10);
    assert(spec_label(lab) + payload + seq![10u8] + rest =~= line + seq![10u8] + rest);
    lemma_split_first_line(line, rest);
}

/// Splitting a serialized month yields its lines plus one final empty
/// piece from the trailing newline.
#[verifier::spinoff_prover]
#[verifier::rlimit(100)]
proof fn lemma_split_ser_month(dts: Seq<DayTimes>)
    requires
        forall|k: int| 0 <= k < dts.len() ==> (#[trigger] dts[k]).valid(),
    ensures
        spec_split(spec_ser_month(dts), 10) == spec_month_lines_of(dts) + seq![Seq::<u8>::empty()],
    decreases dts.len(),
{
    if dts.len() == 0 {
        assert(spec_ser_month(dts) =~= Seq::<u8>::empty());
        assert(spec_split(Seq::<u8>::empty(), 10) =~= seq![Seq::<u8>::empty()]);
        assert(spec_month_lines_of(dts) + seq![Seq::<u8>::empty()] =~= seq![Seq::<u8>::empty()]);
    } else {
        let d = dts[0];
        assert(d.valid());
        lemma_split_ser_month(dts.drop_first());
        lemma_ser_date_no_nl(d.date);
        lemma_ser_time_no_nl(d.fajr);
        lemma_ser_time_no_nl(d.dhuhr);
        lemma_ser_time_no_nl(d.asr);
        lemma_ser_time_no_nl(d.maghrib);
        lemma_ser_time_no_nl(d.isha);
        let rest = spec_ser_month(dts.drop_first());
        let r5 = spec_label_isha() + spec_ser_time(d.isha) + seq![10u8] + rest;
        let r4 = spec_label_maghrib() + spec_ser_time(d.maghrib) + seq![10u8] + r5;
        let r3 = spec_label_asr() + spec_ser_time(d.asr) + seq![10u8] + r4;
        let r2 = spec_label_dhuhr() + spec_ser_time(d.dhuhr) + seq![10u8] + r3;
        let r1 = spec_label_fajr() + spec_ser_time(d.fajr) + seq![10u8] + r2;
        let r0 = spec_label_date() + spec_ser_date(d.date) + seq![10u8] + r1;
        assert(spec_ser_month(dts) =~= r0);
        lemma_peel_line(0, spec_ser_date(d.date), r1);
        lemma_peel_line(1, spec_ser_time(d.fajr), r2);
        lemma_peel_line(2, spec_ser_time(d.dhuhr), r3);
        lemma_peel_line(3, spec_ser_time(d.asr), r4);
        lemma_peel_line(4, spec_ser_time(d.maghrib), r5);
        lemma_peel_line(5, spec_ser_time(d.isha), rest);
        assert(spec_split(spec_ser_month(dts), 10) =~= spec_month_lines_of(dts) + seq![
            Seq::<u8>::empty(),
        ]);
    }
}

/// The lines of a serialized month parse back to exactly its days.
#[verifier::spinoff_prover]
#[verifier::rlimit(100)]
proof fn lemma_parse_month_lines_rt(dts: Seq<DayTimes>)
    requires
        forall|k: int| 0 <= k < dts.len() ==> (#[trigger] dts[k]).valid(),
    ensures
        spec_parse_month_lines(spec_month_lines_of(dts)) == Some(dts),
    decreases dts.len(),
{
    if dts.len() == 0 {
        assert(spec_month_lines_of(dts) =~= Seq::<Seq<u8>>::empty());
        assert(Seq::<DayTimes>::empty() =~= dts);
    } else {
        let d = dts[0];
        lemma_parse_month_lines_rt(dts.drop_first());
        let lines = spec_month_lines_of(dts);
        assert(lines.len() == 6 + spec_month_lines_of(dts.drop_first()).len()) by {
            lemma_month_lines_len(dts);
        }
        assert(lines[0] == spec_label_date() + spec_ser_date(d.date));
        assert(lines[1] == spec_label_fajr() + spec_ser_time(d.fajr));
        assert(lines[2] == spec_label_dhuhr() + spec_ser_time(d.dhuhr));
        assert(lines[3] == spec_label_asr() + spec_ser_time(d.asr));
        assert(lines[4] == spec_label_maghrib() + spec_ser_time(d.maghrib));
        assert(lines[5] == spec_label_isha() + spec_ser_time(d.isha));
        lemma_date_line_rt(d.date);
        lemma_time_line_rt(d.fajr, 1);
        lemma_time_line_rt(d.dhuhr, 2);
        lemma_time_line_rt(d.asr, 3);
        lemma_time_line_rt(d.maghrib, 4);
        lemma_time_line_rt(d.isha, 5);
        assert(lines.skip(6) =~= spec_month_lines_of(dts.drop_first()));
        assert(seq![d] + dts.drop_first() =~= dts);
    }
}

/// The line count of a serialized month.
proof fn lemma_month_lines_len(dts: Seq<DayTimes>)
    requires
        dts.len() > 0,
    ensures
        spec_month_lines_of(dts).len() == 6 + spec_month_lines_of(dts.drop_first()).len(),
{
}

/// Round trip: a serialized month snapshot parses back to exactly the
/// dates and raw prayer times it was written from. The performed flags
/// are outside the statement: they are recomputed on load, never stored.
pub proof fn lemma_month_round_trip(dts: Seq<DayTimes>)
    requires
        forall|k: int| 0 <= k < dts.len() ==> (#[trigger] dts[k]).valid(),
    ensures
        spec_parse_month(spec_ser_month(dts)) == Some(dts),
{
    lemma_split_ser_month(dts);
    let lines = spec_split(spec_ser_month(dts), 10);
    assert(lines.last().len() == 0);
    assert(lines.drop_last() =~= spec_month_lines_of(dts));
    lemma_parse_month_lines_rt(dts);
}

/// A character sequence as decimal code points, one per character, each
/// followed by a space: a text form that any location string fits.
pub open spec fn spec_ser_chars(cs: Seq<char>) -> Seq<u8>
    decreases cs.len(),
{
    if cs.len() == 0 {
        Seq::empty()
    } else {
        spec_ser_chars(cs.drop_last()) + spec_dec_bytes(cs.last() as nat) + seq![32u8]
    }
}

/// Append the code-point form of a string to `out`.
fn push_chars(out: &mut Vec<u8>, s: &str)
    ensures
        final(out)@ == old(out)@ + spec_ser_chars(s@),
{
    let n = s.unicode_len();
    let mut i: usize = 0;
    proof {
        assert(s@.take(0) =~= Seq::<char>::empty());
        assert(out@ =~= old(out)@ + spec_ser_chars(s@.take(0)));
    }
    while i < n
        invariant
            i <= n,
            n == s@.len(),
            out@ == old(out)@ + spec_ser_chars(s@.take(i as int)),
        decreases n - i,
    {
        let c = s.get_char(i);
        push_u32_dec(out, c as u32);
        out.push(32);
        proof {
            assert(s@.take(i + 1).drop_last() =~= s@.take(i as int));
            assert(s@.take(i + 1).last() == s@[i as int]);
            assert(out@ =~= old(out)@ + spec_ser_chars(s@.take(i + 1)));
        }
        i = i + 1;
    }
    proof {
        assert(s@.take(n as int) =~= s@);
    }
}

pub open spec fn spec_label_methods() -> Seq<u8> {
    seq!['m' as u8, 'e' as u8, 't' as u8, 'h' as u8, 'o' as u8, 'd' as u8, 's' as u8, ':' as u8,
        ' ' as u8]
}

pub open spec fn spec_label_country() -> Seq<u8> {
    seq!['c' as u8, 'o' as u8, 'u' as u8, 'n' as u8, 't' as u8, 'r' as u8, 'y' as u8, ':' as u8,
        ' ' as u8]
}

pub open spec fn spec_label_city() -> Seq<u8> {
    seq!['c' as u8, 'i' as u8, 't' as u8, 'y' as u8, ':' as u8, ' ' as u8]
}

pub open spec fn spec_label_audio() -> Seq<u8> {
    seq!['a' as u8, 'u' as u8, 'd' as u8, 'i' as u8, 'o' as u8, ':' as u8, ' ' as u8]
}

pub open spec fn spec_label_month() -> Seq<u8> {
    seq!['m' as u8, 'o' as u8, 'n' as u8, 't' as u8, 'h' as u8, ':' as u8, ' ' as u8]
}

/// The canonical settings-fingerprint text: every field of the settings,
/// labelled, one per line. Equality of fingerprints is equality of
/// settings, the audio-downloaded flag and the month included.
pub open spec fn spec_ser_settings(s: PrayerSettings) -> Seq<u8> {
    spec_label_methods() + spec_dec_bytes(s.methods.latitude.spec_code() as nat) + seq![32u8]
        + spec_dec_bytes(s.methods.organisation.spec_code() as nat) + seq![32u8] + spec_dec_bytes(
        s.methods.asr.spec_code() as nat,
    ) + seq![10u8] + spec_label_country() + spec_ser_chars(s.location.country@) + seq![10u8]
        + spec_label_city() + spec_ser_chars(s.location.city@) + seq![10u8] + spec_label_audio()
        + seq![
        if s.is_audio_downloaded {
            49u8
        } else {
            48u8
        },
    ] + seq![10u8] + spec_label_month() + spec_dec_bytes(s.current_month as nat) + seq![10u8]
}

/// Append the exact bytes of a settings-file label.
fn push_settings_label(out: &mut Vec<u8>, which: u8)
    requires
        which < 5,
    ensures
        final(out)@ == old(out)@ + (if which == 0 {
            spec_label_methods()
        } else if which == 1 {
            spec_label_country()
        } else if which == 2 {
            spec_label_city()
        } else if which == 3 {
            spec_label_audio()
        } else {
            spec_label_month()
        }),
{
    let lab: Vec<u8> = match which {
        0 => vec![
            'm' as u8,
            'e' as u8,
            't' as u8,
            'h' as u8,
            'o' as u8,
            'd' as u8,
            's' as u8,
            ':' as u8,
            ' ' as u8,
        ],
        1 => vec![
            'c' as u8,
            'o' as u8,
            'u' as u8,
            'n' as u8,
            't' as u8,
            'r' as u8,
            'y' as u8,
            ':' as u8,
            ' ' as u8,
        ],
        2 => vec!['c' as u8, 'i' as u8, 't' as u8, 'y' as u8, ':' as u8, ' ' as u8],
        3 => vec!['a' as u8, 'u' as u8, 'd' as u8, 'i' as u8, 'o' as u8, ':' as u8, ' ' as u8],
        _ => vec!['m' as u8, 'o' as u8, 'n' as u8, 't' as u8, 'h' as u8, ':' as u8, ' ' as u8],
    };
    let m = lab.len();
    let mut k: usize = 0;
    while k < m
        invariant
            k <= m,
            m == lab@.len(),
            out@ == old(out)@ + lab@.take(k as int),
        decreases m - k,
    {
        out.push(lab[k]);
        proof {
            assert(out@ =~= old(out)@ + lab@.take(k + 1));
        }
        k = k + 1;
    }
    proof {
        assert(lab@.take(m as int) =~= lab@);
        if which == 0 {
            assert(lab@ =~= spec_label_methods());
        } else if which == 1 {
            assert(lab@ =~= spec_label_country());
        } else if which == 2 {
            assert(lab@ =~= spec_label_city());
        } else if which == 3 {
            assert(lab@ =~= spec_label_audio());
        } else {
            assert(lab@ =~= spec_label_month());
        }
    }
}

/// Serialize the settings fingerprint to its canonical text form.
pub fn serialize_settings(s: &PrayerSettings) -> (r: Vec<u8>)
    ensures
        r@ == spec_ser_settings(*s),
{
    let mut out: Vec<u8> = Vec::new();
    push_settings_label(&mut out, 0);
    push_u32_dec(&mut out, s.methods.latitude.code() as u32);
    out.push(32);
    push_u32_dec(&mut out, s.methods.organisation.code() as u32);
    out.push(32);
    push_u32_dec(&mut out, s.methods.asr.code() as u32);
    out.push(10);
    push_settings_label(&mut out, 1);
    push_chars(&mut out, s.location.country.as_str());
    out.push(10);
    push_settings_label(&mut out, 2);
    push_chars(&mut out, s.location.city.as_str());
    out.push(10);
    push_settings_label(&mut out, 3);
    if s.is_audio_downloaded {
        out.push(49);
    } else {
        out.push(48);
    }
    out.push(10);
    push_settings_label(&mut out, 4);
    push_u32_dec(&mut out, s.current_month);
    out.push(10);
    proof {
        assert(out@ =~= spec_ser_settings(*s));
    }
    out
}

/// Whether two byte strings are equal.
pub fn eq_bytes(a: &Vec<u8>, b: &Vec<u8>) -> (r: bool)
    ensures
        r == (a@ == b@),
{
    let n = a.len();
    if n != b.len() {
        return false;
    }
    let mut i: usize = 0;
    while i < n
        invariant
            i <= n,
            n == a@.len(),
            n == b@.len(),
            forall|k: int| 0 <= k < i ==> a@[k] == b@[k],
        decreases n - i,
    {
        if a[i] != b[i] {
            return false;
        }
        i = i + 1;
    }
    proof {
        assert(a@ =~= b@);
    }
    true
}

/// Reads cached bytes as a [`Month`] snapshot: the inverse of
/// [`serialize_month`], with every performed flag recomputed against the
/// injected current moment.
pub struct ByteParser;

impl ByteParser {
    /// Same contract as [`parse_month`].
    pub fn parse(data: &Vec<u8>, now: &Moment) -> (r: UmmahResult<Month>)
        ensures
            (match spec_parse_month(data@) {
                Some(models) => r is Ok && r->Ok_0@.map_values(|d: Day| spec_day_times(d))
                    == models && r->Ok_0.wf() && (forall|k: int|
                    0 <= k < r->Ok_0@.len() ==> (#[trigger] r->Ok_0@[k]).wf()),
                None => r == Err::<Month, UmmahError>(UmmahError::Serde),
            }),
    {
        parse_month(data, now)
    }
}

} // verus!
