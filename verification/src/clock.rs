//! Times of day and moments, in the same naive local frame as [`crate::date`].

use crate::date::{spec_date_lt, Date};
use vstd::prelude::*;

verus! {

/// A time of day with second precision.
#[derive(Debug, Clone, Copy, PartialEq, Eq, Structural)]
pub struct TimeOfDay {
    pub hour: u8,
    pub minute: u8,
    pub second: u8,
}

/// A full moment: a calendar date together with a time of day.
#[derive(Debug, Clone, Copy, PartialEq, Eq, Structural)]
pub struct Moment {
    pub date: Date,
    pub time: TimeOfDay,
}

impl TimeOfDay {
    /// A structurally valid time of day.
    pub open spec fn valid(self) -> bool {
        self.hour < 24 && self.minute < 60 && self.second < 60
    }

    /// Seconds since midnight: the mathematical model of a time of day.
    pub open spec fn spec_seconds(self) -> int {
        self.hour as int * 3600 + self.minute as int * 60 + self.second as int
    }

    pub fn new(hour: u8, minute: u8, second: u8) -> (r: Self)
        requires
            (TimeOfDay { hour, minute, second }).valid(),
        ensures
            r == (TimeOfDay { hour, minute, second }),
    {
        TimeOfDay { hour, minute, second }
    }
}

impl Moment {
    pub open spec fn valid(self) -> bool {
        self.date.valid() && self.time.valid()
    }

    pub fn new(date: Date, time: TimeOfDay) -> (r: Self)
        requires
            date.valid(),
            time.valid(),
        ensures
            r == (Moment { date, time }),
    {
        Moment { date, time }
    }
}

/// The fixed 12-hour re-basing with wraparound on the 24-hour clock.
pub open spec fn spec_shift_twelve(t: TimeOfDay) -> TimeOfDay {
    TimeOfDay { hour: ((t.hour + 12) % 24) as u8, minute: t.minute, second: t.second }
}

/// Add 12 hours with wraparound (23:xx shifts to 11:xx, not an error).
///
/// The source feed emits the afternoon and evening prayer times as if on a
/// 12-hour clock; this deterministic re-basing restores the 24-hour value.
pub fn shift_twelve(t: &TimeOfDay) -> (r: TimeOfDay)
    requires
        t.valid(),
    ensures
        r == spec_shift_twelve(*t),
        r.valid(),
{
    TimeOfDay { hour: (t.hour + 12) % 24, minute: t.minute, second: t.second }
}

/// The 12-hour shift is an involution on the 24-hour clock: applying it
/// twice restores the original time, and applying it once never yields
/// the original time.
pub proof fn lemma_shift_twelve_involution(t: TimeOfDay)
    requires
        t.valid(),
    ensures
        spec_shift_twelve(spec_shift_twelve(t)) == t,
        spec_shift_twelve(t) != t,
{
    if t.hour < 12 {
        assert((t.hour + 12) % 24 == t.hour + 12);
    } else {
        assert((t.hour + 12) % 24 == t.hour - 12);
    }
}

/// The performed-status rule: a prayer is performed exactly when its date
/// lies before the current date, or falls on the current date at or before
/// the current time. A pure, total, three-way comparison in the naive
/// local frame; it is recomputed on every load and never persisted.
pub open spec fn spec_performed(current: Moment, prayer_date: Date, prayer_time: TimeOfDay) -> bool {
    if spec_date_lt(prayer_date, current.date) {
        true
    } else if spec_date_lt(current.date, prayer_date) {
        false
    } else {
        prayer_time.spec_seconds() <= current.time.spec_seconds()
    }
}

pub fn get_performed_status(current: &Moment, prayer_date: &Date, prayer_time: &TimeOfDay) -> (r:
    bool)
    ensures
        r == spec_performed(*current, *prayer_date, *prayer_time),
{
    let date = current.date;
    if prayer_date.year < date.year {
        true
    } else if prayer_date.year > date.year {
        false
    } else if prayer_date.month < date.month {
        true
    } else if prayer_date.month > date.month {
        false
    } else if prayer_date.day < date.day {
        true
    } else if prayer_date.day > date.day {
        false
    } else {
        let p = prayer_time;
        let c = current.time;
        (p.hour as u32 * 3600 + p.minute as u32 * 60 + p.second as u32) <= (c.hour as u32 * 3600
            + c.minute as u32 * 60 + c.second as u32)
    }
}

} // verus!
