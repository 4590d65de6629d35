//! A [`Day`]: a calendar date together with its five ordered prayers.

use crate::date::Date;
use crate::prayer::Prayer;
use crate::types::PrayerName;
use vstd::prelude::*;

verus! {

/// Holds all prayers for a given day.
#[derive(Debug, Clone, Copy, PartialEq, Eq)]
pub struct Day {
    pub date: Date,
    pub prayers: [Prayer; 5],
}

/// The canonical order of the five prayers within a day.
pub open spec fn spec_kind_order(i: int) -> PrayerName {
    if i == 0 {
        PrayerName::Fajr
    } else if i == 1 {
        PrayerName::Dhuhr
    } else if i == 2 {
        PrayerName::Asr
    } else if i == 3 {
        PrayerName::Maghrib
    } else {
        PrayerName::Isha
    }
}

impl Day {
    /// Well-formed day: valid date, valid times, and exactly one prayer
    /// per kind, in canonical kind order.
    pub open spec fn wf(self) -> bool {
        self.date.valid() && (forall|i: int|
            0 <= i < 5 ==> (#[trigger] self.prayers@[i]).valid() && self.prayers@[i].name
                == spec_kind_order(i))
    }

    pub fn new(date: Date, prayers: [Prayer; 5]) -> (r: Self)
        ensures
            r == (Day { date, prayers }),
    {
        Self { date, prayers }
    }

    /// Gets the date for the day.
    pub fn get_date(&self) -> (r: Date)
        ensures
            r == self.date,
    {
        self.date
    }

    /// Gets all prayers for the day.
    pub fn get_prayers(&self) -> (r: [Prayer; 5])
        ensures
            r == self.prayers,
    {
        self.prayers
    }

    /// The prayer at a given position in the canonical order.
    pub fn prayer_at(&self, i: usize) -> (r: &Prayer)
        requires
            i < 5,
        ensures
            *r == self.prayers@[i as int],
    {
        &self.prayers[i]
    }

    /// Index of the first prayer not yet performed, if any.
    pub fn next_prayer_index(&self) -> (r: Option<usize>)
        ensures
            match r {
                Some(i) => i < 5 && !self.prayers@[i as int].performed && (forall|j: int|
                    0 <= j < i ==> (#[trigger] self.prayers@[j]).performed),
                None => forall|j: int| 0 <= j < 5 ==> (#[trigger] self.prayers@[j]).performed,
            },
    {
        let mut i: usize = 0;
        while i < 5
            invariant
                i <= 5,
                forall|j: int| 0 <= j < i ==> (#[trigger] self.prayers@[j]).performed,
            decreases 5 - i,
        {
            if !self.prayers[i].is_performed() {
                return Some(i);
            }
            i = i + 1;
        }
        None
    }

    /// Gets the next unperformed prayer.
    pub fn get_next_prayer(&self) -> (r: Option<&Prayer>)
        ensures
            match r {
                Some(p) => exists|i: int|
                    0 <= i < 5 && *p == self.prayers@[i] && !(#[trigger] self.prayers@[i]).performed
                        && (forall|j: int| 0 <= j < i ==> (#[trigger] self.prayers@[j]).performed),
                None => forall|j: int| 0 <= j < 5 ==> (#[trigger] self.prayers@[j]).performed,
            },
    {
        match self.next_prayer_index() {
            Some(i) => Some(&self.prayers[i]),
            None => None,
        }
    }

    /// Set the performed flag of the prayer at position `i`, leaving the
    /// rest of the day unchanged.
    pub fn set_prayer_performed(&mut self, i: usize, is_performed: bool)
        requires
            i < 5,
        ensures
            final(self).date == old(self).date,
            final(self).prayers@ == old(self).prayers@.update(
                i as int,
                (old(self).prayers@[i as int].spec_with_performed(is_performed)),
            ),
    {
        let mut p = self.prayers[i];
        p.set_performed(is_performed);
        self.prayers[i] = p;
    }
}

/// Days order by date, lexicographically on year, month and day.
pub open spec fn spec_day_cmp(a: Day, b: Day) -> core::cmp::Ordering {
    if crate::date::spec_date_lt(a.date, b.date) {
        core::cmp::Ordering::Less
    } else if crate::date::spec_date_lt(b.date, a.date) {
        core::cmp::Ordering::Greater
    } else {
        core::cmp::Ordering::Equal
    }
}

impl PartialOrd for Day {
    fn partial_cmp(&self, other: &Day) -> (r: Option<core::cmp::Ordering>) {
        let (a, b) = (self.date, other.date);
        if a.year < b.year || (a.year == b.year && (a.month < b.month || (a.month == b.month
            && a.day < b.day))) {
            Some(core::cmp::Ordering::Less)
        } else if b.year < a.year || (b.year == a.year && (b.month < a.month || (b.month == a.month
            && b.day < a.day))) {
            Some(core::cmp::Ordering::Greater)
        } else {
            Some(core::cmp::Ordering::Equal)
        }
    }
}

impl vstd::std_specs::cmp::PartialOrdSpecImpl for Day {
    open spec fn obeys_partial_cmp_spec() -> bool {
        true
    }

    open spec fn partial_cmp_spec(&self, other: &Day) -> Option<core::cmp::Ordering> {
        Some(spec_day_cmp(*self, *other))
    }
}

} // verus!
