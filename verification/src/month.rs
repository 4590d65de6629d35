//! A [`Month`]: the ordered sequence of [`Day`] records emitted by the
//! source feed, with linear-scan lookups and in-place single-day update.

use crate::date::{day_number, spec_day_index, Date};
use crate::day::Day;
use vstd::prelude::*;

verus! {

/// Ordered collection of all the days of one feed response, in the order
/// the feed emitted them (ascending by date, not re-sorted).
#[derive(Debug, Clone, PartialEq, Eq)]
pub struct Month {
    pub days: Vec<Day>,
}

impl View for Month {
    type V = Seq<Day>;

    open spec fn view(&self) -> Seq<Day> {
        self.days@
    }
}

impl Month {
    /// All dates in the month are valid calendar dates.
    pub open spec fn wf(self) -> bool {
        forall|i: int| 0 <= i < self@.len() ==> (#[trigger] self@[i]).date.valid()
    }

    pub fn new(days: Vec<Day>) -> (r: Self)
        ensures
            r@ == days@,
    {
        Self { days }
    }

    /// Read-only view of the days, in feed order.
    pub fn iter(&self) -> (r: &Vec<Day>)
        ensures
            r@ == self@,
    {
        &self.days
    }

    /// Number of days held.
    pub fn len(&self) -> (r: usize)
        ensures
            r == self@.len(),
    {
        self.days.len()
    }

    /// The day at a given position in feed order.
    pub fn day_at(&self, i: usize) -> (r: &Day)
        requires
            i < self@.len(),
        ensures
            *r == self@[i as int],
    {
        &self.days[i]
    }

    /// Replace every day whose date equals the given day's date with a
    /// copy of the given day; all other days are untouched.
    pub fn update_day(&mut self, day: &Day)
        ensures
            final(self)@.len() == old(self)@.len(),
            forall|i: int|
                0 <= i < old(self)@.len() ==> final(self)@[i] == if (#[trigger] old(
                    self,
                )@[i]).date == day.date {
                    *day
                } else {
                    old(self)@[i]
                },
    {
        let n = self.days.len();
        let mut i: usize = 0;
        while i < n
            invariant
                i <= n,
                n == old(self)@.len(),
                self@.len() == old(self)@.len(),
                forall|j: int|
                    i <= j < old(self)@.len() ==> #[trigger] self@[j] == old(self)@[j],
                forall|j: int|
                    0 <= j < i ==> self@[j] == if (#[trigger] old(self)@[j]).date == day.date {
                        *day
                    } else {
                        old(self)@[j]
                    },
            decreases n - i,
        {
            if self.days[i].get_date() == day.get_date() {
                self.days.set(i, *day);
            }
            i = i + 1;
        }
    }

    /// Index of the first day with the given date, if any.
    pub fn select_by_date_index(&self, date: &Date) -> (r: Option<usize>)
        ensures
            match r {
                Some(i) => i < self@.len() && self@[i as int].date == *date && (forall|j: int|
                    0 <= j < i ==> (#[trigger] self@[j]).date != *date),
                None => forall|j: int| 0 <= j < self@.len() ==> (#[trigger] self@[j]).date != *date,
            },
    {
        let n = self.days.len();
        let mut i: usize = 0;
        while i < n
            invariant
                i <= n,
                n == self@.len(),
                forall|j: int| 0 <= j < i ==> (#[trigger] self@[j]).date != *date,
            decreases n - i,
        {
            if self.days[i].get_date() == *date {
                return Some(i);
            }
            i = i + 1;
        }
        None
    }

    /// The first day with the given date, if any: a lookup by date
    /// returns at most one day.
    pub fn select_by_date(&self, date: &Date) -> (r: Option<&Day>)
        ensures
            match r {
                Some(d) => exists|i: int|
                    0 <= i < self@.len() && *d == self@[i] && (#[trigger] self@[i]).date == *date,
                None => forall|j: int| 0 <= j < self@.len() ==> (#[trigger] self@[j]).date != *date,
            },
    {
        match self.select_by_date_index(date) {
            Some(i) => Some(&self.days[i]),
            None => None,
        }
    }

    /// The first day lying exactly `days_offset` days after `today`
    /// (negative offsets select earlier days), measured on the day index.
    pub fn select_by_day_offset(&self, today: &Date, days_offset: i64) -> (r: Option<&Day>)
        requires
            self.wf(),
            today.valid(),
        ensures
            match r {
                Some(d) => exists|i: int|
                    0 <= i < self@.len() && *d == self@[i] && spec_day_index(
                        (#[trigger] self@[i]).date,
                    ) == spec_day_index(*today) + days_offset,
                None => forall|j: int|
                    0 <= j < self@.len() ==> spec_day_index((#[trigger] self@[j]).date)
                        != spec_day_index(*today) + days_offset,
            },
    {
        let target: i128 = day_number(today) as i128 + days_offset as i128;
        let n = self.days.len();
        let mut i: usize = 0;
        while i < n
            invariant
                self.wf(),
                i <= n,
                n == self@.len(),
                target == spec_day_index(*today) + days_offset,
                forall|j: int|
                    0 <= j < i ==> spec_day_index((#[trigger] self@[j]).date) != target,
            decreases n - i,
        {
            let date = self.days[i].get_date();
            if day_number(&date) as i128 == target {
                return Some(&self.days[i]);
            }
            i = i + 1;
        }
        None
    }

    /// The day whose date is today, if the month holds it.
    pub fn today(&self, today: &Date) -> (r: Option<&Day>)
        ensures
            match r {
                Some(d) => exists|i: int|
                    0 <= i < self@.len() && *d == self@[i] && (#[trigger] self@[i]).date == *today,
                None => forall|j: int|
                    0 <= j < self@.len() ==> (#[trigger] self@[j]).date != *today,
            },
    {
        self.select_by_date(today)
    }

    /// Index of today's entry, for callers that update it in place.
    pub fn today_index(&self, today: &Date) -> (r: Option<usize>)
        ensures
            match r {
                Some(i) => i < self@.len() && self@[i as int].date == *today && (forall|j: int|
                    0 <= j < i ==> (#[trigger] self@[j]).date != *today),
                None => forall|j: int|
                    0 <= j < self@.len() ==> (#[trigger] self@[j]).date != *today,
            },
    {
        self.select_by_date_index(today)
    }

    /// Replace the day at a given position.
    pub fn set_day(&mut self, i: usize, day: Day)
        requires
            i < old(self)@.len(),
        ensures
            final(self)@ == old(self)@.update(i as int, day),
    {
        self.days.set(i, day);
    }

    /// The day dated exactly one day after today, if the month holds it.
    pub fn tomorrow(&self, today: &Date) -> (r: Option<&Day>)
        requires
            self.wf(),
            today.valid(),
        ensures
            match r {
                Some(d) => exists|i: int|
                    0 <= i < self@.len() && *d == self@[i] && spec_day_index(
                        (#[trigger] self@[i]).date,
                    ) == spec_day_index(*today) + 1,
                None => forall|j: int|
                    0 <= j < self@.len() ==> spec_day_index((#[trigger] self@[j]).date)
                        != spec_day_index(*today) + 1,
            },
    {
        self.select_by_day_offset(today, 1)
    }
}

} // verus!
