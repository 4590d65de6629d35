//! Ready-made sample data: not valid prayer times, only fixtures for
//! tests and examples.

use crate::clock::TimeOfDay;
use crate::date::{days_in_month, spec_days_in_month, Date};
use crate::day::Day;
use crate::month::Month;
use crate::prayer::Prayer;
use crate::types::PrayerName;
use vstd::prelude::*;

verus! {

/// The fixed prayers every sample day carries: ten seconds apart, just
/// after midnight, none performed.
pub open spec fn spec_test_prayers() -> Seq<Prayer> {
    seq![
        Prayer {
            name: PrayerName::Fajr,
            time: TimeOfDay { hour: 0, minute: 0, second: 0 },
            performed: false,
        },
        Prayer {
            name: PrayerName::Dhuhr,
            time: TimeOfDay { hour: 0, minute: 0, second: 10 },
            performed: false,
        },
        Prayer {
            name: PrayerName::Asr,
            time: TimeOfDay { hour: 0, minute: 0, second: 20 },
            performed: false,
        },
        Prayer {
            name: PrayerName::Maghrib,
            time: TimeOfDay { hour: 0, minute: 0, second: 30 },
            performed: false,
        },
        Prayer {
            name: PrayerName::Isha,
            time: TimeOfDay { hour: 0, minute: 0, second: 40 },
            performed: false,
        },
    ]
}

/// Generate an array of test prayers.
///
/// These are not valid prayer times. This is for testing only.
pub fn create_test_prayers() -> (r: [Prayer; 5])
    ensures
        r@ == spec_test_prayers(),
{
    let r: [Prayer; 5] = [
        Prayer::new(PrayerName::Fajr, TimeOfDay::new(0, 0, 0), false),
        Prayer::new(PrayerName::Dhuhr, TimeOfDay::new(0, 0, 10), false),
        Prayer::new(PrayerName::Asr, TimeOfDay::new(0, 0, 20), false),
        Prayer::new(PrayerName::Maghrib, TimeOfDay::new(0, 0, 30), false),
        Prayer::new(PrayerName::Isha, TimeOfDay::new(0, 0, 40), false),
    ];
    proof {
        assert(r@ =~= spec_test_prayers());
    }
    r
}

/// Creates a test day: January 1st, 2022, with the sample prayers.
pub fn create_test_day() -> (r: Day)
    ensures
        r.date == (Date { year: 2022, month: 1, day: 1 }),
        r.prayers@ == spec_test_prayers(),
        r.wf(),
{
    Day::new(Date::new(2022, 1, 1), create_test_prayers())
}

/// Creates a test month: one sample day per calendar day of the given
/// month, leap years accounted for. The year defaults to 2022.
pub fn create_test_month(month: u32, year: Option<u32>) -> (r: Month)
    requires
        1 <= month <= 12,
        (match year {
            Some(y) => y >= 1,
            None => true,
        }),
    ensures
        ({
            let y = match year {
                Some(y) => y,
                None => 2022u32,
            };
            r@.len() == spec_days_in_month(y as int, month as int) && (forall|k: int|
                0 <= k < r@.len() ==> (#[trigger] r@[k]).date == (Date {
                    year: y,
                    month,
                    day: (k + 1) as u32,
                }) && r@[k].prayers@ == spec_test_prayers() && r@[k].wf()) && r.wf()
        }),
{
    let y = match year {
        Some(y) => y,
        None => 2022,
    };
    let max_days = days_in_month(y, month);
    let mut days: Vec<Day> = Vec::new();
    let mut day: u32 = 1;
    while day <= max_days
        invariant
            1 <= day <= max_days + 1,
            max_days == spec_days_in_month(y as int, month as int),
            1 <= month <= 12,
            y >= 1,
            days@.len() == day - 1,
            forall|k: int|
                0 <= k < days@.len() ==> (#[trigger] days@[k]).date == (Date {
                    year: y,
                    month,
                    day: (k + 1) as u32,
                }) && days@[k].prayers@ == spec_test_prayers() && days@[k].wf(),
        decreases max_days + 1 - day,
    {
        days.push(Day::new(Date::new(y, month, day), create_test_prayers()));
        day = day + 1;
    }
    Month::new(days)
}

} // verus!
