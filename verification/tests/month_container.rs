use ummah::clock::TimeOfDay;
use ummah::date::Date;
use ummah::day::Day;
use ummah::prayer::Prayer;
use ummah::samples::{create_test_day, create_test_month, create_test_prayers};
use ummah::types::PrayerName;

#[test]
fn select_by_date_finds_the_first_entry() {
    let month = create_test_month(1, None);
    assert_eq!(month.len(), 31);
    let first = month.select_by_date(&Date::new(2022, 1, 1)).unwrap();
    assert_eq!(*first, *month.day_at(0));
}

#[test]
fn select_by_date_misses_other_months() {
    let month = create_test_month(1, None);
    assert!(month.select_by_date(&Date::new(2022, 2, 1)).is_none());
}

#[test]
fn update_day_replaces_exactly_one_entry() {
    let mut month = create_test_month(1, None);
    let before: Vec<Day> = month.iter().clone();

    let mut prayers = create_test_prayers();
    prayers[0] = Prayer::new(PrayerName::Fajr, TimeOfDay::new(5, 45, 0), false);
    let replacement = Day::new(Date::new(2022, 1, 15), prayers);
    month.update_day(&replacement);

    for (i, day) in month.iter().iter().enumerate() {
        if i == 14 {
            assert_eq!(*day, replacement);
            assert_ne!(*day, before[i]);
        } else {
            assert_eq!(*day, before[i]);
        }
    }
}

#[test]
fn today_and_tomorrow_lookups() {
    let month = create_test_month(1, None);
    let today = Date::new(2022, 1, 15);
    assert_eq!(month.today(&today).unwrap().get_date(), today);
    assert_eq!(month.tomorrow(&today).unwrap().get_date(), Date::new(2022, 1, 16));
    assert_eq!(
        month.select_by_day_offset(&today, 3).unwrap().get_date(),
        Date::new(2022, 1, 18)
    );
    assert_eq!(
        month.select_by_day_offset(&today, -14).unwrap().get_date(),
        Date::new(2022, 1, 1)
    );
    assert!(month.select_by_day_offset(&today, 17).is_none());
}

#[test]
fn tomorrow_crosses_a_month_boundary_by_day_index() {
    let month = create_test_month(2, None);
    // the day after January 31st is February 1st
    let eve = Date::new(2022, 1, 31);
    assert_eq!(month.tomorrow(&eve).unwrap().get_date(), Date::new(2022, 2, 1));
}

#[test]
fn leap_year_month_lengths() {
    assert_eq!(create_test_month(2, Some(2024)).len(), 29);
    assert_eq!(create_test_month(2, Some(2022)).len(), 28);
    assert_eq!(create_test_month(2, Some(1900)).len(), 28);
    assert_eq!(create_test_month(2, Some(2000)).len(), 29);
    assert_eq!(create_test_month(4, None).len(), 30);
    assert_eq!(create_test_month(12, None).len(), 31);
}

#[test]
fn next_prayer_walks_the_day_in_order() {
    let mut day = create_test_day();
    assert_eq!(day.next_prayer_index(), Some(0));
    assert_eq!(day.get_next_prayer().unwrap().get_name(), PrayerName::Fajr);
    day.set_prayer_performed(0, true);
    assert_eq!(day.get_next_prayer().unwrap().get_name(), PrayerName::Dhuhr);
    for i in 1..5 {
        day.set_prayer_performed(i, true);
    }
    assert!(day.get_next_prayer().is_none());
    assert_eq!(day.next_prayer_index(), None);
}
