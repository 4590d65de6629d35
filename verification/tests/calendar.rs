use std::cmp::Ordering;

use ummah::clock::TimeOfDay;
use ummah::date::{day_number, days_in_month, is_leap_year, weekday_index, weekday_name, Date};
use ummah::day::Day;
use ummah::prayer::Prayer;
use ummah::samples::create_test_prayers;
use ummah::types::{PrayerName, UmmahError};

#[test]
fn weekdays_of_known_dates() {
    // 0 is Monday through 6 is Sunday
    assert_eq!(weekday_index(&Date::new(2022, 1, 1)), 5); // Saturday
    assert_eq!(weekday_index(&Date::new(2022, 6, 15)), 2); // Wednesday
    assert_eq!(weekday_index(&Date::new(1970, 1, 1)), 3); // Thursday
    assert_eq!(weekday_index(&Date::new(2000, 1, 1)), 5); // Saturday
    assert_eq!(weekday_index(&Date::new(2024, 2, 29)), 3); // Thursday
    assert_eq!(weekday_index(&Date::new(1, 1, 1)), 0); // the epoch Monday
    assert_eq!(weekday_name(&Date::new(2022, 1, 1)), "Saturday");
}

#[test]
fn day_numbers_of_known_dates() {
    assert_eq!(day_number(&Date::new(1, 1, 1)), 0);
    assert_eq!(day_number(&Date::new(1, 12, 31)), 364);
    assert_eq!(day_number(&Date::new(2, 1, 1)), 365);
    assert_eq!(day_number(&Date::new(1970, 1, 1)), 719162);
    assert_eq!(day_number(&Date::new(2022, 1, 1)), 738155);
}

#[test]
fn day_numbers_are_consecutive_across_boundaries() {
    let feb28 = day_number(&Date::new(2024, 2, 28));
    assert_eq!(day_number(&Date::new(2024, 2, 29)), feb28 + 1);
    assert_eq!(day_number(&Date::new(2024, 3, 1)), feb28 + 2);
    let dec31 = day_number(&Date::new(2021, 12, 31));
    assert_eq!(day_number(&Date::new(2022, 1, 1)), dec31 + 1);
}

#[test]
fn month_lengths_and_leap_years() {
    assert!(is_leap_year(2024));
    assert!(!is_leap_year(2022));
    assert!(!is_leap_year(1900));
    assert!(is_leap_year(2000));
    assert_eq!(days_in_month(2022, 2), 28);
    assert_eq!(days_in_month(2024, 2), 29);
    assert_eq!(days_in_month(2022, 9), 30);
    assert_eq!(days_in_month(2022, 12), 31);
}

#[test]
fn prayers_order_by_kind_then_time() {
    let fajr = Prayer::new(PrayerName::Fajr, TimeOfDay::new(5, 30, 0), false);
    let isha = Prayer::new(PrayerName::Isha, TimeOfDay::new(22, 0, 0), false);
    let isha_later = Prayer::new(PrayerName::Isha, TimeOfDay::new(23, 0, 0), true);
    assert_eq!(fajr.partial_cmp(&isha), Some(Ordering::Less));
    assert_eq!(isha.partial_cmp(&isha_later), Some(Ordering::Less));
    assert_eq!(isha.partial_cmp(&isha), Some(Ordering::Equal));
}

#[test]
fn days_order_by_date() {
    let a = Day::new(Date::new(2022, 1, 1), create_test_prayers());
    let b = Day::new(Date::new(2022, 1, 2), create_test_prayers());
    let c = Day::new(Date::new(2021, 12, 31), create_test_prayers());
    assert!(a < b);
    assert!(c < a);
    assert_eq!(a.partial_cmp(&a), Some(Ordering::Equal));
}

#[test]
fn prayer_names_render() {
    assert_eq!(PrayerName::Fajr.text(), "Fajr");
    assert_eq!(PrayerName::Maghrib.text(), "Maghrib");
}

#[test]
fn error_messages() {
    assert_eq!(UmmahError::DateTime.message(), "Failed to parse time");
    assert_eq!(UmmahError::Csv.message(), "Failed to read CSV file");
    assert_eq!(UmmahError::Serde.message(), "Failed to (de)serialize");
}
