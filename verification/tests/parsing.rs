use ummah::clock::{shift_twelve, Moment, TimeOfDay};
use ummah::csv_parser::{parse_csv_file, parse_prayer_date, parse_prayer_time, CSVPrayer};
use ummah::date::{weekday_name, Date};
use ummah::types::{PrayerName, UmmahError};

fn bytes(s: &str) -> Vec<u8> {
    s.as_bytes().to_vec()
}

#[test]
fn parses_single_digit_hour_without_shift() {
    let t = parse_prayer_time(&bytes("5:30"), false).unwrap();
    assert_eq!(t, TimeOfDay::new(5, 30, 0));
}

#[test]
fn parses_two_digit_hour_and_leading_space() {
    assert_eq!(parse_prayer_time(&bytes("13:05"), false).unwrap(), TimeOfDay::new(13, 5, 0));
    assert_eq!(parse_prayer_time(&bytes(" 9:05"), false).unwrap(), TimeOfDay::new(9, 5, 0));
}

#[test]
fn shift_rebases_to_afternoon() {
    let t = parse_prayer_time(&bytes("1:00"), true).unwrap();
    assert_eq!(t, TimeOfDay::new(13, 0, 0));
}

#[test]
fn shift_twice_wraps_around_and_restores() {
    let once = parse_prayer_time(&bytes("1:00"), true).unwrap();
    assert_eq!(once, TimeOfDay::new(13, 0, 0));
    let twice = shift_twelve(&once);
    assert_eq!(twice, TimeOfDay::new(1, 0, 0));
    assert_ne!(once, shift_twelve(&once));
    let late = parse_prayer_time(&bytes("23:10"), true).unwrap();
    assert_eq!(late, TimeOfDay::new(11, 10, 0));
}

#[test]
fn rejects_malformed_times() {
    assert_eq!(parse_prayer_time(&bytes("25:00"), false), Err(UmmahError::DateTime));
    assert_eq!(parse_prayer_time(&bytes("5:61"), false), Err(UmmahError::DateTime));
    assert_eq!(parse_prayer_time(&bytes("5:3"), false), Err(UmmahError::DateTime));
    assert_eq!(parse_prayer_time(&bytes("abc"), false), Err(UmmahError::DateTime));
    assert_eq!(parse_prayer_time(&bytes(""), false), Err(UmmahError::DateTime));
}

#[test]
fn parses_date_with_matching_weekday() {
    // 2022-01-01 was a Saturday, 2022-06-15 a Wednesday.
    assert_eq!(parse_prayer_date(&bytes("Sat 01 Jan"), 2022).unwrap(), Date::new(2022, 1, 1));
    assert_eq!(parse_prayer_date(&bytes("Wed 15 Jun"), 2022).unwrap(), Date::new(2022, 6, 15));
    assert_eq!(parse_prayer_date(&bytes("Sat 1 Jan"), 2022).unwrap(), Date::new(2022, 1, 1));
}

#[test]
fn weekday_recovered_from_parsed_date_matches_the_row() {
    let d = parse_prayer_date(&bytes("Wed 15 Jun"), 2022).unwrap();
    assert_eq!(weekday_name(&d), "Wednesday".to_string());
}

#[test]
fn rejects_date_with_contradictory_weekday() {
    assert_eq!(parse_prayer_date(&bytes("Mon 01 Jan"), 2022), Err(UmmahError::DateTime));
}

#[test]
fn rejects_impossible_calendar_days() {
    assert_eq!(parse_prayer_date(&bytes("Wed 30 Feb"), 2022), Err(UmmahError::DateTime));
    assert_eq!(parse_prayer_date(&bytes("Xyz 01 Jan"), 2022), Err(UmmahError::DateTime));
    assert_eq!(parse_prayer_date(&bytes("Sat 01 Foo"), 2022), Err(UmmahError::DateTime));
}

#[test]
fn leap_year_day_parses() {
    // 2024-02-29 was a Thursday.
    assert_eq!(parse_prayer_date(&bytes("Thu 29 Feb"), 2024).unwrap(), Date::new(2024, 2, 29));
    assert_eq!(parse_prayer_date(&bytes("Tue 29 Feb"), 2022), Err(UmmahError::DateTime));
}

#[test]
fn builds_a_day_from_one_row() {
    let now = Moment::new(Date::new(2022, 6, 1), TimeOfDay::new(12, 0, 0));
    let row = CSVPrayer {
        day: bytes("Wed 01 Jun"),
        fajr: bytes("5:30"),
        sunrise: bytes("6:45"),
        dhuhr: bytes("1:00"),
        asr: bytes("4:30"),
        maghrib: bytes("9:21"),
        isha: bytes("10:43"),
    };
    let d = row.build(2022, &now).unwrap();
    assert_eq!(d.get_date(), Date::new(2022, 6, 1));
    let prayers = d.get_prayers();
    assert_eq!(prayers[0].get_name(), PrayerName::Fajr);
    assert_eq!(prayers[0].get_time(), TimeOfDay::new(5, 30, 0));
    assert!(prayers[0].is_performed());
    assert_eq!(prayers[1].get_time(), TimeOfDay::new(13, 0, 0));
    assert!(!prayers[1].is_performed());
    assert_eq!(prayers[2].get_time(), TimeOfDay::new(16, 30, 0));
    assert_eq!(prayers[3].get_time(), TimeOfDay::new(21, 21, 0));
    assert_eq!(prayers[4].get_time(), TimeOfDay::new(22, 43, 0));
}

#[test]
fn parses_a_whole_feed() {
    let now = Moment::new(Date::new(2022, 6, 1), TimeOfDay::new(12, 0, 0));
    let feed = bytes(
        "date,fajr,sunrise,dhuhr,asr,maghrib,isha\r\n\
         Wed 01 Jun,5:30,6:45,1:00,4:30,9:21,10:43\r\n\
         Thu 02 Jun,5:29,6:44,1:00,4:31,9:22,10:44\r\n",
    );
    let month = parse_csv_file(&feed, 2022, &now).unwrap();
    assert_eq!(month.len(), 2);
    assert_eq!(month.day_at(0).get_date(), Date::new(2022, 6, 1));
    assert_eq!(month.day_at(1).get_date(), Date::new(2022, 6, 2));
    assert_eq!(month.day_at(1).get_prayers()[0].get_time(), TimeOfDay::new(5, 29, 0));
}

#[test]
fn empty_feed_parses_to_an_empty_month() {
    let now = Moment::new(Date::new(2022, 6, 1), TimeOfDay::new(12, 0, 0));
    let month = parse_csv_file(&bytes(""), 2022, &now).unwrap();
    assert_eq!(month.len(), 0);
}

#[test]
fn wrong_field_count_is_a_csv_error() {
    let now = Moment::new(Date::new(2022, 6, 1), TimeOfDay::new(12, 0, 0));
    let feed = bytes("date,fajr,sunrise,dhuhr,asr,maghrib,isha\nWed 01 Jun,5:30,6:45\n");
    assert_eq!(parse_csv_file(&feed, 2022, &now), Err(UmmahError::Csv));
}

#[test]
fn one_bad_row_fails_the_whole_feed() {
    let now = Moment::new(Date::new(2022, 6, 1), TimeOfDay::new(12, 0, 0));
    let feed = bytes(
        "date,fajr,sunrise,dhuhr,asr,maghrib,isha\n\
         Wed 01 Jun,5:30,6:45,1:00,4:30,9:21,10:43\n\
         Thu 02 Jun,bad,6:44,1:00,4:31,9:22,10:44\n",
    );
    assert_eq!(parse_csv_file(&feed, 2022, &now), Err(UmmahError::DateTime));
}
