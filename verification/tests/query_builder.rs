use ummah::date::Date;
use ummah::query::PrayerQueryBuilder;
use ummah::settings::{CalculationMethods, Location, PrayerSettings};
use ummah::types::{AsrMethod, LatitudeMethod, PrayerMethod};

fn settings() -> PrayerSettings {
    PrayerSettings::new(
        CalculationMethods {
            latitude: LatitudeMethod::OneSeventh,
            organisation: PrayerMethod::MWL,
            asr: AsrMethod::Shafi,
        },
        Location { country: "uk".to_string(), city: "bath".to_string() },
        6,
    )
}

#[test]
fn builds_the_exact_query_for_june() {
    let q = settings().query(&Date::new(2022, 6, 1));
    assert_eq!(
        q,
        "https://www.salahtimes.com//uk/bath/csv?highlatitudemethod=3\
         &prayercalculationmethod=1&asarcalculationmethod=1\
         &start=2022-6-01&end=2022-6-30"
    );
    assert!(q.contains("start=2022-6-01&end=2022-6-30"));
}

#[test]
fn method_codes_appear_verbatim() {
    let s = PrayerSettings::new(
        CalculationMethods {
            latitude: LatitudeMethod::AngleBased,
            organisation: PrayerMethod::ISNA,
            asr: AsrMethod::Hanafi,
        },
        Location { country: "uk".to_string(), city: "bath".to_string() },
        6,
    );
    let q = s.query(&Date::new(2022, 6, 1));
    assert!(q.contains("highlatitudemethod=4"));
    assert!(q.contains("prayercalculationmethod=5"));
    assert!(q.contains("asarcalculationmethod=2"));
}

#[test]
fn end_day_is_leap_year_aware() {
    let q = settings().query(&Date::new(2024, 2, 10));
    assert!(q.ends_with("start=2024-2-01&end=2024-2-29"));
    let q = settings().query(&Date::new(2022, 2, 10));
    assert!(q.ends_with("start=2022-2-01&end=2022-2-28"));
    let q = settings().query(&Date::new(1900, 2, 10));
    assert!(q.ends_with("start=1900-2-01&end=1900-2-28"));
    let q = settings().query(&Date::new(2000, 2, 10));
    assert!(q.ends_with("start=2000-2-01&end=2000-2-29"));
}

#[test]
fn query_builder_matches_settings_query() {
    let b = PrayerQueryBuilder {
        high_latitude_method: LatitudeMethod::OneSeventh,
        prayer_calculation_method: PrayerMethod::MWL,
        asr_calculation_method: AsrMethod::Shafi,
        current_month: Date::new(2022, 6, 1),
    };
    assert_eq!(b.build("uk", "bath"), settings().query(&Date::new(2022, 6, 1)));
}
