use ummah::cache::{
    cache_payload, check_settings, get_prayer_times_plan, load_data, update_timetable, CacheState,
    FetchPlan,
};
use ummah::clock::{Moment, TimeOfDay};
use ummah::codec::{serialize_month, serialize_settings, ByteParser};
use ummah::date::Date;
use ummah::day::Day;
use ummah::prayer::Prayer;
use ummah::samples::{create_test_month, create_test_prayers};
use ummah::settings::{CalculationMethods, Location, PrayerSettings};
use ummah::types::{AsrMethod, LatitudeMethod, PrayerMethod, UmmahError};

fn settings() -> PrayerSettings {
    PrayerSettings::new(
        CalculationMethods {
            latitude: LatitudeMethod::OneSeventh,
            organisation: PrayerMethod::MWL,
            asr: AsrMethod::Shafi,
        },
        Location { country: "uk".to_string(), city: "bath".to_string() },
        1,
    )
}

fn noon_on(day: u32) -> Moment {
    Moment::new(Date::new(2022, 1, day), TimeOfDay::new(12, 0, 0))
}

#[test]
fn month_snapshot_round_trips() {
    let month = create_test_month(1, None);
    let bytes = serialize_month(&month);
    let reloaded = ByteParser::parse(&bytes, &noon_on(15)).unwrap();
    assert_eq!(reloaded.len(), month.len());
    for i in 0..month.len() {
        let a = month.day_at(i);
        let b = reloaded.day_at(i);
        assert_eq!(a.get_date(), b.get_date());
        for k in 0..5 {
            assert_eq!(a.get_prayers()[k].get_time(), b.get_prayers()[k].get_time());
            assert_eq!(a.get_prayers()[k].get_name(), b.get_prayers()[k].get_name());
        }
    }
}

#[test]
fn snapshot_is_labelled_text() {
    let month = create_test_month(1, None);
    let bytes = serialize_month(&month);
    let text = String::from_utf8(bytes).unwrap();
    assert!(text.starts_with("date: 2022-01-01\nfajr: 00:00:00\n"));
    assert!(text.contains("\nisha: 00:00:40\n"));
}

#[test]
fn performed_flags_are_recomputed_on_load_not_trusted() {
    let mut month = create_test_month(1, None);
    // mark everything performed in memory, then persist
    for i in 0..month.len() {
        let mut day = *month.day_at(i);
        for k in 0..5 {
            day.set_prayer_performed(k, true);
        }
        month.set_day(i, day);
    }
    let bytes = serialize_month(&month);
    // reloaded before any of January, nothing reads as performed
    let reloaded = ByteParser::parse(&bytes, &Moment::new(Date::new(2021, 12, 31), TimeOfDay::new(0, 0, 0))).unwrap();
    for i in 0..reloaded.len() {
        for k in 0..5 {
            assert!(!reloaded.day_at(i).get_prayers()[k].is_performed());
        }
    }
    // reloaded mid-month, the first fortnight reads as performed
    let reloaded = ByteParser::parse(&bytes, &noon_on(15)).unwrap();
    assert!(reloaded.day_at(0).get_prayers()[4].is_performed());
    assert!(!reloaded.day_at(20).get_prayers()[0].is_performed());
}

#[test]
fn corrupt_snapshot_reads_as_a_cache_miss() {
    let garbage = b"not a snapshot".to_vec();
    assert_eq!(ByteParser::parse(&garbage, &noon_on(1)), Err(UmmahError::Serde));
    assert!(load_data(&garbage, &noon_on(1)).is_none());
}

#[test]
fn fingerprint_asymmetry() {
    let s = settings();
    assert_ne!(s, s.clone().with_audio_downloaded());
    assert_eq!(
        s.clone().with_audio_downloaded(),
        s.clone().with_audio_downloaded()
    );
}

#[test]
fn fingerprint_matches_only_the_audio_downloaded_image() {
    let s = settings();
    let persisted = serialize_settings(&s.clone().with_audio_downloaded());
    assert!(check_settings(&persisted, &s));
    let fresh = serialize_settings(&s);
    assert!(!check_settings(&fresh, &s));

    let other = PrayerSettings::new(
        CalculationMethods {
            latitude: LatitudeMethod::OneSeventh,
            organisation: PrayerMethod::MWL,
            asr: AsrMethod::Shafi,
        },
        Location { country: "uk".to_string(), city: "bristol".to_string() },
        1,
    );
    assert!(!check_settings(&persisted, &other));
}

#[test]
fn cache_miss_then_hit() {
    let s = settings();
    let now = noon_on(15);

    // no cache files: the plan is one fetch
    let empty = CacheState { settings_file: None, month_file: None };
    let plan = get_prayer_times_plan(&empty, &s, None, &now);
    let query = match plan {
        FetchPlan::Fetch(q) => q,
        FetchPlan::Cached(_) => panic!("expected a fetch on an empty cache"),
    };
    assert!(query.contains("start=2022-1-01&end=2022-1-31"));

    // the fetch succeeded; persist month and fingerprint
    let month = create_test_month(1, None);
    let (snapshot, fingerprint) = cache_payload(&month, &s);
    let warm = CacheState { settings_file: Some(fingerprint), month_file: Some(snapshot) };

    // unchanged settings, no explicit month: zero fetches
    match get_prayer_times_plan(&warm, &s, None, &now) {
        FetchPlan::Cached(m) => {
            assert_eq!(m.len(), 31);
            assert_eq!(m.day_at(0).get_date(), Date::new(2022, 1, 1));
        },
        FetchPlan::Fetch(_) => panic!("expected the cached month to be reused"),
    }
}

#[test]
fn explicit_month_always_fetches() {
    let s = settings();
    let month = create_test_month(1, None);
    let (snapshot, fingerprint) = cache_payload(&month, &s);
    let warm = CacheState { settings_file: Some(fingerprint), month_file: Some(snapshot) };
    match get_prayer_times_plan(&warm, &s, Some(6), &noon_on(15)) {
        FetchPlan::Fetch(q) => assert!(q.contains("start=2022-6-01&end=2022-6-30")),
        FetchPlan::Cached(_) => panic!("an explicit month must re-fetch"),
    }
}

#[test]
fn changed_settings_invalidate_the_cache() {
    let s = settings();
    let month = create_test_month(1, None);
    let (snapshot, fingerprint) = cache_payload(&month, &s);
    let warm = CacheState { settings_file: Some(fingerprint), month_file: Some(snapshot) };
    let changed = PrayerSettings::new(
        CalculationMethods {
            latitude: LatitudeMethod::AngleBased,
            organisation: PrayerMethod::MWL,
            asr: AsrMethod::Shafi,
        },
        Location { country: "uk".to_string(), city: "bath".to_string() },
        1,
    );
    match get_prayer_times_plan(&warm, &changed, None, &noon_on(15)) {
        FetchPlan::Fetch(_) => {},
        FetchPlan::Cached(_) => panic!("changed settings must re-fetch"),
    }
}

#[test]
fn update_timetable_patches_one_day() {
    let month = create_test_month(1, None);
    let bytes = serialize_month(&month);

    let mut prayers = create_test_prayers();
    prayers[2] = Prayer::new(
        ummah::types::PrayerName::Asr,
        TimeOfDay::new(16, 45, 0),
        false,
    );
    let replacement = Day::new(Date::new(2022, 1, 10), prayers);

    let patched = update_timetable(&bytes, &replacement, &noon_on(15)).unwrap();
    let reloaded = ByteParser::parse(&patched, &noon_on(15)).unwrap();
    assert_eq!(reloaded.day_at(9).get_prayers()[2].get_time(), TimeOfDay::new(16, 45, 0));
    assert_eq!(reloaded.day_at(8).get_prayers()[2].get_time(), TimeOfDay::new(0, 0, 20));

    assert_eq!(
        update_timetable(&b"garbage".to_vec(), &replacement, &noon_on(15)),
        Err(UmmahError::Serde)
    );
}
