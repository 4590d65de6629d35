//! The cache manager's policy: when to reuse the persisted month and
//! when to fetch anew, and what to persist after a fetch.
//!
//! The manager itself does no I/O. Callers hand in the raw contents of
//! the two cache files (or their absence) and perform whatever action the
//! plan names; everything decided here is a pure function of its inputs.
//! Any unreadable or malformed cache file reads as a cache miss, never as
//! a fatal error: only a failed fetch may abort the program.

use crate::clock::Moment;
use crate::codec::{
    parse_month, serialize_month, serialize_settings, spec_day_times, spec_parse_month,
    spec_ser_month, spec_ser_settings, DayTimes,
};
use crate::date::{spec_days_in_month, Date};
use crate::day::Day;
use crate::month::Month;
use crate::query::spec_query;
use crate::settings::{Location, PrayerSettings};
use crate::types::{UmmahError, UmmahResult};
use vstd::prelude::*;

verus! {

/// The raw contents of the two cache files, where present: the settings
/// fingerprint under the cache root and the month snapshot under the
/// documents root.
pub struct CacheState {
    pub settings_file: Option<Vec<u8>>,
    pub month_file: Option<Vec<u8>>,
}

impl CacheState {
    pub open spec fn settings_view(self) -> Option<Seq<u8>> {
        match self.settings_file {
            Some(v) => Some(v@),
            None => None,
        }
    }

    pub open spec fn month_view(self) -> Option<Seq<u8>> {
        match self.month_file {
            Some(v) => Some(v@),
            None => None,
        }
    }
}

/// The persisted fingerprint matches the current settings: the file is
/// present and holds exactly the canonical fingerprint of the settings
/// with the audio-downloaded flag raised.
pub open spec fn spec_settings_match(file: Option<Seq<u8>>, s: PrayerSettings) -> bool {
    file is Some && file->0 == spec_ser_settings(s.spec_with_audio_downloaded())
}

/// What the persisted month file holds, if it is present and reads back
/// cleanly.
pub open spec fn spec_cached_days(file: Option<Seq<u8>>) -> Option<Seq<DayTimes>> {
    match file {
        Some(b) => spec_parse_month(b),
        None => None,
    }
}

/// What the caller must do next: reuse the cached month (already
/// reloaded, with performed flags recomputed) or fetch the named query.
pub enum FetchPlan {
    Cached(Month),
    Fetch(String),
}

/// Whether the settings fingerprint on hand matches the current
/// settings (compared against their audio-downloaded image).
pub fn check_settings(file: &Vec<u8>, current: &PrayerSettings) -> (r: bool)
    ensures
        r == (file@ == spec_ser_settings(current.spec_with_audio_downloaded())),
{
    let wad = PrayerSettings {
        methods: current.methods,
        location: Location {
            country: current.location.country.clone(),
            city: current.location.city.clone(),
        },
        is_audio_downloaded: true,
        current_month: current.current_month,
    };
    let want = serialize_settings(&wad);
    crate::codec::eq_bytes(file, &want)
}

/// Reload the cached month snapshot, recomputing every performed flag
/// against the current moment; any malformed content reads as absent.
pub fn load_data(file: &Vec<u8>, now: &Moment) -> (r: Option<Month>)
    ensures
        (match spec_parse_month(file@) {
            Some(models) => r is Some && r->0@.map_values(|d: Day| spec_day_times(d)) == models
                && r->0.wf() && (forall|k: int|
                0 <= k < r->0@.len() ==> (#[trigger] r->0@[k]).wf()),
            None => r is None,
        }),
{
    match parse_month(file, now) {
        Ok(m) => Some(m),
        Err(_) => None,
    }
}

/// Decide how to obtain the month of prayer times.
///
/// An explicitly requested month always fetches, for that month of the
/// current year. Otherwise the cached month is reused exactly when the
/// persisted fingerprint matches the current settings and the persisted
/// snapshot reads back cleanly; any other state fetches the month that
/// `now` falls in.
pub fn get_prayer_times_plan(
    state: &CacheState,
    settings: &PrayerSettings,
    custom_month: Option<u32>,
    now: &Moment,
) -> (r: FetchPlan)
    requires
        now.valid(),
        custom_month is Some ==> 1 <= custom_month->0 <= 12,
    ensures
        (match custom_month {
            Some(m) => r is Fetch && r->Fetch_0@ == spec_query(
                settings.methods,
                settings.location.country@,
                settings.location.city@,
                now.date.year as nat,
                m as nat,
                spec_days_in_month(now.date.year as int, m as int) as nat,
            ),
            None => {
                if spec_settings_match(state.settings_view(), *settings) && spec_cached_days(
                    state.month_view(),
                ) is Some {
                    let models = spec_cached_days(state.month_view())->0;
                    r is Cached && r->Cached_0@.map_values(|d: Day| spec_day_times(d)) == models
                        && r->Cached_0.wf()
                } else {
                    r is Fetch && r->Fetch_0@ == spec_query(
                        settings.methods,
                        settings.location.country@,
                        settings.location.city@,
                        now.date.year as nat,
                        now.date.month as nat,
                        spec_days_in_month(now.date.year as int, now.date.month as int) as nat,
                    )
                }
            },
        }),
{
    if let Some(m) = custom_month {
        let first = Date { year: now.date.year, month: m, day: 1 };
        return FetchPlan::Fetch(settings.query(&first));
    }
    let fingerprint_ok = match &state.settings_file {
        Some(f) => check_settings(f, settings),
        None => false,
    };
    if fingerprint_ok {
        if let Some(b) = &state.month_file {
            if let Some(m) = load_data(b, now) {
                return FetchPlan::Cached(m);
            }
        }
    }
    FetchPlan::Fetch(settings.query(&now.date))
}

/// What the cache manager persists after a successful fetch: the month
/// snapshot for the documents root and the settings fingerprint, with
/// the audio-downloaded flag raised, for the cache root.
pub fn cache_payload(month: &Month, settings: &PrayerSettings) -> (r: (Vec<u8>, Vec<u8>))
    requires
        forall|k: int| 0 <= k < month@.len() ==> (#[trigger] month@[k]).wf(),
    ensures
        r.0@ == spec_ser_month(month@.map_values(|d: Day| spec_day_times(d))),
        r.1@ == spec_ser_settings(settings.spec_with_audio_downloaded()),
{
    let snapshot = serialize_month(month);
    let wad = PrayerSettings {
        methods: settings.methods,
        location: Location {
            country: settings.location.country.clone(),
            city: settings.location.city.clone(),
        },
        is_audio_downloaded: true,
        current_month: settings.current_month,
    };
    let fingerprint = serialize_settings(&wad);
    (snapshot, fingerprint)
}

/// Patch one day of the persisted snapshot: reload it, replace every day
/// whose date matches the given day, and re-serialize. Fails with a
/// serde error exactly when the snapshot does not read back cleanly.
pub fn update_timetable(month_file: &Vec<u8>, day: &Day, now: &Moment) -> (r: UmmahResult<Vec<u8>>)
    requires
        day.wf(),
    ensures
        (match spec_parse_month(month_file@) {
            Some(models) => r is Ok && r->Ok_0@ == spec_ser_month(
                models.map_values(
                    |dt: DayTimes|
                        if dt.date == day.date {
                            spec_day_times(*day)
                        } else {
                            dt
                        },
                ),
            ),
            None => r == Err::<Vec<u8>, UmmahError>(UmmahError::Serde),
        }),
{
    let mut month = match parse_month(month_file, now) {
        Ok(m) => m,
        Err(e) => {
            return Err(e);
        },
    };
    let ghost models0 = month@.map_values(|d: Day| spec_day_times(d));
    let ghost days0 = month@;
    month.update_day(day);
    proof {
        assert forall|k: int| 0 <= k < month@.len() implies (#[trigger] month@[k]).wf() by {
            assert(days0[k].wf());
        }
        assert(month@.map_values(|d: Day| spec_day_times(d)) =~= models0.map_values(
            |dt: DayTimes|
                if dt.date == day.date {
                    spec_day_times(*day)
                } else {
                    dt
                },
        ));
    }
    Ok(serialize_month(&month))
}

/// The cache-miss, then cache-hit story, as a law: a store holding no
/// fingerprint never reads as current, so the first call fetches; after
/// one successful fetch the manager persists the fetched days and the
/// fingerprint of the settings with the audio flag raised, and a store
/// holding exactly those reads as current and as cleanly loadable, so a
/// later call with the same settings and no explicit month reuses the
/// cache instead of fetching, whatever moment it happens at.
pub proof fn lemma_cache_miss_then_hit(settings: PrayerSettings, days: Seq<DayTimes>)
    requires
        forall|k: int| 0 <= k < days.len() ==> (#[trigger] days[k]).valid(),
    ensures
        !spec_settings_match(None, settings),
        spec_settings_match(
            Some(spec_ser_settings(settings.spec_with_audio_downloaded())),
            settings,
        ),
        spec_cached_days(Some(spec_ser_month(days))) == Some(days),
{
    crate::codec::lemma_month_round_trip(days);
}

} // verus!
