//! Settings for calculating prayer times: the calculation methods, the
//! location, and the cache fingerprint built from them.

use crate::types::{AsrMethod, LatitudeMethod, PrayerMethod};
use vstd::prelude::*;

verus! {

/// The three calculation-method choices.
#[derive(Debug, Clone, Copy, PartialEq, Eq, Structural)]
pub struct CalculationMethods {
    pub latitude: LatitudeMethod,
    pub organisation: PrayerMethod,
    pub asr: AsrMethod,
}

/// Where prayer times are requested for.
#[derive(Debug, Clone)]
pub struct Location {
    pub country: String,
    pub city: String,
}

impl Location {
    /// Equality of locations as character sequences.
    pub open spec fn spec_eq(self, other: Location) -> bool {
        self.country@ == other.country@ && self.city@ == other.city@
    }
}

impl PartialEq for Location {
    fn eq(&self, other: &Location) -> (r: bool) {
        self.country == other.country && self.city == other.city
    }
}

impl Eq for Location {

}

impl vstd::std_specs::cmp::PartialEqSpecImpl for Location {
    open spec fn obeys_eq_spec() -> bool {
        true
    }

    open spec fn eq_spec(&self, other: &Location) -> bool {
        self.spec_eq(*other)
    }
}

/// Settings for calculating prayer times and determining the current
/// month of prayers.
///
/// This is the cache fingerprint: two settings values agree exactly when
/// every field matches, the audio-downloaded flag and the month included.
/// The persisted copy always carries `is_audio_downloaded == true`, so a
/// cache written before the audio asset was downloaded reads as stale.
#[derive(Debug, Clone)]
pub struct PrayerSettings {
    pub methods: CalculationMethods,
    pub location: Location,
    pub is_audio_downloaded: bool,
    pub current_month: u32,
}

impl PrayerSettings {
    /// Field-by-field equality; location strings compare as character
    /// sequences.
    pub open spec fn spec_eq(self, other: PrayerSettings) -> bool {
        self.methods == other.methods && self.location.spec_eq(other.location)
            && self.is_audio_downloaded == other.is_audio_downloaded && self.current_month
            == other.current_month
    }

    /// The same settings with the audio-downloaded flag raised.
    pub open spec fn spec_with_audio_downloaded(self) -> PrayerSettings {
        PrayerSettings { is_audio_downloaded: true, ..self }
    }

    /// Fresh settings for a current month: the audio flag starts low.
    pub fn new(methods: CalculationMethods, location: Location, current_month: u32) -> (r: Self)
        ensures
            r == (PrayerSettings { methods, location, is_audio_downloaded: false, current_month }),
    {
        Self { methods, location, is_audio_downloaded: false, current_month }
    }

    /// The same settings with the audio-downloaded flag raised.
    pub fn with_audio_downloaded(self) -> (r: Self)
        ensures
            r == self.spec_with_audio_downloaded(),
    {
        Self { is_audio_downloaded: true, ..self }
    }
}

impl PartialEq for PrayerSettings {
    fn eq(&self, other: &PrayerSettings) -> (r: bool) {
        self.methods == other.methods && self.location == other.location
            && self.is_audio_downloaded == other.is_audio_downloaded && self.current_month
            == other.current_month
    }
}

impl Eq for PrayerSettings {

}

impl vstd::std_specs::cmp::PartialEqSpecImpl for PrayerSettings {
    open spec fn obeys_eq_spec() -> bool {
        true
    }

    open spec fn eq_spec(&self, other: &PrayerSettings) -> bool {
        self.spec_eq(*other)
    }
}

/// The cache fingerprint is asymmetric on purpose: fresh settings never
/// equal their own audio-downloaded image, while that image equals
/// itself, so a cache written before the audio download reads as stale
/// and a cache written after it reads as current.
pub proof fn lemma_fingerprint_asymmetry(s: PrayerSettings)
    requires
        !s.is_audio_downloaded,
    ensures
        !s.spec_eq(s.spec_with_audio_downloaded()),
        s.spec_with_audio_downloaded().spec_eq(s.spec_with_audio_downloaded()),
{
}

} // verus!
