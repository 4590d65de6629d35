//! The program arguments, as plain data: what the command line works out
//! to once parsed. Argument parsing itself lives with the program around
//! the library.

use crate::settings::{CalculationMethods, Location, PrayerSettings};
use crate::types::{AsrMethod, LatitudeMethod, PrayerMethod};
use vstd::prelude::*;

verus! {

/// Gets prayer times from www.salahtimes.com/uk.
#[derive(Debug, Clone)]
pub struct PrayerArguments {
    /// Latitude method.
    pub latitude_method: LatitudeMethod,
    /// Source of prayer calculation.
    pub prayer_method: PrayerMethod,
    /// Asr time method.
    pub asr_method: AsrMethod,
    /// The month to pull the timetable from.
    pub month: Option<u32>,
    /// Country.
    pub country: String,
    /// City.
    pub city: String,
    /// Get today's times.
    pub today: bool,
    /// Exports times to an HTML file.
    pub export: bool,
    /// Generate default CSS for the HTML file; if not set, a template
    /// CSS is generated for custom editing.
    pub generate_css: bool,
    /// Clear cache.
    pub clear_cache: bool,
    /// Specific output audio device.
    pub output_device: String,
}

impl PrayerArguments {
    /// Get prayer calculation settings, stamped with the current month.
    pub fn settings(&self, current_month: u32) -> (r: PrayerSettings)
        ensures
            r.methods == (CalculationMethods {
                latitude: self.latitude_method,
                organisation: self.prayer_method,
                asr: self.asr_method,
            }),
            r.location.country@ == self.country@,
            r.location.city@ == self.city@,
            !r.is_audio_downloaded,
            r.current_month == current_month,
    {
        PrayerSettings::new(
            CalculationMethods {
                latitude: self.latitude_method,
                organisation: self.prayer_method,
                asr: self.asr_method,
            },
            Location { country: self.country.clone(), city: self.city.clone() },
            current_month,
        )
    }

    /// Clears cache.
    pub fn clear_cache(&self) -> (r: bool)
        ensures
            r == self.clear_cache,
    {
        self.clear_cache
    }

    /// Flag for selecting only today's prayer times.
    pub fn is_today_only(&self) -> (r: bool)
        ensures
            r == self.today,
    {
        self.today
    }

    /// Flag for exporting the timetable to an HTML file.
    pub fn export_enabled(&self) -> (r: bool)
        ensures
            r == self.export,
    {
        self.export
    }

    /// Flag for generating the default CSS file for the timetable.
    pub fn generate_default_css(&self) -> (r: bool)
        ensures
            r == self.generate_css,
    {
        self.generate_css
    }

    /// The chosen output audio device.
    pub fn get_output_audio_device(&self) -> (r: String)
        ensures
            r@ == self.output_device@,
    {
        self.output_device.clone()
    }

    /// The explicitly requested month, if any.
    pub fn month(&self) -> (r: Option<u32>)
        ensures
            r == self.month,
    {
        self.month
    }
}

} // verus!
