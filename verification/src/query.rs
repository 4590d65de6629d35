//! Deterministic construction of the feed query string from settings and
//! a target month.

use crate::date::{days_in_month, spec_days_in_month, Date};
use crate::settings::{CalculationMethods, PrayerSettings};
use crate::text::{push_u32_chars, spec_dec_chars};
use crate::types::{AsrMethod, LatitudeMethod, PrayerMethod};
use vstd::prelude::*;
use vstd::string::StringExecFns;

verus! {

/// The query string selecting method codes, location and the first
/// through last calendar day of the target month, exactly as the remote
/// endpoint expects it.
pub open spec fn spec_query(
    methods: CalculationMethods,
    country: Seq<char>,
    city: Seq<char>,
    year: nat,
    month: nat,
    end_day: nat,
) -> Seq<char> {
    "https://www.salahtimes.com/"@ + "/"@ + country + "/"@ + city
        + "/csv?highlatitudemethod="@ + spec_dec_chars(methods.latitude.spec_code() as nat)
        + "&prayercalculationmethod="@ + spec_dec_chars(methods.organisation.spec_code() as nat)
        + "&asarcalculationmethod="@ + spec_dec_chars(methods.asr.spec_code() as nat) + "&start="@
        + spec_dec_chars(year) + "-"@ + spec_dec_chars(month) + "-01"@ + "&end="@ + spec_dec_chars(
        year,
    ) + "-"@ + spec_dec_chars(month) + "-"@ + spec_dec_chars(end_day)
}

/// Build the query for the month that `target` falls in: the range runs
/// from the first to the last calendar day of that month, leap years
/// accounted for.
fn build_query(methods: &CalculationMethods, country: &str, city: &str, target: &Date) -> (r:
    String)
    requires
        target.valid(),
    ensures
        r@ == spec_query(
            *methods,
            country@,
            city@,
            target.year as nat,
            target.month as nat,
            spec_days_in_month(target.year as int, target.month as int) as nat,
        ),
{
    let end_day = days_in_month(target.year, target.month);
    let mut q = String::new();
    q.append("https://www.salahtimes.com/");
    q.append("/");
    q.append(country);
    q.append("/");
    q.append(city);
    q.append("/csv?highlatitudemethod=");
    push_u32_chars(&mut q, methods.latitude.code() as u32);
    q.append("&prayercalculationmethod=");
    push_u32_chars(&mut q, methods.organisation.code() as u32);
    q.append("&asarcalculationmethod=");
    push_u32_chars(&mut q, methods.asr.code() as u32);
    q.append("&start=");
    push_u32_chars(&mut q, target.year);
    q.append("-");
    push_u32_chars(&mut q, target.month);
    q.append("-01");
    q.append("&end=");
    push_u32_chars(&mut q, target.year);
    q.append("-");
    push_u32_chars(&mut q, target.month);
    q.append("-");
    push_u32_chars(&mut q, end_day);
    proof {
        assert(q@ =~= spec_query(
            *methods,
            country@,
            city@,
            target.year as nat,
            target.month as nat,
            spec_days_in_month(target.year as int, target.month as int) as nat,
        ));
    }
    q
}

impl PrayerSettings {
    /// Generates the feed query out of these settings for the month that
    /// `target` falls in.
    pub fn query(&self, target: &Date) -> (r: String)
        requires
            target.valid(),
        ensures
            r@ == spec_query(
                self.methods,
                self.location.country@,
                self.location.city@,
                target.year as nat,
                target.month as nat,
                spec_days_in_month(target.year as int, target.month as int) as nat,
            ),
    {
        build_query(&self.methods, self.location.country.as_str(), self.location.city.as_str(), target)
    }
}

/// The same query assembled from loose parts.
pub struct PrayerQueryBuilder {
    pub high_latitude_method: LatitudeMethod,
    pub prayer_calculation_method: PrayerMethod,
    pub asr_calculation_method: AsrMethod,
    pub current_month: Date,
}

impl PrayerQueryBuilder {
    pub fn build(self, country: &str, city: &str) -> (r: String)
        requires
            self.current_month.valid(),
        ensures
            r@ == spec_query(
                (CalculationMethods {
                    latitude: self.high_latitude_method,
                    organisation: self.prayer_calculation_method,
                    asr: self.asr_calculation_method,
                }),
                country@,
                city@,
                self.current_month.year as nat,
                self.current_month.month as nat,
                spec_days_in_month(
                    self.current_month.year as int,
                    self.current_month.month as int,
                ) as nat,
            ),
    {
        let methods = CalculationMethods {
            latitude: self.high_latitude_method,
            organisation: self.prayer_calculation_method,
            asr: self.asr_calculation_method,
        };
        build_query(&methods, country, city, &self.current_month)
    }
}

} // verus!
