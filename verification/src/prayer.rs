//! An individual prayer: a label, a time of day, and a transient
//! performed flag.

use crate::clock::TimeOfDay;
use crate::types::PrayerName;
use vstd::prelude::*;

verus! {

/// Represents an individual prayer.
///
/// The `performed` flag is derived state: it is recomputed from the
/// current moment on every load and never trusted from a serialized
/// snapshot.
#[derive(Debug, Clone, Copy, PartialEq, Eq, Structural)]
pub struct Prayer {
    pub name: PrayerName,
    pub time: TimeOfDay,
    pub performed: bool,
}

impl Prayer {
    /// The same prayer with its performed flag replaced.
    pub open spec fn spec_with_performed(self, performed: bool) -> Prayer {
        Prayer { performed, ..self }
    }

    /// A structurally valid prayer: its time is a valid time of day.
    pub open spec fn valid(self) -> bool {
        self.time.valid()
    }

    pub fn new(name: PrayerName, time: TimeOfDay, performed: bool) -> (r: Self)
        ensures
            r == (Prayer { name, time, performed }),
    {
        Self { name, time, performed }
    }

    /// Checks if the prayer has been performed.
    pub fn is_performed(&self) -> (r: bool)
        ensures
            r == self.performed,
    {
        self.performed
    }

    /// Set or clear the performed flag, leaving name and time unchanged.
    pub fn set_performed(&mut self, is_performed: bool)
        ensures
            *final(self) == old(self).spec_with_performed(is_performed),
    {
        self.performed = is_performed;
    }

    /// Gets the prayer name.
    pub fn get_name(&self) -> (r: PrayerName)
        ensures
            r == self.name,
    {
        self.name
    }

    /// Gets the prayer time.
    pub fn get_time(&self) -> (r: TimeOfDay)
        ensures
            r == self.time,
    {
        self.time
    }
}

/// Prayers order by canonical kind first, then by time of day, as
/// seconds since midnight.
pub open spec fn spec_prayer_cmp(a: Prayer, b: Prayer) -> core::cmp::Ordering {
    if a.name.spec_ordinal() < b.name.spec_ordinal() {
        core::cmp::Ordering::Less
    } else if a.name.spec_ordinal() > b.name.spec_ordinal() {
        core::cmp::Ordering::Greater
    } else if a.time.spec_seconds() < b.time.spec_seconds() {
        core::cmp::Ordering::Less
    } else if a.time.spec_seconds() > b.time.spec_seconds() {
        core::cmp::Ordering::Greater
    } else {
        core::cmp::Ordering::Equal
    }
}

impl PartialOrd for Prayer {
    fn partial_cmp(&self, other: &Prayer) -> (r: Option<core::cmp::Ordering>) {
        let a = self.name.ordinal();
        let b = other.name.ordinal();
        if a < b {
            Some(core::cmp::Ordering::Less)
        } else if a > b {
            Some(core::cmp::Ordering::Greater)
        } else {
            let (sa, ta) = (self.time, other.time);
            let x = sa.hour as u32 * 3600 + sa.minute as u32 * 60 + sa.second as u32;
            let y = ta.hour as u32 * 3600 + ta.minute as u32 * 60 + ta.second as u32;
            if x < y {
                Some(core::cmp::Ordering::Less)
            } else if x > y {
                Some(core::cmp::Ordering::Greater)
            } else {
                Some(core::cmp::Ordering::Equal)
            }
        }
    }
}

impl vstd::std_specs::cmp::PartialOrdSpecImpl for Prayer {
    open spec fn obeys_partial_cmp_spec() -> bool {
        true
    }

    open spec fn partial_cmp_spec(&self, other: &Prayer) -> Option<core::cmp::Ordering> {
        Some(spec_prayer_cmp(*self, *other))
    }
}

} // verus!
