use vstd::prelude::*;

verus! {

/// The five daily prayers, in canonical order.
#[derive(Debug, Clone, Copy, PartialEq, Eq, Structural)]
pub enum PrayerName {
    Fajr,
    Dhuhr,
    Asr,
    Maghrib,
    Isha,
}

impl PrayerName {
    /// Position of this prayer in the canonical order.
    pub open spec fn spec_ordinal(self) -> int {
        match self {
            PrayerName::Fajr => 0,
            PrayerName::Dhuhr => 1,
            PrayerName::Asr => 2,
            PrayerName::Maghrib => 3,
            PrayerName::Isha => 4,
        }
    }

    /// Display name of the prayer.
    pub open spec fn spec_text(self) -> Seq<char> {
        match self {
            PrayerName::Fajr => "Fajr"@,
            PrayerName::Dhuhr => "Dhuhr"@,
            PrayerName::Asr => "Asr"@,
            PrayerName::Maghrib => "Maghrib"@,
            PrayerName::Isha => "Isha"@,
        }
    }

    pub fn ordinal(&self) -> (r: usize)
        ensures
            r == self.spec_ordinal(),
    {
        match self {
            PrayerName::Fajr => 0,
            PrayerName::Dhuhr => 1,
            PrayerName::Asr => 2,
            PrayerName::Maghrib => 3,
            PrayerName::Isha => 4,
        }
    }

    pub fn text(&self) -> (r: String)
        ensures
            r@ == self.spec_text(),
    {
        match self {
            PrayerName::Fajr => "Fajr".to_owned(),
            PrayerName::Dhuhr => "Dhuhr".to_owned(),
            PrayerName::Asr => "Asr".to_owned(),
            PrayerName::Maghrib => "Maghrib".to_owned(),
            PrayerName::Isha => "Isha".to_owned(),
        }
    }
}

/// The method to determine the height of the sun.
#[derive(Debug, Clone, Copy, PartialEq, Eq, Structural)]
pub enum LatitudeMethod {
    OneSeventh,
    AngleBased,
}

impl LatitudeMethod {
    /// Fixed integer tag transmitted on the wire.
    pub open spec fn spec_code(self) -> u8 {
        match self {
            LatitudeMethod::OneSeventh => 3,
            LatitudeMethod::AngleBased => 4,
        }
    }

    pub fn code(&self) -> (r: u8)
        ensures
            r == self.spec_code(),
    {
        match self {
            LatitudeMethod::OneSeventh => 3,
            LatitudeMethod::AngleBased => 4,
        }
    }
}

/// The organisation to base the calculations from.
#[derive(Debug, Clone, Copy, PartialEq, Eq, Structural)]
pub enum PrayerMethod {
    /// Muslim World League
    MWL,
    /// University of Islamic Sciences
    UIS,
    /// Islamic Society of North America
    ISNA,
}

impl PrayerMethod {
    /// Fixed integer tag transmitted on the wire.
    pub open spec fn spec_code(self) -> u8 {
        match self {
            PrayerMethod::MWL => 1,
            PrayerMethod::UIS => 3,
            PrayerMethod::ISNA => 5,
        }
    }

    pub fn code(&self) -> (r: u8)
        ensures
            r == self.spec_code(),
    {
        match self {
            PrayerMethod::MWL => 1,
            PrayerMethod::UIS => 3,
            PrayerMethod::ISNA => 5,
        }
    }
}

/// The school of thought to follow for the afternoon prayer.
#[derive(Debug, Clone, Copy, PartialEq, Eq, Structural)]
pub enum AsrMethod {
    Shafi,
    Hanafi,
}

impl AsrMethod {
    /// Fixed integer tag transmitted on the wire.
    pub open spec fn spec_code(self) -> u8 {
        match self {
            AsrMethod::Shafi => 1,
            AsrMethod::Hanafi => 2,
        }
    }

    pub fn code(&self) -> (r: u8)
        ensures
            r == self.spec_code(),
    {
        match self {
            AsrMethod::Shafi => 1,
            AsrMethod::Hanafi => 2,
        }
    }
}

/// Represents all possible library errors.
#[derive(Debug, Clone, Copy, PartialEq, Eq, Structural)]
pub enum UmmahError {
    /// A date or time field failed its pattern match.
    DateTime,
    /// Malformed CSV structure.
    Csv,
    /// A cache file is corrupt or schema-mismatched.
    Serde,
    /// Request or connect failure (raised by callers that do I/O).
    Network,
    /// Directory or file failure (raised by callers that do I/O).
    FileSystem,
    /// Decode or output-device failure (raised by callers that play audio).
    Audio,
}

impl UmmahError {
    /// Human-readable message of each error.
    pub open spec fn spec_message(self) -> Seq<char> {
        match self {
            UmmahError::DateTime => "Failed to parse time"@,
            UmmahError::Csv => "Failed to read CSV file"@,
            UmmahError::Serde => "Failed to (de)serialize"@,
            UmmahError::Network => "Failed to request times"@,
            UmmahError::FileSystem => "Failed to handle filesystem/IO"@,
            UmmahError::Audio => "Failed to play audio"@,
        }
    }

    /// Human-readable message for the error.
    pub fn message(&self) -> (r: String)
        ensures
            r@ == self.spec_message(),
    {
        let text = match self {
            UmmahError::DateTime => "Failed to parse time",
            UmmahError::Csv => "Failed to read CSV file",
            UmmahError::Serde => "Failed to (de)serialize",
            UmmahError::Network => "Failed to request times",
            UmmahError::FileSystem => "Failed to handle filesystem/IO",
            UmmahError::Audio => "Failed to play audio",
        };
        text.to_owned()
    }
}

/// Wrapper around [`Result`] for library operations.
pub type UmmahResult<T> = Result<T, UmmahError>;

} // verus!
