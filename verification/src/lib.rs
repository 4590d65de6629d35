//! Ummah is a library for obtaining, caching and displaying the prayer
//! times published as a monthly CSV feed.
//!
//! The core of the library is verified: the time and date parsers, the
//! CSV record mapper, the performed-status rule, the query builder, the
//! cache-invalidation policy, the month container and the cache codec all
//! carry contracts that state exactly what they compute.

pub mod arguments;
pub mod cache;
pub mod clock;
pub mod codec;
pub mod csv_parser;
pub mod date;
pub mod day;
pub mod html;
pub mod month;
pub mod prayer;
pub mod query;
pub mod samples;
pub mod settings;
pub mod text;
pub mod types;

pub use crate::arguments::PrayerArguments;
pub use crate::cache::{CacheState, FetchPlan};
pub use crate::clock::{get_performed_status, Moment, TimeOfDay};
pub use crate::codec::ByteParser;
pub use crate::csv_parser::CSVPrayer;
pub use crate::date::Date;
pub use crate::day::Day;
pub use crate::month::Month;
pub use crate::prayer::Prayer;
pub use crate::query::PrayerQueryBuilder;
pub use crate::samples::{create_test_day, create_test_month, create_test_prayers};
pub use crate::settings::{CalculationMethods, Location, PrayerSettings};
pub use crate::types::{AsrMethod, LatitudeMethod, PrayerMethod, PrayerName, UmmahError, UmmahResult};
