//! Calendar and clock value types with exact, overflow-checked arithmetic.
//!
//! The crate provides the proleptic-Gregorian [`Date`] with its
//! ordinal/calendar conversions, the nanosecond-precision [`Time`] of day,
//! the signed [`Duration`] with its sign-normalization and checked
//! arithmetic, the signed [`UtcOffset`], the composite
//! [`PrimitiveDateTime`] and [`OffsetDateTime`], the cyclic [`Weekday`],
//! and a validator for format-specifier strings.

pub mod calendar;
pub mod date;
pub mod duration;
pub mod error;
pub mod format_description;
pub mod generation;
pub mod offset_date_time;
pub mod primitive_date_time;
pub mod time;
pub mod utc_offset;
pub mod weekday;

pub use date::Date;
pub use duration::Duration;
pub use error::Error;
pub use offset_date_time::OffsetDateTime;
pub use primitive_date_time::PrimitiveDateTime;
pub use time::Time;
pub use utc_offset::UtcOffset;
pub use weekday::Weekday;
