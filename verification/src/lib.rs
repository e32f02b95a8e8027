//! Time-indexed values and rate curves, with every query and every
//! compounding schedule proved against an exact model.
//!
//! The library carries values without computing on them: it places them in
//! time, finds index ranges in sorted series, measures elapsed time as an
//! exact ratio, and lays out the legs over which a rate curve compounds.
//! Multiplying and exponentiating is left to the caller's number type.

pub mod date_time;
pub mod rate_curve;
pub mod time_comparable;
pub mod time_searchable;
pub mod time_series;
pub mod time_value;

pub use date_time::DateTime;
pub use date_time::DateTimeValue;
pub use rate_curve::CurveError;
pub use rate_curve::Discount;
pub use rate_curve::Leg;
pub use rate_curve::RateCurve;
pub use time_comparable::TimeComparable;
pub use time_searchable::TimeSearchable;
pub use time_series::DateTimeSeries;
pub use time_series::TimeSeries;
pub use time_series::YearTimeSeries;
pub use time_value::Ratio;
pub use time_value::Time;
pub use time_value::TimePoint;
pub use time_value::TimeValue;
pub use time_value::Year;
pub use time_value::YearValue;
pub use time_value::Years;
