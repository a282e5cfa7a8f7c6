//! Token-classification and civil-time resolution engine for a timezone
//! conversion tool.
//!
//! Free-form tokens (date fragments, time fragments, a timezone name or
//! alias) are classified into at most one date, one time and one timezone,
//! parsed with a prioritized set of patterns, and folded into a civil
//! datetime plus optional zone.  A civil datetime is then resolved against a
//! zone's transition rules into zero, one or two instants.

pub mod civil;
pub mod scan;
pub mod timeparse;
pub mod dateparse;
pub mod strutil;
pub mod alias;
pub mod zones;
pub mod classify;
pub mod convert;
pub mod laws;

pub use classify::parse_dt_parts;
