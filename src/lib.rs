//! Weather lookup logic: reading a weather provider's JSON answer into a
//! normalised record, with exact decimal arithmetic for the unit conversions.
pub mod compass;
pub mod decimal;
pub mod json;
pub mod weather;
pub mod report;
