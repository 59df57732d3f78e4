//! Helpers of the value conversions.

pub mod value;
