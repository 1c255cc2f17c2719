//! Colour values.

pub mod rgb;
