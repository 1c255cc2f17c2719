//! Small helpers: colours, numbers as text and the time of day.

pub mod color;
pub mod decimal;
pub mod time;
