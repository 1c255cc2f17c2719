//! Integer mathematics of the engine.

pub mod noise;
