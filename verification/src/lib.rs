//! The core of a small rendering engine, as far as it works on whole
//! numbers and bytes: the tables and the cell geometry of lattice noise,
//! the framing of PNG streams, the layout of vertex buffers, the pixels of
//! textures, the kinds of shaders, and what a logger and a window decide.
//!
//! Arithmetic on real numbers, files, the clock and the graphics driver are
//! left to the caller.

pub mod log;
pub mod math;
pub mod render;
pub mod ressources;
pub mod utils;
pub mod window;
