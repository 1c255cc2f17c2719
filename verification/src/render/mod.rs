//! What the renderer works out before it talks to the graphics driver.

pub mod shader;
pub mod texture;
pub mod varray;
