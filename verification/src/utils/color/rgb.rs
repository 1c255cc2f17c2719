//! Colours by their red, green and blue parts.

use vstd::prelude::*;

verus! {

/// A colour with an optional opacity.
#[derive(Clone, Copy, Debug, PartialEq, Eq, Structural)]
pub struct RgbColor {
    pub red: u8,
    pub green: u8,
    pub blue: u8,
    pub alpha: Option<u8>,
}

impl RgbColor {
    /// Makes a colour without an opacity.
    pub fn new(red: u8, green: u8, blue: u8) -> (color: Self)
        ensures
            color == (RgbColor { red, green, blue, alpha: None }),
    {
        Self { red, green, blue, alpha: None }
    }

    /// Returns the three parts in the order red, green, blue.
    pub fn to_vec(&self) -> (parts: Vec<u8>)
        ensures
            parts@ == seq![self.red, self.green, self.blue],
    {
        let mut parts: Vec<u8> = Vec::new();
        parts.push(self.red);
        parts.push(self.green);
        parts.push(self.blue);
        assert(parts@ =~= seq![self.red, self.green, self.blue]);
        parts
    }
}

} // verus!
