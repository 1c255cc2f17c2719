//! Terminal colour codes of the log levels.

use vstd::prelude::*;

verus! {

/// Number of colour codes: one for each of four levels and the reset code.
pub const COLOR_COUNT: usize = 5;

/// The colour codes a logger starts with: white for trace, green for info,
/// yellow for warn, red for error and fatal, and the reset code.
pub open spec fn default_colors() -> Seq<i32> {
    seq![37i32, 32i32, 33i32, 31i32, 0i32]
}

/// The colour code of each log level.
pub struct Colors {
    colorcodes: [i32; 5],
}

impl View for Colors {
    type V = Seq<i32>;

    closed spec fn view(&self) -> Seq<i32> {
        self.colorcodes@
    }
}

impl Colors {
    /// There are always `COLOR_COUNT` codes.
    pub proof fn lemma_len(&self)
        ensures
            self@.len() == COLOR_COUNT,
    {
    }

    /// Returns the code at `log_level`.
    pub fn get_color(&self, log_level: usize) -> (color: i32)
        requires
            log_level < COLOR_COUNT,
        ensures
            color == self@[log_level as int],
    {
        self.colorcodes[log_level]
    }

    /// Makes the default codes.
    pub fn new() -> (colors: Colors)
        ensures
            colors@ == default_colors(),
    {
        let colors = Colors {
            colorcodes: [
                37,  // white: trace
                32,  // green: info
                33,  // yellow: warn
                31,  // red: error and fatal
                0,  // reset
            ],
        };
        assert(colors@ =~= default_colors());
        colors
    }

    /// Replaces the code at `log_level`.
    pub fn set_color(&mut self, log_level: usize, color: i32)
        requires
            log_level < COLOR_COUNT,
        ensures
            final(self)@ == old(self)@.update(log_level as int, color),
    {
        self.colorcodes[log_level] = color;
        assert(self@ =~= old(self)@.update(log_level as int, color));
    }
}

} // verus!
