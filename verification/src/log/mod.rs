//! What a logger knows before it prints: its name and the colour of each
//! level.

pub mod color;

use crate::log::color::Colors;
use crate::utils::decimal::{append_signed, signed_decimal};
use vstd::prelude::*;
use vstd::string::StringExecFns;

verus! {

/// How grave a message is.
#[derive(Copy, Clone, Debug, PartialEq, Eq, Structural)]
pub enum LogLevel {
    TRACE,
    INFO,
    WARN,
    ERROR,
    FATAL,
}

/// Place of the reset code among the colour codes.
pub const RESET_SLOT: usize = 4;

impl LogLevel {
    /// The place of the level's code among the colour codes. Error and
    /// fatal share one.
    pub open spec fn spec_slot(self) -> int {
        match self {
            LogLevel::TRACE => 0,
            LogLevel::INFO => 1,
            LogLevel::WARN => 2,
            LogLevel::ERROR => 3,
            LogLevel::FATAL => 3,
        }
    }

    /// Computes the place of the level's code among the colour codes.
    pub fn slot(self) -> (s: usize)
        ensures
            s == self.spec_slot(),
            s < RESET_SLOT,
    {
        match self {
            LogLevel::TRACE => 0,
            LogLevel::INFO => 1,
            LogLevel::WARN => 2,
            LogLevel::ERROR => 3,
            LogLevel::FATAL => 3,
        }
    }
}

/// The line of a message: the escape sequence of the opening colour, the
/// time in square brackets, the name of the logger, a colon, the content,
/// and the escape sequence of the closing colour.
pub open spec fn spec_line(
    open: int,
    time: Seq<char>,
    name: Seq<char>,
    content: Seq<char>,
    close: int,
) -> Seq<char> {
    "\x1B["@ + signed_decimal(open) + "m["@ + time + "]"@ + name + ": "@ + content + " \x1B["@
        + signed_decimal(close) + "m"@
}

/// A named logger with its colours.
pub struct Logger {
    name: String,
    colorpicker: Colors,
}

impl Logger {
    /// The name of the logger.
    pub closed spec fn name_view(&self) -> Seq<char> {
        self.name@
    }

    /// The colour codes of the logger.
    pub closed spec fn colors(&self) -> Seq<i32> {
        self.colorpicker@
    }

    /// Makes a logger with the default colours.
    pub fn new(name: String) -> (logger: Self)
        ensures
            logger.name_view() == name@,
            logger.colors() == color::default_colors(),
    {
        Self { name: name, colorpicker: Colors::new() }
    }

    /// Returns the name of the logger.
    pub fn name(&self) -> (n: &str)
        ensures
            n@ == self.name_view(),
    {
        self.name.as_str()
    }

    /// Returns the code that opens a message of the given level.
    pub fn color_of(&self, level: LogLevel) -> (code: i32)
        ensures
            code == self.colors()[level.spec_slot()],
    {
        self.colorpicker.get_color(level.slot())
    }

    /// Returns the code that closes every message.
    pub fn reset_color(&self) -> (code: i32)
        ensures
            code == self.colors()[RESET_SLOT as int],
    {
        self.colorpicker.get_color(RESET_SLOT)
    }

    /// Writes the line of a message of the given level, content and time.
    pub fn line(&self, level: LogLevel, time: &str, content: &str) -> (text: String)
        ensures
            text@ == spec_line(
                self.colors()[level.spec_slot()] as int,
                time@,
                self.name_view(),
                content@,
                self.colors()[RESET_SLOT as int] as int,
            ),
    {
        let mut text = String::from_str("\x1B[");
        append_signed(&mut text, self.color_of(level));
        text.append("m[");
        text.append(time);
        text.append("]");
        text.append(self.name.as_str());
        text.append(": ");
        text.append(content);
        text.append(" \x1B[");
        append_signed(&mut text, self.reset_color());
        text.append("m");
        text
    }

    /// Replaces the code of one level.
    pub fn set_color(&mut self, level: LogLevel, code: i32)
        ensures
            final(self).name_view() == old(self).name_view(),
            final(self).colors() == old(self).colors().update(level.spec_slot(), code),
    {
        self.colorpicker.set_color(level.slot(), code);
    }
}

} // verus!
