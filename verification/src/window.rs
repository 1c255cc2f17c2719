//! What the window does about the events it receives.

use vstd::prelude::*;

verus! {

/// The keys that the window tells apart.
#[derive(Clone, Copy, Debug, PartialEq, Eq, Structural)]
pub enum Key {
    Escape,
    Other,
}

/// What happened to a key.
#[derive(Clone, Copy, Debug, PartialEq, Eq, Structural)]
pub enum Action {
    Release,
    Press,
    Repeat,
}

/// An event of the window, as far as the window reacts to it.
#[derive(Clone, Copy, Debug, PartialEq, Eq, Structural)]
pub enum WindowEvent {
    Key(Key, Action),
    Other,
}

/// The window closes when the escape key is released, and on nothing else.
pub open spec fn closes(event: WindowEvent) -> bool {
    event == WindowEvent::Key(Key::Escape, Action::Release)
}

/// Tells whether the window is to close on `event`.
pub fn should_close(event: WindowEvent) -> (close: bool)
    ensures
        close == closes(event),
{
    match event {
        WindowEvent::Key(Key::Escape, Action::Release) => true,
        _ => false,
    }
}

} // verus!
