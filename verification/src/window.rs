//! The one thing the library needs to know of the window: whether it has
//! been asked to close.

use vstd::prelude::*;

verus! {

/// A key, as far as the library tells keys apart.
#[derive(Clone, Copy, Debug, PartialEq, Eq, Structural)]
pub enum Key {
    Escape,
    /// Any other key.
    Other,
}

/// What happened to a key.
#[derive(Clone, Copy, Debug, PartialEq, Eq, Structural)]
pub enum Action {
    Release,
    Press,
    Repeat,
}

/// An event of the window.
#[derive(Clone, Copy, Debug, PartialEq, Eq, Structural)]
pub enum WindowEvent {
    Key(Key, Action),
    /// Anything that is not a key event.
    Other,
}

impl WindowEvent {
    /// The event is a press of the escape key: the one event that asks the
    /// window to close.
    pub open spec fn asks_to_close(&self) -> bool {
        *self == WindowEvent::Key(Key::Escape, Action::Press)
    }
}

/// The window's close flag, as the library follows it.
#[derive(Clone, Copy, Debug)]
pub struct GlWindow {
    should_close: bool,
}

impl GlWindow {
    /// The window has been asked to close.
    pub closed spec fn closing(&self) -> bool {
        self.should_close
    }

    /// A window that has not been asked to close.
    pub fn new() -> (window: Self)
        ensures
            !window.closing(),
    {
        GlWindow { should_close: false }
    }

    pub fn should_close(&self) -> (closing: bool)
        ensures
            closing == self.closing(),
    {
        self.should_close
    }

    /// Takes one event. A press of the escape key asks the window to close;
    /// every other event leaves the window as it is. A window that has been
    /// asked to close stays so.
    pub fn handle_event(&mut self, event: WindowEvent)
        ensures
            final(self).closing() == (old(self).closing() || event.asks_to_close()),
    {
        match event {
            WindowEvent::Key(Key::Escape, Action::Press) => {
                self.should_close = true;
            },
            _ => {},
        }
    }
}

} // verus!
