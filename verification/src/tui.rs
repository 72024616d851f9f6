//! The state of the terminal view and what key presses do to it.

use vstd::prelude::*;

verus! {

/// The terminal view's state: whether it has been asked to quit.
#[derive(Debug)]
pub struct App {
    should_quit: bool,
}

impl View for App {
    type V = bool;

    /// Whether the view has been asked to quit.
    closed spec fn view(&self) -> bool {
        self.should_quit
    }
}

impl App {
    /// A running view.
    pub fn new() -> (r: App)
        ensures
            !r@,
    {
        App { should_quit: false }
    }

    /// Asks the view to quit.
    pub fn quit(&mut self)
        ensures
            final(self)@,
    {
        self.should_quit = true;
    }

    /// Whether the view has been asked to quit.
    pub fn should_quit(&self) -> (r: bool)
        ensures
            r == self@,
    {
        self.should_quit
    }
}

impl Default for App {
    fn default() -> (r: App)
        ensures
            !r@,
    {
        App::new()
    }
}

/// The key of a key press, as far as the view tells keys apart.
#[derive(Debug, Clone, Copy, PartialEq, Eq, Structural)]
pub enum KeyInput {
    /// A character key.
    Char(char),
    /// Any other key.
    Other,
}

/// A key press: the key and whether Control was held.
#[derive(Debug, Clone, Copy, PartialEq, Eq, Structural)]
pub struct KeyPress {
    pub code: KeyInput,
    pub control: bool,
}

/// Whether a key press asks the view to quit: 'q' or 'Q', or Control with
/// 'c' or 'C'.
pub open spec fn quits(key: KeyPress) -> bool {
    match key.code {
        KeyInput::Char(c) => c == 'q' || c == 'Q' || ((c == 'c' || c == 'C') && key.control),
        KeyInput::Other => false,
    }
}

/// Handles a key press: a quitting key asks the view to quit; any other
/// leaves it as it was.
pub fn handle_key_event(app: &mut App, key: KeyPress)
    ensures
        final(app)@ == (old(app)@ || quits(key)),
{
    match key.code {
        KeyInput::Char(c) => {
            if (c == 'c' || c == 'C') && key.control {
                app.quit();
            } else if c == 'q' || c == 'Q' {
                app.quit();
            }
        },
        KeyInput::Other => {},
    }
}

} // verus!
