//! The presenter that writes results to the terminal. What it prints is
//! I/O and lives with the program; the library holds the presenter itself.

use vstd::prelude::*;

verus! {

/// The presenter for the command line.
#[derive(Debug, Clone, Copy)]
pub struct CliPresenter;

impl CliPresenter {
    /// A presenter for the command line.
    pub fn new() -> (r: CliPresenter)
        ensures
            r == CliPresenter,
    {
        CliPresenter
    }
}

impl Default for CliPresenter {
    fn default() -> (r: CliPresenter)
        ensures
            r == CliPresenter,
    {
        CliPresenter::new()
    }
}

} // verus!
