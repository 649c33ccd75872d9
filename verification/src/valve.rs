//! The valve, as the daemon wants it to stand.
use vstd::prelude::*;

verus! {

/// The level that the valve's relay is to be driven to.
#[derive(Debug)]
pub struct Valve {
    pub open: bool,
}

impl Valve {
    /// A valve starts closed.
    pub fn new() -> (valve: Valve)
        ensures
            !valve.open,
    {
        Valve { open: false }
    }

    /// Opens the valve.
    pub fn open(&mut self)
        ensures
            final(self).open,
    {
        self.open = true;
    }

    /// Closes the valve.
    pub fn close(&mut self)
        ensures
            !final(self).open,
    {
        self.open = false;
    }
}

} // verus!
