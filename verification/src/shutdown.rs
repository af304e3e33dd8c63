//! The latch by which a connection handler remembers that the server is
//! shutting down.
use vstd::prelude::*;

verus! {

/// Whether the shutdown notice has arrived. Once it has, it has for good.
#[derive(Debug)]
pub struct Shutdown {
    fired: bool,
}

impl Shutdown {
    /// Whether the notice has arrived.
    pub closed spec fn fired(&self) -> bool {
        self.fired
    }

    /// A latch for a handler that has not been told to shut down.
    pub fn new() -> (s: Self)
        ensures
            !s.fired(),
    {
        Shutdown { fired: false }
    }

    /// Whether the notice has arrived.
    pub fn is_shutdown(&self) -> (b: bool)
        ensures
            b == self.fired(),
    {
        self.fired
    }

    /// Records that the notice has arrived. A second notice changes
    /// nothing.
    pub fn fire(&mut self)
        ensures
            final(self).fired(),
    {
        self.fired = true;
    }
}

} // verus!
