//! What every recorder plugin offers.

use vstd::prelude::*;

verus! {

/// A recorder that can be started and stopped.
pub trait Plugin {
    /// Whether the plugin is recording.
    spec fn is_running(&self) -> bool;

    /// Starts recording.
    fn start(&mut self)
        ensures
            final(self).is_running(),
    ;

    /// Stops recording.
    fn stop(&mut self)
        ensures
            !final(self).is_running(),
    ;
}

} // verus!
