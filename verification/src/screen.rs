//! The first screenshot recorder: a plugin that is either running or stopped.

use vstd::prelude::*;

use crate::plugins::Plugin;

verus! {

/// The screenshot recorder's switch: while it is running, a screenshot is
/// taken every minute.
#[derive(Debug)]
pub struct ScreenshotPlugin {
    pub running: bool,
}

impl ScreenshotPlugin {
    /// A recorder that is not running.
    pub fn new() -> (p: ScreenshotPlugin)
        ensures
            !p.running,
    {
        ScreenshotPlugin { running: false }
    }
}

impl Plugin for ScreenshotPlugin {
    open spec fn is_running(&self) -> bool {
        self.running
    }

    fn start(&mut self) {
        self.running = true;
    }

    fn stop(&mut self) {
        self.running = false;
    }
}

} // verus!
