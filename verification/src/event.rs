//! The events the recorder sends to its windows.

use vstd::prelude::*;

use crate::application::ApplicationLog;
use crate::browser::BrowserLog;
use crate::filelog::FileLog;
use crate::search::HitsPerDay;

verus! {

/// The label under which every event is sent.
pub const EVENT_LABEL: &'static str = "immic-event";

/// The label of the main window.
pub const MAIN_WINDOW: &'static str = "main";

/// The label of the information window.
pub const INFO_WINDOW: &'static str = "info";

/// An event for the windows: a new log with the earlier hits of the same
/// kind per day, or a request to open the hourly view at a time.
#[derive(Debug)]
pub enum ImmicEvent {
    Application(ApplicationLog, Vec<HitsPerDay>),
    Browser(BrowserLog, Vec<HitsPerDay>),
    File(FileLog, Vec<HitsPerDay>),
    OpenHourly(i64),
}

} // verus!
