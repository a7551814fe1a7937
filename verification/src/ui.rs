//! The tray menu and window handling decisions.

use vstd::prelude::*;

use crate::text::str_eq_chars;
use crate::text::chars_of;

verus! {

/// The tray menu items, as (id, title), in menu order; a separator stands
/// before the last.
pub const TRAY_SHOW: (&'static str, &'static str) = ("show", "Show");
pub const TRAY_INFO: (&'static str, &'static str) = ("info", "Info");
pub const TRAY_QUIT: (&'static str, &'static str) = ("quit", "Quit");

/// What a click on a tray menu item does.
#[derive(Debug, Clone, Copy, PartialEq, Eq, Structural)]
pub enum TrayAction {
    Quit,
    ShowMain,
    ShowInfo,
    Nothing,
}

/// The action of the tray menu item `id`.
pub open spec fn tray_action_of(id: Seq<char>) -> TrayAction {
    if id == "quit"@ {
        TrayAction::Quit
    } else if id == "show"@ {
        TrayAction::ShowMain
    } else if id == "info"@ {
        TrayAction::ShowInfo
    } else {
        TrayAction::Nothing
    }
}

/// What a click on the tray menu item `id` does.
pub fn tray_action(id: &str) -> (a: TrayAction)
    ensures
        a == tray_action_of(id@),
{
    if str_eq_chars(id, &chars_of("quit")) {
        TrayAction::Quit
    } else if str_eq_chars(id, &chars_of("show")) {
        TrayAction::ShowMain
    } else if str_eq_chars(id, &chars_of("info")) {
        TrayAction::ShowInfo
    } else {
        TrayAction::Nothing
    }
}

/// A window the recorder shows: its label and the page it is built from
/// when it does not exist.
pub struct WindowTarget {
    pub label: &'static str,
    pub url: &'static str,
}

/// The main window.
pub fn main_window() -> (w: WindowTarget)
    ensures
        w.label@ == "main"@,
        w.url@ == "index.html"@,
{
    WindowTarget { label: "main", url: "index.html" }
}

/// The information window.
pub fn info_window() -> (w: WindowTarget)
    ensures
        w.label@ == "info"@,
        w.url@ == "info.html"@,
{
    WindowTarget { label: "info", url: "info.html" }
}

/// What showing an existing window does next.
#[derive(Debug, Clone, Copy, PartialEq, Eq, Structural)]
pub enum ShowStep {
    /// Restore the minimized window.
    Unminimize,
    /// Ask whether the window is visible.
    AskVisible,
    /// Give the visible window the focus.
    Focus,
    /// Show the hidden window.
    Show,
}

/// The first step of showing a window that exists, knowing whether it is minimized.
pub fn show_step_minimized(minimized: bool) -> (s: ShowStep)
    ensures
        s == (if minimized { ShowStep::Unminimize } else { ShowStep::AskVisible }),
{
    if minimized {
        ShowStep::Unminimize
    } else {
        ShowStep::AskVisible
    }
}

/// The step of showing a window that is not minimized, knowing whether it is visible.
pub fn show_step_visible(visible: bool) -> (s: ShowStep)
    ensures
        s == (if visible { ShowStep::Focus } else { ShowStep::Show }),
{
    if visible {
        ShowStep::Focus
    } else {
        ShowStep::Show
    }
}

} // verus!
