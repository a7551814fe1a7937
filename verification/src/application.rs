//! Foreground-application tracking: which window observations are recorded,
//! which become references to the previous record, and how stored rows turn
//! back into application logs.

use vstd::prelude::*;

use crate::db::Timestamp;
use crate::paths::{is_separator_char, main_separator};
use crate::text::{chars_eq, chars_of, owned, string_from_chars};
use crate::time::{spec_utc_in_range, utc_timestamp_in_range};

verus! {

/// The event kind under which application logs are recorded.
pub const KIND: &'static str = "application";

/// One observation of the foreground window.
#[derive(Clone, Debug)]
pub struct WinInfo {
    pub process_id: i64,
    pub path: String,
    pub name: String,
    pub title: String,
    pub x: i64,
    pub y: i64,
    pub width: i64,
    pub height: i64,
}

/// Two observations describe the same window (every field equal).
pub open spec fn same_window(a: WinInfo, b: WinInfo) -> bool {
    &&& a.process_id == b.process_id
    &&& a.path@ == b.path@
    &&& a.name@ == b.name@
    &&& a.title@ == b.title@
    &&& a.x == b.x
    &&& a.y == b.y
    &&& a.width == b.width
    &&& a.height == b.height
}

impl WinInfo {
    /// Whether `self` and `other` describe the same window.
    pub fn same_as(&self, other: &WinInfo) -> (r: bool)
        ensures
            r == same_window(*self, *other),
    {
        self.process_id == other.process_id && self.path == other.path && self.name == other.name
            && self.title == other.title && self.x == other.x && self.y == other.y && self.width
            == other.width && self.height == other.height
    }

    /// A field-by-field copy.
    pub fn duplicate(&self) -> (r: WinInfo)
        ensures
            r == *self,
    {
        WinInfo {
            process_id: self.process_id,
            path: self.path.clone(),
            name: self.name.clone(),
            title: self.title.clone(),
            x: self.x,
            y: self.y,
            width: self.width,
            height: self.height,
        }
    }
}

/// The text after the last `sep` in `s` (all of `s` when it holds none), which
/// is what `s.split(sep).last()` yields.
pub open spec fn last_component(s: Seq<char>, sep: char) -> Seq<char>
    decreases s.len(),
{
    if s.len() == 0 {
        s
    } else if s.last() == sep {
        Seq::empty()
    } else {
        last_component(s.drop_last(), sep).push(s.last())
    }
}

/// The last path component of `path` split at `sep`.
pub fn last_path_component(path: &str, sep: char) -> (r: Vec<char>)
    ensures
        r@ == last_component(path@, sep),
{
    let cs = chars_of(path);
    let mut start: usize = cs.len();
    proof {
        assert(cs@.take(cs@.len() as int) =~= cs@);
        assert(cs@.subrange(cs@.len() as int, cs@.len() as int) =~= Seq::<char>::empty());
        assert(last_component(path@, sep).add(Seq::<char>::empty()) =~= last_component(path@, sep));
    }
    while start > 0 && cs[start - 1] != sep
        invariant
            start <= cs.len(),
            cs@ == path@,
            last_component(path@, sep) == last_component(cs@.take(start as int), sep).add(
                cs@.subrange(start as int, cs@.len() as int),
            ),
        decreases start,
    {
        let ghost t = cs@.take(start as int);
        assert(t.drop_last() =~= cs@.take(start - 1));
        assert(cs@.subrange(start - 1, cs@.len() as int) =~= seq![t.last()].add(
            cs@.subrange(start as int, cs@.len() as int),
        ));
        assert(last_component(t.drop_last(), sep).push(t.last()).add(
            cs@.subrange(start as int, cs@.len() as int),
        ) =~= last_component(t.drop_last(), sep).add(
            cs@.subrange(start - 1, cs@.len() as int),
        ));
        start = start - 1;
    }
    proof {
        let t = cs@.take(start as int);
        if start == 0 {
            assert(t =~= Seq::<char>::empty());
        }
        assert(cs@.take(cs@.len() as int) =~= cs@);
    }
    let mut r: Vec<char> = Vec::new();
    let mut i: usize = start;
    while i < cs.len()
        invariant
            start <= i <= cs.len(),
            r@ =~= cs@.subrange(start as int, i as int),
        decreases cs.len() - i,
    {
        r.push(cs[i]);
        i = i + 1;
    }
    proof {
        assert(last_component(cs@.take(start as int), sep) =~= Seq::<char>::empty());
    }
    r
}

/// The names of the applications whose windows are never recorded: the lock
/// screen and the screen saver on Windows (where the separator is `\`), none
/// elsewhere.
pub open spec fn ignored_app(name: Seq<char>, sep: char) -> bool {
    sep == '\\' && (name == "LockApp.exe"@ || name == "scrnsave.scr"@)
}

/// Whether the application at `path` is one whose windows are never recorded,
/// judged by the last component of `path` split at `sep`.
pub fn is_ignored_app(path: &str, sep: char) -> (r: bool)
    ensures
        r == ignored_app(last_component(path@, sep), sep),
{
    if sep != '\\' {
        return false;
    }
    let last = last_path_component(path, sep);
    let lock = chars_of("LockApp.exe");
    let saver = chars_of("scrnsave.scr");
    chars_eq(&last, &lock) || chars_eq(&last, &saver)
}

/// What the tracker does with one observation.
#[derive(Debug)]
pub enum TrackerAction {
    /// Nothing is recorded.
    Skip,
    /// The window is unchanged: record a reference to the log `ref_id` whose
    /// application info is `info_id`.
    InsertRef { ref_id: i64, info_id: i64 },
    /// A new window: record it as a new application log.
    InsertNew(WinInfo),
}

/// The foreground-window tracker's memory between two observations: the last
/// recorded window and the ids of its log and application info (`-1` before
/// anything was recorded).
#[derive(Debug)]
pub struct AppTracker {
    pub last: Option<WinInfo>,
    pub last_id: i64,
    pub last_info_id: i64,
}

/// The action taken for the observation `observed` in state `t`, the platform
/// separator being `sep`.
pub open spec fn tracker_action(t: AppTracker, observed: Option<WinInfo>, sep: char) -> TrackerAction {
    match observed {
        None => TrackerAction::Skip,
        Some(w) => if t.last is Some && same_window(w, t.last->0) {
            TrackerAction::InsertRef { ref_id: t.last_id, info_id: t.last_info_id }
        } else if ignored_app(last_component(w.path@, sep), sep) {
            TrackerAction::Skip
        } else {
            TrackerAction::InsertNew(w)
        },
    }
}

impl AppTracker {
    /// The state before the first observation.
    pub fn new() -> (t: AppTracker)
        ensures
            t.last is None,
            t.last_id == -1,
            t.last_info_id == -1,
    {
        AppTracker { last: None, last_id: -1, last_info_id: -1 }
    }

    /// Decides what to record for one observation of the foreground window
    /// (`None` when none could be read); the platform separator is that of the
    /// build.
    pub fn observe(&self, observed: Option<WinInfo>) -> (a: TrackerAction)
        ensures
            exists|sep: char| is_separator_char(sep) && a == tracker_action(*self, observed, sep),
    {
        let sep = main_separator();
        self.observe_with(observed, sep)
    }

    /// Decides what to record for one observation, the path separator being
    /// `sep`.
    pub fn observe_with(&self, observed: Option<WinInfo>, sep: char) -> (a: TrackerAction)
        ensures
            a == tracker_action(*self, observed, sep),
    {
        match observed {
            None => TrackerAction::Skip,
            Some(w) => {
                let same = match &self.last {
                    Some(l) => w.same_as(l),
                    None => false,
                };
                if same {
                    TrackerAction::InsertRef { ref_id: self.last_id, info_id: self.last_info_id }
                } else if is_ignored_app(w.path.as_str(), sep) {
                    TrackerAction::Skip
                } else {
                    TrackerAction::InsertNew(w)
                }
            },
        }
    }

    /// Remembers that `win` was recorded as the log `log_id` with application
    /// info `info_id`.
    pub fn record_inserted(&mut self, win: WinInfo, log_id: i64, info_id: i64)
        ensures
            final(self).last == Some(win),
            final(self).last_id == log_id,
            final(self).last_info_id == info_id,
    {
        self.last = Some(win);
        self.last_id = log_id;
        self.last_info_id = info_id;
    }
}

/// Once a window has been recorded, observing the same window again records a
/// reference to that log and its application info, whatever the platform.
pub proof fn law_repeated_window_is_reference(
    t: AppTracker,
    win: WinInfo,
    log_id: i64,
    info_id: i64,
    again: WinInfo,
    sep: char,
)
    requires
        same_window(again, win),
    ensures
        tracker_action(
            AppTracker { last: Some(win), last_id: log_id, last_info_id: info_id },
            Some(again),
            sep,
        ) == (TrackerAction::InsertRef { ref_id: log_id, info_id: info_id }),
{
}

/// The window is taken as unchanged exactly when it equals the last recorded
/// window in every field (process id, path, name, title, position and size):
/// then a reference to the last log is recorded; a window that differs in any
/// field, and is not of an ignored application, is recorded as a new log.
pub proof fn law_reference_only_for_an_identical_window(t: AppTracker, w: WinInfo, sep: char)
    ensures
        tracker_action(t, Some(w), sep) is InsertRef <==> (t.last is Some && {
            let l = t.last->0;
            &&& w.process_id == l.process_id
            &&& w.path@ == l.path@
            &&& w.name@ == l.name@
            &&& w.title@ == l.title@
            &&& w.x == l.x
            &&& w.y == l.y
            &&& w.width == l.width
            &&& w.height == l.height
        }),
        tracker_action(t, Some(w), sep) is InsertRef ==> tracker_action(t, Some(w), sep) == (TrackerAction::InsertRef {
            ref_id: t.last_id,
            info_id: t.last_info_id,
        }),
        !(tracker_action(t, Some(w), sep) is InsertRef) && !ignored_app(last_component(w.path@, sep), sep)
            ==> tracker_action(t, Some(w), sep) == TrackerAction::InsertNew(w),
{
}

/// An ignored application's window is never recorded as a new log.
pub proof fn law_ignored_app_never_inserted(t: AppTracker, w: WinInfo, sep: char)
    requires
        ignored_app(last_component(w.path@, sep), sep),
    ensures
        !(tracker_action(t, Some(w), sep) is InsertNew),
{
}

/// An observation that could not be read records nothing.
pub proof fn law_no_window_records_nothing(t: AppTracker, sep: char)
    ensures
        tracker_action(t, None, sep) is Skip,
{
}

/// A stored application log.
#[derive(Clone, Debug)]
pub struct ApplicationLog {
    pub id: i64,
    pub timestamp: i64,
    pub date: String,
    pub info_id: Option<i64>,
    pub path: String,
    pub name: Option<String>,
    pub process_id: Option<i64>,
    pub title: Option<String>,
    pub x: Option<i64>,
    pub y: Option<i64>,
    pub width: Option<i64>,
    pub height: Option<i64>,
    pub ref_id: Option<i64>,
}

impl Timestamp for ApplicationLog {
    open spec fn spec_timestamp(&self) -> i64 {
        self.timestamp
    }

    fn timestamp(&self) -> (t: i64) {
        self.timestamp
    }
}

impl ApplicationLog {
    /// The log to record for the window `win` observed at `now` (seconds since
    /// the epoch); id and date are placeholders until it is stored.
    pub fn from_window(win: WinInfo, now: i64) -> (log: ApplicationLog)
        ensures
            log.id == 0,
            log.timestamp == now,
            log.date@ == Seq::<char>::empty(),
            log.info_id is None,
            log.path == win.path,
            log.name == Some(win.name),
            log.process_id == Some(win.process_id),
            log.title == Some(win.title),
            log.x == Some(win.x),
            log.y == Some(win.y),
            log.width == Some(win.width),
            log.height == Some(win.height),
            log.ref_id is None,
    {
        ApplicationLog {
            id: 0,
            timestamp: now,
            date: String::new(),
            info_id: None,
            path: win.path,
            name: Some(win.name),
            process_id: Some(win.process_id),
            title: Some(win.title),
            x: Some(win.x),
            y: Some(win.y),
            width: Some(win.width),
            height: Some(win.height),
            ref_id: None,
        }
    }

    /// The log as stored: the given id, event date and application info id,
    /// every other field unchanged.
    pub fn stored_as(self, id: i64, date: String, info_id: i64) -> (log: ApplicationLog)
        ensures
            log == (ApplicationLog { id, date, info_id: Some(info_id), ..self }),
    {
        ApplicationLog { id, date, info_id: Some(info_id), ..self }
    }
}

/// Why a log cannot be recorded.
#[derive(Debug, PartialEq, Eq, Structural)]
pub enum LogError {
    /// A new log must not refer to an earlier one.
    RefIdMustBeNone,
    /// A reference log must refer to an earlier one.
    RefIdMustBeSome,
    /// A reference log needs the ids of the log it refers to.
    LastIdsMustBeSome,
    /// The timestamp is outside the range of calendar dates.
    InvalidTimestamp,
}

/// The message of the error `e`.
pub open spec fn log_error_text(e: LogError) -> Seq<char> {
    match e {
        LogError::RefIdMustBeNone => "ref_id must be None"@,
        LogError::RefIdMustBeSome => "ref_id must be Some"@,
        LogError::LastIdsMustBeSome => "last_ids must be Some"@,
        LogError::InvalidTimestamp => "Invalid timestamp"@,
    }
}

impl LogError {
    /// The error's message.
    pub fn message(&self) -> (m: &'static str)
        ensures
            m@ == log_error_text(*self),
    {
        match self {
            LogError::RefIdMustBeNone => "ref_id must be None",
            LogError::RefIdMustBeSome => "ref_id must be Some",
            LogError::LastIdsMustBeSome => "last_ids must be Some",
            LogError::InvalidTimestamp => "Invalid timestamp",
        }
    }
}

/// Checks a new log before it is stored: it must not refer to another log and
/// its timestamp must be a calendar date.
pub fn check_new_log(log: &ApplicationLog) -> (r: Result<(), LogError>)
    ensures
        log.ref_id is Some ==> r == Err::<(), LogError>(LogError::RefIdMustBeNone),
        log.ref_id is None && !spec_utc_in_range(log.timestamp as int) ==> r == Err::<(), LogError>(
            LogError::InvalidTimestamp,
        ),
        log.ref_id is None && spec_utc_in_range(log.timestamp as int) ==> r == Ok::<(), LogError>(()),
{
    if log.ref_id.is_some() {
        return Err(LogError::RefIdMustBeNone);
    }
    if !utc_timestamp_in_range(log.timestamp) {
        return Err(LogError::InvalidTimestamp);
    }
    Ok(())
}

/// Checks a reference log before it is stored and gives the `(ref_id,
/// info_id)` it is to be stored with.
pub fn check_reference_log(log: &ApplicationLog, last_ids: Option<(i64, i64)>) -> (r: Result<
    (i64, i64),
    LogError,
>)
    ensures
        log.ref_id is None ==> r == Err::<(i64, i64), LogError>(LogError::RefIdMustBeSome),
        log.ref_id is Some && last_ids is None ==> r == Err::<(i64, i64), LogError>(
            LogError::LastIdsMustBeSome,
        ),
        log.ref_id is Some && last_ids is Some && !spec_utc_in_range(log.timestamp as int) ==> r
            == Err::<(i64, i64), LogError>(LogError::InvalidTimestamp),
        log.ref_id is Some && last_ids is Some && spec_utc_in_range(log.timestamp as int) ==> r
            == Ok::<(i64, i64), LogError>(last_ids->0),
{
    if log.ref_id.is_none() {
        return Err(LogError::RefIdMustBeSome);
    }
    match last_ids {
        None => Err(LogError::LastIdsMustBeSome),
        Some(ids) => {
            if !utc_timestamp_in_range(log.timestamp) {
                return Err(LogError::InvalidTimestamp);
            }
            Ok(ids)
        },
    }
}

/// One row of the day listing of application logs: the event timestamp, the
/// log's own columns (taken from the referenced log where its own are empty)
/// and the application info.
#[derive(Debug)]
pub struct ApplicationRow {
    pub timestamp: i64,
    pub id: i64,
    pub process_id: Option<i64>,
    pub title: Option<String>,
    pub x: Option<i64>,
    pub y: Option<i64>,
    pub width: Option<i64>,
    pub height: Option<i64>,
    pub ref_id: Option<i64>,
    pub info_id: i64,
    pub path: String,
    pub name: Option<String>,
}

/// The application log that the row `row` of the listing for `date` stands for.
pub open spec fn log_of_row(row: ApplicationRow, date: Seq<char>, log: ApplicationLog) -> bool {
    &&& log.id == row.id
    &&& log.timestamp == row.timestamp
    &&& log.date@ == date
    &&& log.info_id == Some(row.info_id)
    &&& log.path == row.path
    &&& log.name == row.name
    &&& log.process_id == row.process_id
    &&& log.title == row.title
    &&& log.x == row.x
    &&& log.y == row.y
    &&& log.width == row.width
    &&& log.height == row.height
    &&& log.ref_id == row.ref_id
}

/// Turns the rows of the day listing for `date` into application logs, in order.
pub fn logs_from_rows(rows: Vec<ApplicationRow>, date: &str) -> (logs: Vec<ApplicationLog>)
    ensures
        logs.len() == rows.len(),
        forall|i: int| 0 <= i < rows.len() ==> log_of_row(#[trigger] rows@[i], date@, logs@[i]),
{
    let mut logs: Vec<ApplicationLog> = Vec::new();
    let ghost rows0 = rows@;
    for row in it: rows.into_iter()
        invariant
            it.seq() == rows0,
            logs.len() == it.index(),
            forall|i: int| 0 <= i < logs.len() ==> log_of_row(#[trigger] rows0[i], date@, logs@[i]),
    {
        let log = ApplicationLog {
            id: row.id,
            timestamp: row.timestamp,
            date: owned(date),
            info_id: Some(row.info_id),
            path: row.path,
            name: row.name,
            process_id: row.process_id,
            title: row.title,
            x: row.x,
            y: row.y,
            width: row.width,
            height: row.height,
            ref_id: row.ref_id,
        };
        logs.push(log);
    }
    logs
}

} // verus!
