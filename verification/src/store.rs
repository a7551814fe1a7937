//! The order of database work when a log is stored, and the decisions taken
//! between two statements. The caller runs each requested statement and
//! hands back what the database answered; nothing here touches the database.

use vstd::prelude::*;

use crate::browser::{parse_url, spec_url_parts, url_split, BrowserError, BrowserLog};
use crate::application::{check_new_log, check_reference_log, ApplicationLog, LogError};
use crate::db::{div_toward_zero, event_stamp, local_day_of, EventStamp};
use crate::filelog::FileLog;
use crate::time::{spec_utc_in_range, spec_utc_stamp, MAX_UTC_SECS, MIN_UTC_SECS};

verus! {

/// What the database answered to the last requested statement.
#[derive(Debug)]
pub enum Reply {
    /// An insert made the row with this id.
    Inserted(i64),
    /// A lookup found the row with this id; the text column it was asked for.
    Found(i64, Option<String>),
    /// A lookup found no row.
    Missing,
    /// An update was made.
    Updated,
    /// A lookup failed for another reason than finding no row.
    Failed,
}

/// Why storing a log stopped.
#[derive(Debug)]
pub enum StoreError {
    /// The browser log cannot be stored (bad timestamp or URL).
    Browser(BrowserError),
    /// The log's timestamp is outside the range of calendar dates.
    InvalidTimestamp,
    /// The application log cannot be stored as it is.
    Log(LogError),
    /// A lookup failed for another reason than finding no row.
    LookupFailed,
    /// The answer does not fit the statement that was requested.
    UnexpectedReply,
}

/// `stamp` is what the event log stores for an event at `ts`.
pub open spec fn stamp_of(stamp: EventStamp, ts: i64) -> bool {
    &&& stamp.timestamp == ts
    &&& stamp.timeframe == div_toward_zero(ts as int, 60)
    &&& local_day_of(stamp.date@, ts as int)
}

/// A lookup found no row, or failed: both mean that the row is stored anew.
pub open spec fn missed(reply: Reply) -> bool {
    reply is Missing || reply is Failed
}

// ---------------------------------------------------------------------------
// Browser logs
// ---------------------------------------------------------------------------

/// A statement to run while a browser log is stored.
#[derive(Debug)]
pub enum BrowserStep {
    /// Record the event in the event log; answer `Inserted`.
    InsertEvent { stamp: EventStamp },
    /// Look up the origin; answer `Found(id, favicon)` or `Missing`.
    FindOrigin { origin: String },
    /// Set the favicon of the origin `origin_id`; answer `Updated`.
    SetFavIcon { origin_id: i64, fav_icon_url: Option<String> },
    /// Store a new origin; answer `Inserted`.
    InsertOrigin { origin: String, fav_icon_url: Option<String> },
    /// Look up the URL; answer `Found(id, _)` or `Missing`.
    FindUrl { url: String },
    /// Mark the URL `url_id` updated at `last_update`; answer `Updated`.
    TouchUrl { url_id: i64, last_update: i64 },
    /// Store a new URL; answer `Inserted`.
    InsertUrl { url: String, origin_id: i64, last_update: i64 },
    /// Look up the referrer's origin; answer `Found(id, _)` or `Missing`.
    FindReferrerOrigin { origin: String },
    /// Store the referrer's origin; answer `Inserted`.
    InsertReferrerOrigin { origin: String },
    /// Look up the referrer's URL; answer `Found(id, _)` or `Missing`.
    FindReferrerUrl { url: String },
    /// Store the referrer's URL; answer `Inserted`.
    InsertReferrerUrl { url: String, origin_id: i64 },
    /// Store the browser log itself; answer `Inserted`.
    InsertLog {
        event_id: i64,
        origin_id: i64,
        url_id: i64,
        url_query: Option<String>,
        title: Option<String>,
        referrer_id: Option<i64>,
        tab_id: Option<i64>,
        opener_tab_id: Option<i64>,
        window_id: Option<i64>,
    },
    /// Done: the browser log is stored with this id.
    Finished(i64),
}

/// Which answer the browser-log storing waits for.
#[derive(Debug, Clone, Copy, PartialEq, Eq, Structural)]
pub enum BrowserPhase {
    Event,
    Origin,
    FavIcon,
    NewOrigin,
    Url,
    Touch,
    NewUrl,
    ReferrerOrigin,
    NewReferrerOrigin,
    ReferrerUrl,
    NewReferrerUrl,
    Log,
    Done,
}

/// The storing of one browser log: the log, where it stands, and the ids and
/// texts gathered so far.
#[derive(Debug)]
pub struct BrowserStore {
    pub log: BrowserLog,
    pub phase: BrowserPhase,
    pub event_id: i64,
    pub origin: String,
    pub url: String,
    pub url_query: Option<String>,
    pub origin_id: i64,
    pub url_id: i64,
    pub referrer_origin: String,
    pub referrer_url: String,
    pub referrer_origin_id: i64,
}

/// The optional text `o` by its view.
pub open spec fn opt_view(o: Option<String>) -> Option<Seq<char>> {
    match o {
        Some(s) => Some(s@),
        None => None,
    }
}

/// `step` stores the log of `s` with the given referrer, all other ids from `s`.
pub open spec fn is_log_insert(s: BrowserStore, step: BrowserStep, referrer_id: Option<i64>) -> bool {
    step == (BrowserStep::InsertLog {
        event_id: s.event_id,
        origin_id: s.origin_id,
        url_id: s.url_id,
        url_query: s.url_query,
        title: s.log.title,
        referrer_id,
        tab_id: s.log.tab_id,
        opener_tab_id: s.log.opener_tab_id,
        window_id: s.log.window_id,
    })
}

/// What follows once the URL of `s` has its id, as the result `r`: without a
/// referrer, or with one that does not parse, the log is stored with no
/// referrer; else the referrer's origin is looked up.
pub open spec fn referrer_turn(s: BrowserStore, r: Result<(BrowserStore, BrowserStep), StoreError>) -> bool {
    let no_referrer = {
        &&& r matches Ok((n, step))
        &&& n == (BrowserStore { phase: BrowserPhase::Log, ..s })
        &&& is_log_insert(s, step, None)
    };
    match s.log.referrer {
        None => no_referrer,
        Some(rf) => match spec_url_parts(rf@) {
            None => no_referrer,
            Some(parts) => {
                &&& r matches Ok((n, step))
                &&& n.phase == BrowserPhase::ReferrerOrigin && n.log == s.log && n.event_id == s.event_id
                &&& n.origin_id == s.origin_id && n.url_id == s.url_id && n.url_query == s.url_query
                &&& n.referrer_origin@ == parts.0 && n.referrer_url@ == parts.1
                &&& step matches BrowserStep::FindReferrerOrigin { origin }
                &&& origin@ == parts.0
            },
        },
    }
}

/// The statement after the answer `reply` to the storing `s`, as the result `r` of `next`.
pub open spec fn browser_next(s: BrowserStore, reply: Reply, r: Result<(BrowserStore, BrowserStep), StoreError>) -> bool {
    match (s.phase, reply) {
        // the event is recorded: the URL is split, or storing stops
        (BrowserPhase::Event, Reply::Inserted(e)) => match spec_url_parts(s.log.url@) {
            None => r matches Err(StoreError::Browser(BrowserError::InvalidUrl(_))),
            Some(parts) => {
                &&& r matches Ok((n, step))
                &&& n.event_id == e && n.log == s.log && n.phase == BrowserPhase::Origin
                &&& (n.origin@, n.url@, opt_view(n.url_query)) == url_split(parts)
                &&& step matches BrowserStep::FindOrigin { origin }
                &&& origin@ == parts.0
            },
        },
        // a known origin keeps its id, and gets the log's favicon when it has none
        (BrowserPhase::Origin, Reply::Found(id, fav)) => {
            &&& r matches Ok((n, step))
            &&& if fav is None && s.log.fav_icon_url is Some {
                &&& n == (BrowserStore { phase: BrowserPhase::FavIcon, origin_id: id, ..s })
                &&& step == (BrowserStep::SetFavIcon { origin_id: id, fav_icon_url: s.log.fav_icon_url })
            } else {
                &&& n == (BrowserStore { phase: BrowserPhase::Url, origin_id: id, ..s })
                &&& step == (BrowserStep::FindUrl { url: s.url })
            }
        },
        // an unknown origin is stored with the log's favicon
        (BrowserPhase::Origin, Reply::Missing) | (BrowserPhase::Origin, Reply::Failed) => {
            &&& r matches Ok((n, step))
            &&& n == (BrowserStore { phase: BrowserPhase::NewOrigin, ..s })
            &&& step == (BrowserStep::InsertOrigin { origin: s.origin, fav_icon_url: s.log.fav_icon_url })
        },
        (BrowserPhase::FavIcon, Reply::Updated) => {
            &&& r matches Ok((n, step))
            &&& n == (BrowserStore { phase: BrowserPhase::Url, ..s })
            &&& step == (BrowserStep::FindUrl { url: s.url })
        },
        (BrowserPhase::NewOrigin, Reply::Inserted(id)) => {
            &&& r matches Ok((n, step))
            &&& n == (BrowserStore { phase: BrowserPhase::Url, origin_id: id, ..s })
            &&& step == (BrowserStep::FindUrl { url: s.url })
        },
        // a known URL is marked updated at the log's time; an unknown one is stored under the origin
        (BrowserPhase::Url, Reply::Found(id, _)) => {
            &&& r matches Ok((n, step))
            &&& n == (BrowserStore { phase: BrowserPhase::Touch, url_id: id, ..s })
            &&& step == (BrowserStep::TouchUrl { url_id: id, last_update: s.log.timestamp })
        },
        (BrowserPhase::Url, Reply::Missing) | (BrowserPhase::Url, Reply::Failed) => {
            &&& r matches Ok((n, step))
            &&& n == (BrowserStore { phase: BrowserPhase::NewUrl, ..s })
            &&& step == (BrowserStep::InsertUrl {
                url: s.url,
                origin_id: s.origin_id,
                last_update: s.log.timestamp,
            })
        },
        // once the URL has its id, the referrer follows
        (BrowserPhase::Touch, Reply::Updated) => referrer_turn(s, r),
        (BrowserPhase::NewUrl, Reply::Inserted(id)) => referrer_turn(BrowserStore { url_id: id, ..s }, r),
        // the referrer's origin and URL are found or stored; the log then refers to the URL
        (BrowserPhase::ReferrerOrigin, Reply::Found(id, _)) => {
            &&& r matches Ok((n, step))
            &&& n == (BrowserStore { phase: BrowserPhase::ReferrerUrl, referrer_origin_id: id, ..s })
            &&& step == (BrowserStep::FindReferrerUrl { url: s.referrer_url })
        },
        (BrowserPhase::ReferrerOrigin, Reply::Missing) | (BrowserPhase::ReferrerOrigin, Reply::Failed) => {
            &&& r matches Ok((n, step))
            &&& n == (BrowserStore { phase: BrowserPhase::NewReferrerOrigin, ..s })
            &&& step == (BrowserStep::InsertReferrerOrigin { origin: s.referrer_origin })
        },
        (BrowserPhase::NewReferrerOrigin, Reply::Inserted(id)) => {
            &&& r matches Ok((n, step))
            &&& n == (BrowserStore { phase: BrowserPhase::ReferrerUrl, referrer_origin_id: id, ..s })
            &&& step == (BrowserStep::FindReferrerUrl { url: s.referrer_url })
        },
        (BrowserPhase::ReferrerUrl, Reply::Found(id, _)) => {
            &&& r matches Ok((n, step))
            &&& n == (BrowserStore { phase: BrowserPhase::Log, ..s })
            &&& is_log_insert(s, step, Some(id))
        },
        (BrowserPhase::ReferrerUrl, Reply::Missing) | (BrowserPhase::ReferrerUrl, Reply::Failed) => {
            &&& r matches Ok((n, step))
            &&& n == (BrowserStore { phase: BrowserPhase::NewReferrerUrl, ..s })
            &&& step == (BrowserStep::InsertReferrerUrl {
                url: s.referrer_url,
                origin_id: s.referrer_origin_id,
            })
        },
        (BrowserPhase::NewReferrerUrl, Reply::Inserted(id)) => {
            &&& r matches Ok((n, step))
            &&& n == (BrowserStore { phase: BrowserPhase::Log, ..s })
            &&& is_log_insert(s, step, Some(id))
        },
        // the log is stored
        (BrowserPhase::Log, Reply::Inserted(id)) => {
            &&& r matches Ok((n, step))
            &&& n == (BrowserStore { phase: BrowserPhase::Done, ..s })
            &&& step == BrowserStep::Finished(id)
        },
        // any other answer does not fit the statement
        _ => r matches Err(StoreError::UnexpectedReply),
    }
}

impl BrowserStore {
    /// Begins storing `log`: its timestamp must be a calendar date; the
    /// first statement records the event.
    pub fn begin(log: BrowserLog) -> (r: Result<(BrowserStore, BrowserStep), StoreError>)
        ensures
            if spec_utc_in_range(log.timestamp as int) {
                &&& r matches Ok((n, step))
                &&& n.log == log && n.phase == BrowserPhase::Event
                &&& step matches BrowserStep::InsertEvent { stamp }
                &&& stamp_of(stamp, log.timestamp)
            } else {
                r matches Err(StoreError::InvalidTimestamp)
            },
    {
        let stamp = match event_stamp(log.timestamp) {
            None => return Err(StoreError::InvalidTimestamp),
            Some(stamp) => stamp,
        };
        let s = BrowserStore {
            log,
            phase: BrowserPhase::Event,
            event_id: 0,
            origin: String::new(),
            url: String::new(),
            url_query: None,
            origin_id: 0,
            url_id: 0,
            referrer_origin: String::new(),
            referrer_url: String::new(),
            referrer_origin_id: 0,
        };
        Ok((s, BrowserStep::InsertEvent { stamp }))
    }

    /// After the URL is stored or touched: the referrer's turn. Without a
    /// referrer, or with one that does not parse, the log is stored with no
    /// referrer.
    fn after_url(self) -> (r: (BrowserStore, BrowserStep))
        ensures
            referrer_turn(self, Ok(r)),
    {
        let parsed = match &self.log.referrer {
            None => None,
            Some(rf) => match parse_url(rf.as_str()) {
                Err(_) => None,
                Ok(p) => Some(p),
            },
        };
        match parsed {
            None => {
                let step = BrowserStep::InsertLog {
                    event_id: self.event_id,
                    origin_id: self.origin_id,
                    url_id: self.url_id,
                    url_query: self.url_query.clone(),
                    title: self.log.title.clone(),
                    referrer_id: None,
                    tab_id: self.log.tab_id,
                    opener_tab_id: self.log.opener_tab_id,
                    window_id: self.log.window_id,
                };
                (BrowserStore { phase: BrowserPhase::Log, ..self }, step)
            },
            Some((o, u, _q)) => {
                let step = BrowserStep::FindReferrerOrigin { origin: o.clone() };
                (
                    BrowserStore {
                        phase: BrowserPhase::ReferrerOrigin,
                        referrer_origin: o,
                        referrer_url: u,
                        ..self
                    },
                    step,
                )
            },
        }
    }

    /// Takes the database's answer to the last statement and gives the next
    /// statement.
    pub fn next(self, reply: Reply) -> (r: Result<(BrowserStore, BrowserStep), StoreError>)
        ensures
            browser_next(self, reply, r),

    {
        match (self.phase, reply) {
            (BrowserPhase::Event, Reply::Inserted(e)) => {
                let url = self.log.url.clone();
                match parse_url(url.as_str()) {
                    Err(err) => Err(StoreError::Browser(err)),
                    Ok((o, u, q)) => {
                        let step = BrowserStep::FindOrigin { origin: o.clone() };
                        Ok((
                            BrowserStore { phase: BrowserPhase::Origin, event_id: e, origin: o, url: u, url_query: q, ..self },
                            step,
                        ))
                    },
                }
            },
            (BrowserPhase::Origin, Reply::Found(id, fav)) => {
                if fav.is_none() && self.log.fav_icon_url.is_some() {
                    let step = BrowserStep::SetFavIcon { origin_id: id, fav_icon_url: self.log.fav_icon_url.clone() };
                    Ok((BrowserStore { phase: BrowserPhase::FavIcon, origin_id: id, ..self }, step))
                } else {
                    let step = BrowserStep::FindUrl { url: self.url.clone() };
                    Ok((BrowserStore { phase: BrowserPhase::Url, origin_id: id, ..self }, step))
                }
            },
            (BrowserPhase::Origin, Reply::Missing) | (BrowserPhase::Origin, Reply::Failed) => {
                let step = BrowserStep::InsertOrigin {
                    origin: self.origin.clone(),
                    fav_icon_url: self.log.fav_icon_url.clone(),
                };
                Ok((BrowserStore { phase: BrowserPhase::NewOrigin, ..self }, step))
            },
            (BrowserPhase::FavIcon, Reply::Updated) => {
                let step = BrowserStep::FindUrl { url: self.url.clone() };
                Ok((BrowserStore { phase: BrowserPhase::Url, ..self }, step))
            },
            (BrowserPhase::NewOrigin, Reply::Inserted(id)) => {
                let step = BrowserStep::FindUrl { url: self.url.clone() };
                Ok((BrowserStore { phase: BrowserPhase::Url, origin_id: id, ..self }, step))
            },
            (BrowserPhase::Url, Reply::Found(id, _)) => {
                let step = BrowserStep::TouchUrl { url_id: id, last_update: self.log.timestamp };
                Ok((BrowserStore { phase: BrowserPhase::Touch, url_id: id, ..self }, step))
            },
            (BrowserPhase::Url, Reply::Missing) | (BrowserPhase::Url, Reply::Failed) => {
                let step = BrowserStep::InsertUrl {
                    url: self.url.clone(),
                    origin_id: self.origin_id,
                    last_update: self.log.timestamp,
                };
                Ok((BrowserStore { phase: BrowserPhase::NewUrl, ..self }, step))
            },
            (BrowserPhase::Touch, Reply::Updated) => Ok(self.after_url()),
            (BrowserPhase::NewUrl, Reply::Inserted(id)) => Ok(BrowserStore { url_id: id, ..self }.after_url()),
            (BrowserPhase::ReferrerOrigin, Reply::Found(id, _)) => {
                let step = BrowserStep::FindReferrerUrl { url: self.referrer_url.clone() };
                Ok((BrowserStore { phase: BrowserPhase::ReferrerUrl, referrer_origin_id: id, ..self }, step))
            },
            (BrowserPhase::ReferrerOrigin, Reply::Missing) | (BrowserPhase::ReferrerOrigin, Reply::Failed) => {
                let step = BrowserStep::InsertReferrerOrigin { origin: self.referrer_origin.clone() };
                Ok((BrowserStore { phase: BrowserPhase::NewReferrerOrigin, ..self }, step))
            },
            (BrowserPhase::NewReferrerOrigin, Reply::Inserted(id)) => {
                let step = BrowserStep::FindReferrerUrl { url: self.referrer_url.clone() };
                Ok((BrowserStore { phase: BrowserPhase::ReferrerUrl, referrer_origin_id: id, ..self }, step))
            },
            (BrowserPhase::ReferrerUrl, Reply::Found(id, _)) => {
                let step = self.log_step(Some(id));
                Ok((BrowserStore { phase: BrowserPhase::Log, ..self }, step))
            },
            (BrowserPhase::ReferrerUrl, Reply::Missing) | (BrowserPhase::ReferrerUrl, Reply::Failed) => {
                let step = BrowserStep::InsertReferrerUrl {
                    url: self.referrer_url.clone(),
                    origin_id: self.referrer_origin_id,
                };
                Ok((BrowserStore { phase: BrowserPhase::NewReferrerUrl, ..self }, step))
            },
            (BrowserPhase::NewReferrerUrl, Reply::Inserted(id)) => {
                let step = self.log_step(Some(id));
                Ok((BrowserStore { phase: BrowserPhase::Log, ..self }, step))
            },
            (BrowserPhase::Log, Reply::Inserted(id)) => Ok(
                (BrowserStore { phase: BrowserPhase::Done, ..self }, BrowserStep::Finished(id)),
            ),
            _ => Err(StoreError::UnexpectedReply),
        }
    }

    fn log_step(&self, referrer_id: Option<i64>) -> (step: BrowserStep)
        ensures
            is_log_insert(*self, step, referrer_id),
    {
        BrowserStep::InsertLog {
            event_id: self.event_id,
            origin_id: self.origin_id,
            url_id: self.url_id,
            url_query: self.url_query.clone(),
            title: self.log.title.clone(),
            referrer_id,
            tab_id: self.log.tab_id,
            opener_tab_id: self.log.opener_tab_id,
            window_id: self.log.window_id,
        }
    }
}

/// The answers that fit the statement a browser-log storing in `phase` waits for.
pub open spec fn expected_reply(phase: BrowserPhase, reply: Reply) -> bool {
    match phase {
        BrowserPhase::Event | BrowserPhase::NewOrigin | BrowserPhase::NewUrl | BrowserPhase::NewReferrerOrigin
        | BrowserPhase::NewReferrerUrl | BrowserPhase::Log => reply is Inserted,
        BrowserPhase::Origin | BrowserPhase::Url | BrowserPhase::ReferrerOrigin | BrowserPhase::ReferrerUrl => reply is Found
            || missed(reply),
        BrowserPhase::FavIcon | BrowserPhase::Touch => reply is Updated,
        BrowserPhase::Done => false,
    }
}

// ---------------------------------------------------------------------------
// File logs
// ---------------------------------------------------------------------------

/// A statement to run while a file log is stored.
#[derive(Debug)]
pub enum FileStep {
    /// Record the event in the event log; answer `Inserted`.
    InsertEvent { stamp: EventStamp },
    /// Look up the file; answer `Found(id, _)`, `Missing` or `Failed`.
    FindInfo { path: String },
    /// Mark the file `info_id` updated at `last_update`; answer `Updated`.
    TouchInfo { info_id: i64, last_update: i64 },
    /// Store a new file updated at `last_update`; answer `Inserted`.
    InsertInfo { path: String, last_update: i64 },
    /// Look up the watched directory; answer `Found(id, _)`, `Missing` or `Failed`.
    FindWatchDir { dir: String },
    /// Store a new watched directory; answer `Inserted`.
    InsertWatchDir { dir: String },
    /// Store the file log itself; answer `Inserted`.
    InsertLog { event_id: i64, info_id: i64, kind: Option<String>, watch_dir_id: Option<i64> },
    /// Done: the file log is stored with this id.
    Finished(i64),
}

/// Which answer the file-log storing waits for.
#[derive(Debug, Clone, Copy, PartialEq, Eq, Structural)]
pub enum FilePhase {
    Event,
    Info,
    Touch,
    NewInfo,
    WatchDir,
    NewWatchDir,
    Log,
    Done,
}

/// The storing of one file log: the log, where it stands, and the ids
/// gathered so far.
#[derive(Debug)]
pub struct FileStore {
    pub log: FileLog,
    pub phase: FilePhase,
    pub event_id: i64,
    pub info_id: i64,
    pub watch_dir: String,
}

/// `step` stores the log of `s` with the given watched directory.
pub open spec fn is_file_log_insert(s: FileStore, step: FileStep, watch_dir_id: Option<i64>) -> bool {
    step == (FileStep::InsertLog { event_id: s.event_id, info_id: s.info_id, kind: s.log.kind, watch_dir_id })
}

/// What follows once the file of `s` has its id, as the result `r`: the
/// watched directory is looked up, or the log is stored without one.
pub open spec fn watch_dir_turn(s: FileStore, r: Result<(FileStore, FileStep), StoreError>) -> bool {
    match s.log.watch_dir {
        None => {
            &&& r matches Ok((n, step))
            &&& n == (FileStore { phase: FilePhase::Log, ..s })
            &&& is_file_log_insert(s, step, None)
        },
        Some(d) => {
            &&& r matches Ok((n, step))
            &&& n == (FileStore { phase: FilePhase::WatchDir, watch_dir: d, ..s })
            &&& step == (FileStep::FindWatchDir { dir: d })
        },
    }
}

/// The statement after the answer `reply` to the storing `s`, as the result `r` of `next`.
pub open spec fn file_next(s: FileStore, reply: Reply, r: Result<(FileStore, FileStep), StoreError>) -> bool {
    match (s.phase, reply) {
        (FilePhase::Event, Reply::Inserted(e)) => {
            &&& r matches Ok((n, step))
            &&& n == (FileStore { phase: FilePhase::Info, event_id: e, ..s })
            &&& step == (FileStep::FindInfo { path: s.log.path })
        },
        // a known file is marked updated at the log's time; an unknown one is stored
        (FilePhase::Info, Reply::Found(id, _)) => {
            &&& r matches Ok((n, step))
            &&& n == (FileStore { phase: FilePhase::Touch, info_id: id, ..s })
            &&& step == (FileStep::TouchInfo { info_id: id, last_update: s.log.timestamp })
        },
        (FilePhase::Info, Reply::Missing) => {
            &&& r matches Ok((n, step))
            &&& n == (FileStore { phase: FilePhase::NewInfo, ..s })
            &&& step == (FileStep::InsertInfo { path: s.log.path, last_update: s.log.timestamp })
        },
        (FilePhase::Touch, Reply::Updated) => watch_dir_turn(s, r),
        (FilePhase::NewInfo, Reply::Inserted(id)) => watch_dir_turn(FileStore { info_id: id, ..s }, r),
        // the watched directory is found or stored
        (FilePhase::WatchDir, Reply::Found(id, _)) => {
            &&& r matches Ok((n, step))
            &&& n == (FileStore { phase: FilePhase::Log, ..s })
            &&& is_file_log_insert(s, step, Some(id))
        },
        (FilePhase::WatchDir, Reply::Missing) => {
            &&& r matches Ok((n, step))
            &&& n == (FileStore { phase: FilePhase::NewWatchDir, ..s })
            &&& step == (FileStep::InsertWatchDir { dir: s.watch_dir })
        },
        (FilePhase::NewWatchDir, Reply::Inserted(id)) => {
            &&& r matches Ok((n, step))
            &&& n == (FileStore { phase: FilePhase::Log, ..s })
            &&& is_file_log_insert(s, step, Some(id))
        },
        // a lookup that fails for another reason stops the storing
        (FilePhase::Info, Reply::Failed) | (FilePhase::WatchDir, Reply::Failed) => r matches Err(
            StoreError::LookupFailed,
        ),
        (FilePhase::Log, Reply::Inserted(id)) => {
            &&& r matches Ok((n, step))
            &&& n == (FileStore { phase: FilePhase::Done, ..s })
            &&& step == FileStep::Finished(id)
        },
        _ => r matches Err(StoreError::UnexpectedReply),
    }
}

impl FileStore {
    /// Begins storing `log`: its timestamp must be a calendar date; the first
    /// statement records the event.
    pub fn begin(log: FileLog) -> (r: Result<(FileStore, FileStep), StoreError>)
        ensures
            if spec_utc_in_range(log.timestamp as int) {
                &&& r matches Ok((n, step))
                &&& n.log == log && n.phase == FilePhase::Event
                &&& step matches FileStep::InsertEvent { stamp }
                &&& stamp_of(stamp, log.timestamp)
            } else {
                r matches Err(StoreError::InvalidTimestamp)
            },
    {
        let stamp = match event_stamp(log.timestamp) {
            None => return Err(StoreError::InvalidTimestamp),
            Some(stamp) => stamp,
        };
        let s = FileStore { log, phase: FilePhase::Event, event_id: 0, info_id: 0, watch_dir: String::new() };
        Ok((s, FileStep::InsertEvent { stamp }))
    }

    fn after_info(self) -> (r: (FileStore, FileStep))
        ensures
            watch_dir_turn(self, Ok(r)),
    {
        match &self.log.watch_dir {
            None => {
                let step = self.log_step(None);
                (FileStore { phase: FilePhase::Log, ..self }, step)
            },
            Some(d) => {
                let dir = d.clone();
                let step = FileStep::FindWatchDir { dir: d.clone() };
                (FileStore { phase: FilePhase::WatchDir, watch_dir: dir, ..self }, step)
            },
        }
    }

    fn log_step(&self, watch_dir_id: Option<i64>) -> (step: FileStep)
        ensures
            is_file_log_insert(*self, step, watch_dir_id),
    {
        FileStep::InsertLog {
            event_id: self.event_id,
            info_id: self.info_id,
            kind: self.log.kind.clone(),
            watch_dir_id,
        }
    }

    /// Takes the database's answer to the last statement and gives the next
    /// statement.
    pub fn next(self, reply: Reply) -> (r: Result<(FileStore, FileStep), StoreError>)
        ensures
            file_next(self, reply, r),

    {
        match (self.phase, reply) {
            (FilePhase::Event, Reply::Inserted(e)) => {
                let step = FileStep::FindInfo { path: self.log.path.clone() };
                Ok((FileStore { phase: FilePhase::Info, event_id: e, ..self }, step))
            },
            (FilePhase::Info, Reply::Found(id, _)) => {
                let step = FileStep::TouchInfo { info_id: id, last_update: self.log.timestamp };
                Ok((FileStore { phase: FilePhase::Touch, info_id: id, ..self }, step))
            },
            (FilePhase::Info, Reply::Missing) => {
                let step = FileStep::InsertInfo { path: self.log.path.clone(), last_update: self.log.timestamp };
                Ok((FileStore { phase: FilePhase::NewInfo, ..self }, step))
            },
            (FilePhase::Touch, Reply::Updated) => Ok(self.after_info()),
            (FilePhase::NewInfo, Reply::Inserted(id)) => Ok(FileStore { info_id: id, ..self }.after_info()),
            (FilePhase::WatchDir, Reply::Found(id, _)) => {
                let step = self.log_step(Some(id));
                Ok((FileStore { phase: FilePhase::Log, ..self }, step))
            },
            (FilePhase::WatchDir, Reply::Missing) => {
                let step = FileStep::InsertWatchDir { dir: self.watch_dir.clone() };
                Ok((FileStore { phase: FilePhase::NewWatchDir, ..self }, step))
            },
            (FilePhase::NewWatchDir, Reply::Inserted(id)) => {
                let step = self.log_step(Some(id));
                Ok((FileStore { phase: FilePhase::Log, ..self }, step))
            },
            (FilePhase::Info, Reply::Failed) | (FilePhase::WatchDir, Reply::Failed) => Err(StoreError::LookupFailed),
            (FilePhase::Log, Reply::Inserted(id)) => Ok(
                (FileStore { phase: FilePhase::Done, ..self }, FileStep::Finished(id)),
            ),
            _ => Err(StoreError::UnexpectedReply),
        }
    }
}

// ---------------------------------------------------------------------------
// Application logs
// ---------------------------------------------------------------------------

/// A statement to run while an application log is stored.
#[derive(Debug)]
pub enum AppStep {
    /// Record the event in the event log; answer `Inserted`.
    InsertEvent { stamp: EventStamp },
    /// Look up the application by path; answer `Found(id, _)`, `Missing` or `Failed`.
    FindInfo { path: String },
    /// Store a new application; answer `Inserted`.
    InsertInfo { path: String, name: Option<String> },
    /// Store the application log with its window; answer `Inserted`.
    InsertLog {
        event_id: i64,
        info_id: i64,
        process_id: Option<i64>,
        title: Option<String>,
        x: Option<i64>,
        y: Option<i64>,
        width: Option<i64>,
        height: Option<i64>,
    },
    /// Store a log that refers to the earlier log `ref_id`; answer `Inserted`.
    InsertReference { event_id: i64, info_id: i64, ref_id: i64 },
    /// Done: the log is stored with this id.
    Finished(i64),
}

/// Which answer the application-log storing waits for.
#[derive(Debug, Clone, Copy, PartialEq, Eq, Structural)]
pub enum AppPhase {
    Event,
    Info,
    NewInfo,
    Log,
    ReferenceEvent,
    Reference,
    Done,
}

/// The storing of one application log: the log, where it stands, and what
/// was gathered so far. Once done, `log` is the log as stored.
#[derive(Debug)]
pub struct AppStore {
    pub log: ApplicationLog,
    pub phase: AppPhase,
    pub date: String,
    pub event_id: i64,
    pub info_id: i64,
    pub ref_id: i64,
}

/// `step` stores the log of `s` under the application `s.info_id`.
pub open spec fn is_app_log_insert(s: AppStore, step: AppStep) -> bool {
    step == (AppStep::InsertLog {
        event_id: s.event_id,
        info_id: s.info_id,
        process_id: s.log.process_id,
        title: s.log.title,
        x: s.log.x,
        y: s.log.y,
        width: s.log.width,
        height: s.log.height,
    })
}

/// The statement after the answer `reply` to the storing `s`, as the result `r` of `next`.
pub open spec fn app_next(s: AppStore, reply: Reply, r: Result<(AppStore, AppStep), StoreError>) -> bool {
    match (s.phase, reply) {
        (AppPhase::Event, Reply::Inserted(e)) => {
            &&& r matches Ok((n, step))
            &&& n == (AppStore { phase: AppPhase::Info, event_id: e, ..s })
            &&& step == (AppStep::FindInfo { path: s.log.path })
        },
        // a known application keeps its id; an unknown one is stored with its name
        (AppPhase::Info, Reply::Found(id, _)) => {
            &&& r matches Ok((n, step))
            &&& n == (AppStore { phase: AppPhase::Log, info_id: id, ..s })
            &&& is_app_log_insert(n, step)
        },
        (AppPhase::Info, Reply::Missing) | (AppPhase::Info, Reply::Failed) => {
            &&& r matches Ok((n, step))
            &&& n == (AppStore { phase: AppPhase::NewInfo, ..s })
            &&& step == (AppStep::InsertInfo { path: s.log.path, name: s.log.name })
        },
        (AppPhase::NewInfo, Reply::Inserted(id)) => {
            &&& r matches Ok((n, step))
            &&& n == (AppStore { phase: AppPhase::Log, info_id: id, ..s })
            &&& is_app_log_insert(n, step)
        },
        // the stored log gets its id, the event's date and the application id
        (AppPhase::Log, Reply::Inserted(id)) => {
            &&& r matches Ok((n, step))
            &&& n == (AppStore {
                phase: AppPhase::Done,
                log: ApplicationLog { id, date: s.date, info_id: Some(s.info_id), ..s.log },
                ..s
            })
            &&& step == AppStep::Finished(id)
        },
        // a reference log is stored with the ids of the log it refers to
        (AppPhase::ReferenceEvent, Reply::Inserted(e)) => {
            &&& r matches Ok((n, step))
            &&& n == (AppStore { phase: AppPhase::Reference, event_id: e, ..s })
            &&& step == (AppStep::InsertReference { event_id: e, info_id: s.info_id, ref_id: s.ref_id })
        },
        (AppPhase::Reference, Reply::Inserted(id)) => {
            &&& r matches Ok((n, step))
            &&& n == (AppStore { phase: AppPhase::Done, ..s })
            &&& step == AppStep::Finished(id)
        },
        _ => r matches Err(StoreError::UnexpectedReply),
    }
}

impl AppStore {
    /// Begins storing the new log `log`: it must refer to no earlier log and
    /// its timestamp must be a calendar date; the first statement records
    /// the event, whose local date the stored log gets.
    pub fn begin(log: ApplicationLog) -> (r: Result<(AppStore, AppStep), StoreError>)
        ensures
            log.ref_id is Some ==> r matches Err(StoreError::Log(LogError::RefIdMustBeNone)),
            log.ref_id is None && !spec_utc_in_range(log.timestamp as int) ==> r matches Err(
                StoreError::Log(LogError::InvalidTimestamp),
            ),
            log.ref_id is None && spec_utc_in_range(log.timestamp as int) ==> {
                &&& r matches Ok((s, step))
                &&& s.log == log && s.phase == AppPhase::Event
                &&& step matches AppStep::InsertEvent { stamp }
                &&& stamp_of(stamp, log.timestamp) && s.date == stamp.date
            },
    {
        match check_new_log(&log) {
            Err(e) => return Err(StoreError::Log(e)),
            Ok(()) => {},
        }
        let stamp = match event_stamp(log.timestamp) {
            None => return Err(StoreError::InvalidTimestamp),
            Some(stamp) => stamp,
        };
        let date = stamp.date.clone();
        let s = AppStore { log, phase: AppPhase::Event, date, event_id: 0, info_id: 0, ref_id: 0 };
        Ok((s, AppStep::InsertEvent { stamp }))
    }

    /// Begins storing `log` as a reference to the earlier log whose `(log id,
    /// application id)` are `last_ids`.
    pub fn begin_reference(log: ApplicationLog, last_ids: Option<(i64, i64)>) -> (r: Result<
        (AppStore, AppStep),
        StoreError,
    >)
        ensures
            log.ref_id is None ==> r matches Err(StoreError::Log(LogError::RefIdMustBeSome)),
            log.ref_id is Some && last_ids is None ==> r matches Err(
                StoreError::Log(LogError::LastIdsMustBeSome),
            ),
            log.ref_id is Some && last_ids is Some && !spec_utc_in_range(log.timestamp as int) ==> r matches Err(
                StoreError::Log(LogError::InvalidTimestamp),
            ),
            log.ref_id is Some && last_ids is Some && spec_utc_in_range(log.timestamp as int) ==> {
                &&& r matches Ok((s, step))
                &&& s.log == log && s.phase == AppPhase::ReferenceEvent
                &&& s.ref_id == (last_ids->0).0 && s.info_id == (last_ids->0).1
                &&& step matches AppStep::InsertEvent { stamp }
                &&& stamp_of(stamp, log.timestamp)
            },
    {
        let (ref_id, info_id) = match check_reference_log(&log, last_ids) {
            Err(e) => return Err(StoreError::Log(e)),
            Ok(ids) => ids,
        };
        let stamp = match event_stamp(log.timestamp) {
            None => return Err(StoreError::InvalidTimestamp),
            Some(stamp) => stamp,
        };
        let date = stamp.date.clone();
        let s = AppStore { log, phase: AppPhase::ReferenceEvent, date, event_id: 0, info_id, ref_id };
        Ok((s, AppStep::InsertEvent { stamp }))
    }

    fn log_step(&self) -> (step: AppStep)
        ensures
            is_app_log_insert(*self, step),
    {
        AppStep::InsertLog {
            event_id: self.event_id,
            info_id: self.info_id,
            process_id: self.log.process_id,
            title: self.log.title.clone(),
            x: self.log.x,
            y: self.log.y,
            width: self.log.width,
            height: self.log.height,
        }
    }

    /// Takes the database's answer to the last statement and gives the next
    /// statement.
    pub fn next(self, reply: Reply) -> (r: Result<(AppStore, AppStep), StoreError>)
        ensures
            app_next(self, reply, r),

    {
        match (self.phase, reply) {
            (AppPhase::Event, Reply::Inserted(e)) => {
                let step = AppStep::FindInfo { path: self.log.path.clone() };
                Ok((AppStore { phase: AppPhase::Info, event_id: e, ..self }, step))
            },
            (AppPhase::Info, Reply::Found(id, _)) => {
                let s = AppStore { phase: AppPhase::Log, info_id: id, ..self };
                let step = s.log_step();
                Ok((s, step))
            },
            (AppPhase::Info, Reply::Missing) | (AppPhase::Info, Reply::Failed) => {
                let step = AppStep::InsertInfo { path: self.log.path.clone(), name: self.log.name.clone() };
                Ok((AppStore { phase: AppPhase::NewInfo, ..self }, step))
            },
            (AppPhase::NewInfo, Reply::Inserted(id)) => {
                let s = AppStore { phase: AppPhase::Log, info_id: id, ..self };
                let step = s.log_step();
                Ok((s, step))
            },
            (AppPhase::Log, Reply::Inserted(id)) => {
                let date = self.date.clone();
                let info_id = self.info_id;
                let stored = self.log.stored_as(id, date, info_id);
                Ok((AppStore { phase: AppPhase::Done, log: stored, ..self }, AppStep::Finished(id)))
            },
            (AppPhase::ReferenceEvent, Reply::Inserted(e)) => {
                let step = AppStep::InsertReference { event_id: e, info_id: self.info_id, ref_id: self.ref_id };
                Ok((AppStore { phase: AppPhase::Reference, event_id: e, ..self }, step))
            },
            (AppPhase::Reference, Reply::Inserted(id)) => Ok(
                (AppStore { phase: AppPhase::Done, ..self }, AppStep::Finished(id)),
            ),
            _ => Err(StoreError::UnexpectedReply),
        }
    }
}

// ---------------------------------------------------------------------------
// What every step keeps
// ---------------------------------------------------------------------------

/// Every step of a browser-log storing keeps the log being stored and, once
/// the event is recorded, its id; an answer that does not fit the statement
/// waited for is refused.
pub proof fn law_browser_steps_keep_log(
    s: BrowserStore,
    reply: Reply,
    r: Result<(BrowserStore, BrowserStep), StoreError>,
)
    requires
        browser_next(s, reply, r),
    ensures
        r matches Ok((n, _)) ==> n.log == s.log,
        s.phase != BrowserPhase::Event ==> (r matches Ok((n, _)) ==> n.event_id == s.event_id),
        !expected_reply(s.phase, reply) ==> r matches Err(StoreError::UnexpectedReply),
{
}

/// The answers that fit the statement a file-log storing in `phase` waits for.
pub open spec fn file_expected_reply(phase: FilePhase, reply: Reply) -> bool {
    match phase {
        FilePhase::Event | FilePhase::NewInfo | FilePhase::NewWatchDir | FilePhase::Log => reply is Inserted,
        FilePhase::Info | FilePhase::WatchDir => reply is Found || missed(reply),
        FilePhase::Touch => reply is Updated,
        FilePhase::Done => false,
    }
}

/// Every step of a file-log storing keeps the log being stored and, once the
/// event is recorded, its id; an answer that does not fit is refused.
pub proof fn law_file_steps_keep_log(s: FileStore, reply: Reply, r: Result<(FileStore, FileStep), StoreError>)
    requires
        file_next(s, reply, r),
    ensures
        r matches Ok((n, _)) ==> n.log == s.log,
        s.phase != FilePhase::Event ==> (r matches Ok((n, _)) ==> n.event_id == s.event_id),
        !file_expected_reply(s.phase, reply) ==> r matches Err(StoreError::UnexpectedReply),
{
}

/// The answers that fit the statement an application-log storing in `phase`
/// waits for.
pub open spec fn app_expected_reply(phase: AppPhase, reply: Reply) -> bool {
    match phase {
        AppPhase::Info => reply is Found || missed(reply),
        AppPhase::Done => false,
        _ => reply is Inserted,
    }
}

/// Every step of an application-log storing keeps the log being stored until
/// it is done, and the finished log differs from it only in its id, date and
/// application id; an answer that does not fit is refused.
pub proof fn law_app_steps_keep_log(s: AppStore, reply: Reply, r: Result<(AppStore, AppStep), StoreError>)
    requires
        app_next(s, reply, r),
    ensures
        r matches Ok((n, _)) ==> (n.phase != AppPhase::Done ==> n.log == s.log),
        s.phase == AppPhase::Log ==> (r matches Ok((n, _)) ==> n.log == (ApplicationLog {
            id: n.log.id,
            date: s.date,
            info_id: Some(s.info_id),
            ..s.log
        })),
        s.phase == AppPhase::Reference ==> (r matches Ok((n, _)) ==> n.log == s.log),
        !app_expected_reply(s.phase, reply) ==> r matches Err(StoreError::UnexpectedReply),
{
}

// ---------------------------------------------------------------------------
// Rows are stored only after their lookup found none
// ---------------------------------------------------------------------------

/// How the step `step`, taken from `s` on the answer `reply` into `n`, uses the
/// keys of the browser-log storing: a lookup asks for the key the new state
/// holds; a key is stored only in the state that looked it up, after the
/// lookup found no row or failed, and it is that state's key.
pub open spec fn browser_key_rule(s: BrowserStore, reply: Reply, n: BrowserStore, step: BrowserStep) -> bool {
    match step {
        BrowserStep::FindOrigin { origin } => origin@ == n.origin@ && n.phase == BrowserPhase::Origin,
        BrowserStep::InsertOrigin { origin, .. } => origin@ == s.origin@ && s.phase == BrowserPhase::Origin
            && missed(reply),
        BrowserStep::FindUrl { url } => url@ == n.url@ && n.phase == BrowserPhase::Url,
        BrowserStep::InsertUrl { url, .. } => url@ == s.url@ && s.phase == BrowserPhase::Url && missed(reply),
        BrowserStep::FindReferrerOrigin { origin } => origin@ == n.referrer_origin@ && n.phase
            == BrowserPhase::ReferrerOrigin,
        BrowserStep::InsertReferrerOrigin { origin } => origin@ == s.referrer_origin@ && s.phase
            == BrowserPhase::ReferrerOrigin && missed(reply),
        BrowserStep::FindReferrerUrl { url } => url@ == n.referrer_url@ && n.phase == BrowserPhase::ReferrerUrl,
        BrowserStep::InsertReferrerUrl { url, .. } => url@ == s.referrer_url@ && s.phase
            == BrowserPhase::ReferrerUrl && missed(reply),
        _ => true,
    }
}

/// A browser-log storing stores an origin or a URL (of the page or of its
/// referrer) only on the answer to the lookup of that same key, when that
/// lookup found no row or failed: the key a lookup asks for is the one the
/// storing then holds, and the key stored is the one it holds. A storing
/// whose lookups are answered truly thus never stores an existing key again.
pub proof fn law_browser_stores_only_missed_keys(
    s: BrowserStore,
    reply: Reply,
    r: Result<(BrowserStore, BrowserStep), StoreError>,
)
    requires
        browser_next(s, reply, r),
    ensures
        r matches Ok((n, step)) ==> browser_key_rule(s, reply, n, step),
{
}

/// A file-log storing holds the watched directory of its log while it looks
/// the directory up or stores it.
pub open spec fn file_store_ok(s: FileStore) -> bool {
    (s.phase == FilePhase::WatchDir || s.phase == FilePhase::NewWatchDir) ==> s.log.watch_dir == Some(
        s.watch_dir,
    )
}

/// How the step `step`, taken from `s` on the answer `reply` into `n`, uses the
/// keys of the file-log storing (see `browser_key_rule`).
pub open spec fn file_key_rule(s: FileStore, reply: Reply, n: FileStore, step: FileStep) -> bool {
    match step {
        FileStep::FindInfo { path } => path == n.log.path && n.phase == FilePhase::Info,
        FileStep::InsertInfo { path, .. } => path == s.log.path && s.phase == FilePhase::Info && reply is Missing,
        FileStep::FindWatchDir { dir } => dir == n.watch_dir && n.phase == FilePhase::WatchDir,
        FileStep::InsertWatchDir { dir } => dir == s.watch_dir && s.phase == FilePhase::WatchDir
            && reply is Missing,
        _ => true,
    }
}

/// A file-log storing stores a file or a watched directory only on the answer
/// to the lookup of that same key, when that lookup found no row; it keeps
/// the log's watched directory while it handles it; and a log without a
/// watched directory never looks one up nor stores one.
pub proof fn law_file_stores_only_missed_keys(s: FileStore, reply: Reply, r: Result<(FileStore, FileStep), StoreError>)
    requires
        file_store_ok(s),
        file_next(s, reply, r),
    ensures
        r matches Ok((n, step)) ==> file_store_ok(n) && file_key_rule(s, reply, n, step),
        r matches Ok((n, step)) ==> (s.log.watch_dir is None ==> !(step is FindWatchDir) && !(step is InsertWatchDir)),
{
}

/// An application-log storing stores an application only on the answer to
/// the lookup of its path, when that lookup found no row or failed, and the
/// path stored is the one looked up.
pub proof fn law_app_stores_only_missed_paths(s: AppStore, reply: Reply, r: Result<(AppStore, AppStep), StoreError>)
    requires
        app_next(s, reply, r),
    ensures
        r matches Ok((n, step)) ==> (step matches AppStep::FindInfo { path } ==> path == n.log.path),
        r matches Ok((n, step)) ==> (step matches AppStep::InsertInfo { path, .. } ==> path == s.log.path
            && s.phase == AppPhase::Info && missed(reply)),
{
}

// ---------------------------------------------------------------------------
// Keys stay unique in the tables
// ---------------------------------------------------------------------------

/// No key occurs twice in `keys`.
pub open spec fn keys_unique(keys: Seq<Seq<char>>) -> bool {
    forall|i: int, j: int| 0 <= i < j < keys.len() ==> keys[i] != keys[j]
}

/// `reply` is a true answer of a table holding the keys `keys` to the lookup
/// of `key`: a row is found exactly when the key is there.
pub open spec fn true_lookup(keys: Seq<Seq<char>>, key: Seq<char>, reply: Reply) -> bool {
    reply is Found <==> keys.contains(key)
}

/// The origins of the `browser_origin` table after `step` ran on `origins`.
pub open spec fn origins_after(origins: Seq<Seq<char>>, step: BrowserStep) -> Seq<Seq<char>> {
    match step {
        BrowserStep::InsertOrigin { origin, .. } => origins.push(origin@),
        BrowserStep::InsertReferrerOrigin { origin } => origins.push(origin@),
        _ => origins,
    }
}

/// The URLs of the `browser_url` table after `step` ran on `urls`.
pub open spec fn urls_after(urls: Seq<Seq<char>>, step: BrowserStep) -> Seq<Seq<char>> {
    match step {
        BrowserStep::InsertUrl { url, .. } => urls.push(url@),
        BrowserStep::InsertReferrerUrl { url, .. } => urls.push(url@),
        _ => urls,
    }
}

/// The answer `reply` to the lookup that the browser-log storing `s` waits
/// for is the true one for tables holding `origins` and `urls`.
pub open spec fn browser_true_answer(s: BrowserStore, reply: Reply, origins: Seq<Seq<char>>, urls: Seq<Seq<char>>) -> bool {
    match s.phase {
        BrowserPhase::Origin => true_lookup(origins, s.origin@, reply),
        BrowserPhase::ReferrerOrigin => true_lookup(origins, s.referrer_origin@, reply),
        BrowserPhase::Url => true_lookup(urls, s.url@, reply),
        BrowserPhase::ReferrerUrl => true_lookup(urls, s.referrer_url@, reply),
        _ => true,
    }
}

proof fn lemma_push_unique(keys: Seq<Seq<char>>, k: Seq<char>)
    requires
        keys_unique(keys),
        !keys.contains(k),
    ensures
        keys_unique(keys.push(k)),
{
    assert forall|i: int, j: int| 0 <= i < j < keys.push(k).len() implies keys.push(k)[i] != keys.push(k)[j] by {
        if j == keys.len() {
            assert(keys.push(k)[i] == keys[i]);
            if keys[i] == k {
                assert(keys.contains(k));
            }
        }
    }
}

/// Where every lookup is answered truly, each step of a browser-log storing
/// keeps the origins of `browser_origin` and the URLs of `browser_url`
/// unique: an existing origin or URL is reused, never stored again.
pub proof fn law_browser_keeps_keys_unique(
    s: BrowserStore,
    reply: Reply,
    r: Result<(BrowserStore, BrowserStep), StoreError>,
    origins: Seq<Seq<char>>,
    urls: Seq<Seq<char>>,
)
    requires
        browser_next(s, reply, r),
        browser_true_answer(s, reply, origins, urls),
        keys_unique(origins),
        keys_unique(urls),
    ensures
        r matches Ok((n, step)) ==> keys_unique(origins_after(origins, step)) && keys_unique(urls_after(urls, step)),
{
    if let Ok((n, step)) = r {
        law_browser_stores_only_missed_keys(s, reply, r);
        match step {
            BrowserStep::InsertOrigin { origin, .. } => lemma_push_unique(origins, origin@),
            BrowserStep::InsertReferrerOrigin { origin } => lemma_push_unique(origins, origin@),
            BrowserStep::InsertUrl { url, .. } => lemma_push_unique(urls, url@),
            BrowserStep::InsertReferrerUrl { url, .. } => lemma_push_unique(urls, url@),
            _ => {},
        }
    }
}

/// The paths of the `file_info` table after `step` ran on `paths`.
pub open spec fn paths_after(paths: Seq<Seq<char>>, step: FileStep) -> Seq<Seq<char>> {
    match step {
        FileStep::InsertInfo { path, .. } => paths.push(path@),
        _ => paths,
    }
}

/// The directories of the `watch_dir` table after `step` ran on `dirs`.
pub open spec fn dirs_after(dirs: Seq<Seq<char>>, step: FileStep) -> Seq<Seq<char>> {
    match step {
        FileStep::InsertWatchDir { dir } => dirs.push(dir@),
        _ => dirs,
    }
}

/// The answer `reply` to the lookup that the file-log storing `s` waits for is
/// the true one for tables holding `paths` and `dirs`.
pub open spec fn file_true_answer(s: FileStore, reply: Reply, paths: Seq<Seq<char>>, dirs: Seq<Seq<char>>) -> bool {
    match s.phase {
        FilePhase::Info => true_lookup(paths, s.log.path@, reply),
        FilePhase::WatchDir => true_lookup(dirs, s.watch_dir@, reply),
        _ => true,
    }
}

/// Where every lookup is answered truly, each step of a file-log storing
/// keeps the paths of `file_info` and the directories of `watch_dir` unique;
/// and a log without a watched directory leaves `watch_dir` as it is.
pub proof fn law_file_keeps_keys_unique(
    s: FileStore,
    reply: Reply,
    r: Result<(FileStore, FileStep), StoreError>,
    paths: Seq<Seq<char>>,
    dirs: Seq<Seq<char>>,
)
    requires
        file_store_ok(s),
        file_next(s, reply, r),
        file_true_answer(s, reply, paths, dirs),
        keys_unique(paths),
        keys_unique(dirs),
    ensures
        r matches Ok((n, step)) ==> keys_unique(paths_after(paths, step)) && keys_unique(dirs_after(dirs, step)),
        r matches Ok((n, step)) ==> (s.log.watch_dir is None ==> dirs_after(dirs, step) == dirs),
{
    if let Ok((n, step)) = r {
        law_file_stores_only_missed_keys(s, reply, r);
        match step {
            FileStep::InsertInfo { path, .. } => lemma_push_unique(paths, path@),
            FileStep::InsertWatchDir { dir } => lemma_push_unique(dirs, dir@),
            _ => {},
        }
    }
}

// ---------------------------------------------------------------------------
// The log refers to its referrer
// ---------------------------------------------------------------------------

/// The id the database gave the referrer's URL in answer `reply` to the
/// storing `s`: the id found by its lookup, or the id of its insert.
pub open spec fn referrer_url_id(s: BrowserStore, reply: Reply) -> Option<i64> {
    if s.phase == BrowserPhase::ReferrerUrl && reply is Found {
        Some(reply->Found_0)
    } else if s.phase == BrowserPhase::NewReferrerUrl && reply is Inserted {
        Some(reply->Inserted_0)
    } else {
        None
    }
}

/// When a browser-log storing stores the log, the log refers to the id the
/// database just gave the referrer's URL (found or inserted); it refers to
/// none only when the log has no referrer or its referrer is not a URL.
pub proof fn law_log_refers_to_its_referrer(
    s: BrowserStore,
    reply: Reply,
    r: Result<(BrowserStore, BrowserStep), StoreError>,
)
    requires
        browser_next(s, reply, r),
    ensures
        r matches Ok((n, step)) ==> (step matches BrowserStep::InsertLog { referrer_id, .. } ==> referrer_id
            == referrer_url_id(s, reply)),
        r matches Ok((n, step)) ==> (step matches BrowserStep::InsertLog { referrer_id: None, .. } ==> (
        s.log.referrer is None || spec_url_parts(s.log.referrer->0@) is None)),
{
}

// ---------------------------------------------------------------------------
// The event-log stamp
// ---------------------------------------------------------------------------

/// The stamp a storing records for its log at `ts` places the event: it keeps
/// the time itself, its minute is the minute that holds `ts` (counted from the
/// epoch, rounding toward zero as `ts / 60` does), and its date is the local
/// day of `ts`: the UTC day of a time less than a day from `ts`, whatever the
/// time zone.
pub proof fn law_stamp_places_the_event(stamp: EventStamp, ts: i64)
    requires
        stamp_of(stamp, ts),
    ensures
        stamp.timestamp == ts,
        ts >= 0 ==> stamp.timeframe * 60 <= ts < stamp.timeframe * 60 + 60,
        ts < 0 ==> stamp.timeframe * 60 - 60 < ts <= stamp.timeframe * 60,
        MIN_UTC_SECS + 86400 <= ts <= MAX_UTC_SECS - 86400 ==> exists|off: int|
            -86400 < off < 86400 && stamp.date@ == (#[trigger] spec_utc_stamp(ts + off)).0,
{
    if ts < 0 {
        assert((-ts) / 60 * 60 <= -ts < (-ts) / 60 * 60 + 60) by (nonlinear_arith)
            requires
                -ts > 0,
        ;
    } else {
        assert(ts / 60 * 60 <= ts < ts / 60 * 60 + 60) by (nonlinear_arith)
            requires
                ts >= 0,
        ;
    }
}

} // verus!
