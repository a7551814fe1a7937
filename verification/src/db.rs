//! The event log shared by every kind of record, and the rules for reading
//! and grouping it.

use vstd::prelude::*;

use crate::paths::path_join;
use crate::text::owned;
use crate::time::{local_date, local_hour_of, local_hour_start, spec_utc_in_range, spec_utc_stamp, MAX_UTC_SECS, MIN_UTC_SECS};

verus! {

/// The name of the database file inside the data directory.
pub const DATABASE_FILE: &'static str = "immic.db";

/// The setting that holds the data directory.
pub const DATA_DIR_SETTING: &'static str = "data-dir";

/// Within this many seconds of its last update, a path or URL is not recorded again.
pub const DEBOUNCE_THRESHOLD: i64 = 60;

/// One row of the event log.
#[derive(Debug)]
pub struct EventLog {
    pub id: i64,
    pub timestamp: i64,
    pub date: String,
    pub kind: String,
}

/// The length of the periods that logs are grouped by.
#[derive(Debug, Clone, Copy, PartialEq, Eq, Structural)]
pub enum Interval {
    Hourly,
    Daily,
    Weekly,
    Monthly,
    Yearly,
}

/// A record that happened at a point in time.
pub trait Timestamp {
    /// The record's time, in seconds since the epoch.
    spec fn spec_timestamp(&self) -> i64;

    /// The record's time, in seconds since the epoch.
    fn timestamp(&self) -> (t: i64)
        ensures
            t == self.spec_timestamp(),
    ;
}

/// Why the database cannot be located or logs cannot be grouped.
#[derive(Debug, PartialEq, Eq, Structural)]
pub enum DbError {
    /// The data directory setting is missing or is not text.
    DataDirNotSet,
    /// Grouping by this interval is not implemented.
    NotImplemented,
    /// A time has no local calendar reading.
    InvalidTime,
}

/// The message of the error `e`.
pub open spec fn db_error_text(e: DbError) -> Seq<char> {
    match e {
        DbError::DataDirNotSet => "data-dir is not set"@,
        DbError::NotImplemented => "Not implemented yet"@,
        DbError::InvalidTime => "Invalid timestamp"@,
    }
}

impl DbError {
    /// The error's message.
    pub fn message(&self) -> (m: &'static str)
        ensures
            m@ == db_error_text(*self),
    {
        match self {
            DbError::DataDirNotSet => "data-dir is not set",
            DbError::NotImplemented => "Not implemented yet",
            DbError::InvalidTime => "Invalid timestamp",
        }
    }
}

/// The path of the database file in the data directory `data_dir` (the text
/// of the `data-dir` setting, `None` when it is missing or not text).
pub fn database_path(data_dir: Option<&str>) -> (r: Result<String, DbError>)
    ensures
        match data_dir {
            None => r == Err::<String, DbError>(DbError::DataDirNotSet),
            Some(d) => r is Ok && r->Ok_0@ == crate::paths::spec_path_join(d@, DATABASE_FILE@),
        },
{
    match data_dir {
        None => Err(DbError::DataDirNotSet),
        Some(d) => Ok(path_join(d, DATABASE_FILE)),
    }
}

/// Rust's integer division of `a` by the positive `b`, rounding toward zero.
pub open spec fn div_toward_zero(a: int, b: int) -> int {
    if a >= 0 {
        a / b
    } else {
        -((-a) / b)
    }
}

/// The minute an event at `ts` falls in, counted as `ts / 60` rounds.
pub fn timeframe_of(ts: i64) -> (r: i64)
    ensures
        r == div_toward_zero(ts as int, 60),
{
    if ts >= 0 {
        ts / 60
    } else {
        let m: i128 = 0i128 - (ts as i128);
        let q: i128 = m / 60;
        assert(0 <= q <= m);
        (0i128 - q) as i64
    }
}

/// `date` is the local calendar day of the time `ts`, as far as it can be said
/// whatever the time zone: the UTC day of a time less than a day from `ts`
/// (for times a day away from the ends of `chrono`'s range).
pub open spec fn local_day_of(date: Seq<char>, ts: int) -> bool {
    MIN_UTC_SECS + 86400 <= ts <= MAX_UTC_SECS - 86400 ==> exists|off: int|
        -86400 < off < 86400 && date == (#[trigger] spec_utc_stamp(ts + off)).0
}

/// What the event log stores for an event at `ts`: its time, minute and
/// local calendar day (eight digits as `%Y%m%d` prints them).
#[derive(Debug)]
pub struct EventStamp {
    pub timestamp: i64,
    pub timeframe: i64,
    pub date: String,
}

/// The event-log fields of an event at `ts`, or `None` when `ts` has no
/// local calendar reading.
pub fn event_stamp(ts: i64) -> (r: Option<EventStamp>)
    ensures
        r is Some == spec_utc_in_range(ts as int),
        r matches Some(s) ==> s.timestamp == ts && s.timeframe == div_toward_zero(ts as int, 60),
        r matches Some(s) ==> local_day_of(s.date@, ts as int),
{
    match local_date(ts) {
        None => None,
        Some(date) => Some(EventStamp { timestamp: ts, timeframe: timeframe_of(ts), date }),
    }
}

/// Whether a record last updated at `last_update` is too recent at `now` to
/// be recorded again.
pub open spec fn debounced(now: i64, last_update: Option<i64>) -> bool {
    match last_update {
        None => false,
        Some(l) => now - l < DEBOUNCE_THRESHOLD,
    }
}

/// Whether a record last updated at `last_update` (`None` when never) is too
/// recent at `now` to be recorded again.
pub fn is_debounced(now: i64, last_update: Option<i64>) -> (r: bool)
    ensures
        r == debounced(now, last_update),
{
    match last_update {
        None => false,
        Some(l) => (now as i128) - (l as i128) < (DEBOUNCE_THRESHOLD as i128),
    }
}

/// The event log row `(id, timestamp, date, kind)` as an event log.
pub fn event_log_from_row(id: i64, timestamp: i64, date: String, kind: String) -> (e: EventLog)
    ensures
        e == (EventLog { id, timestamp, date, kind }),
{
    EventLog { id, timestamp, date, kind }
}

// ---------------------------------------------------------------------------
// Grouping logs by hour
// ---------------------------------------------------------------------------

/// The decimal digit `d` (below 10) as a character.
pub open spec fn digit(d: int) -> char {
    if d == 0 { '0' } else if d == 1 { '1' } else if d == 2 { '2' } else if d == 3 { '3' } else if d == 4 {
        '4'
    } else if d == 5 { '5' } else if d == 6 { '6' } else if d == 7 { '7' } else if d == 8 { '8' } else {
        '9'
    }
}

fn digit_char(d: u32) -> (c: char)
    requires
        d < 10,
    ensures
        c == digit(d as int),
{
    if d == 0 { '0' } else if d == 1 { '1' } else if d == 2 { '2' } else if d == 3 { '3' } else if d == 4 {
        '4'
    } else if d == 5 { '5' } else if d == 6 { '6' } else if d == 7 { '7' } else if d == 8 { '8' } else {
        '9'
    }
}

/// `h` (below 100) printed with two digits, as `{:02}` does.
pub open spec fn two_digits(h: int) -> Seq<char> {
    seq![digit(h / 10), digit(h % 10)]
}

/// `h` printed with two digits.
pub fn two_digit_label(h: u32) -> (s: String)
    requires
        h < 100,
    ensures
        s@ == two_digits(h as int),
{
    let mut v: Vec<char> = Vec::new();
    v.push(digit_char(h / 10));
    v.push(digit_char(h % 10));
    proof {
        assert(v@ =~= two_digits(h as int));
    }
    crate::text::string_from_chars(&v)
}

/// The times of `logs`.
pub open spec fn times_of<T: Timestamp>(logs: Seq<T>) -> Seq<i64> {
    logs.map_values(|l: T| l.spec_timestamp())
}

/// The state of the hourly grouping after the first `n` logs (times `ts`):
/// the current hour, its start, the closed groups as (hour, size), and the
/// size of the open group. `hours[i]` is the local hour of log `i` and
/// `starts[h]` the start of hour `h` of the day; `None` where one is missing
/// when it is needed.
pub open spec fn hour_scan(
    ts: Seq<i64>,
    hours: Seq<Option<u32>>,
    starts: Seq<Option<i64>>,
    n: int,
) -> Option<(u32, int, Seq<(u32, int)>, int)>
    decreases n,
{
    if n <= 0 {
        match starts[0] {
            Some(s0) => Some((0u32, s0 as int, Seq::<(u32, int)>::empty(), 0int)),
            None => None,
        }
    } else {
        match hour_scan(ts, hours, starts, n - 1) {
            None => None,
            Some((h, st, closed, open)) => if ts[n - 1] < st + 3600 {
                Some((h, st, closed, open + 1))
            } else {
                match hours[n - 1] {
                    None => None,
                    Some(h2) => if h2 < 24 && starts[h2 as int] is Some {
                        Some(
                            (
                                h2,
                                starts[h2 as int]->0 as int,
                                if open > 0 {
                                    closed.push((h, open))
                                } else {
                                    closed
                                },
                                1int,
                            ),
                        )
                    } else {
                        None
                    },
                }
            },
        }
    }
}

/// The hourly groups of the logs with times `ts`, as (hour, size), in order;
/// `None` when a needed hour or hour start is missing.
pub open spec fn hour_groups(ts: Seq<i64>, hours: Seq<Option<u32>>, starts: Seq<Option<i64>>) -> Option<
    Seq<(u32, int)>,
> {
    match hour_scan(ts, hours, starts, ts.len() as int) {
        None => None,
        Some((h, _st, closed, open)) => Some(
            if open > 0 {
                closed.push((h, open))
            } else {
                closed
            },
        ),
    }
}

/// Where group `k` of `groups` begins: the sizes of the groups before it.
pub open spec fn group_offset(groups: Seq<(u32, int)>, k: int) -> int
    decreases k,
{
    if k <= 0 {
        0
    } else {
        group_offset(groups, k - 1) + groups[k - 1].1
    }
}

/// The result `r` is the grouping `groups` of `logs`: labels are the hours
/// printed with two digits and each group is the matching run of logs.
pub open spec fn is_grouping<T>(r: Seq<(String, Vec<T>)>, groups: Seq<(u32, int)>, logs: Seq<T>) -> bool {
    &&& r.len() == groups.len()
    &&& forall|k: int|
        0 <= k < r.len() ==> (#[trigger] r[k]).0@ == two_digits(groups[k].0 as int) && r[k].1@
            == logs.subrange(group_offset(groups, k), group_offset(groups, k) + groups[k].1)
}

proof fn lemma_scan_none_persists(ts: Seq<i64>, hours: Seq<Option<u32>>, starts: Seq<Option<i64>>, k: int, m: int)
    requires
        0 <= k <= m,
        hour_scan(ts, hours, starts, k) is None,
    ensures
        hour_scan(ts, hours, starts, m) is None,
    decreases m - k,
{
    if k < m {
        lemma_scan_none_persists(ts, hours, starts, k, m - 1);
    }
}

proof fn lemma_offset_push(groups: Seq<(u32, int)>, g: (u32, int), k: int)
    requires
        0 <= k <= groups.len(),
    ensures
        group_offset(groups.push(g), k) == group_offset(groups, k),
    decreases k,
{
    if k > 0 {
        lemma_offset_push(groups, g, k - 1);
    }
}

/// Groups the logs `logs` by local hour: a log within an hour of the start of
/// the current group's hour joins it; any other starts a group under its own
/// hour. `hours[i]` is the local hour of log `i` and `starts[h]` the start of
/// hour `h` of the day (the first group is hour 0); a missing one that is
/// needed gives `InvalidTime`.
pub fn partition_by_hour<T: Timestamp>(
    logs: Vec<T>,
    hours: &Vec<Option<u32>>,
    starts: &Vec<Option<i64>>,
) -> (r: Result<Vec<(String, Vec<T>)>, DbError>)
    requires
        hours.len() == logs.len(),
        starts.len() == 24,
        forall|i: int| 0 <= i < hours.len() ==> (#[trigger] hours@[i] matches Some(h) ==> h < 24),
    ensures
        match hour_groups(times_of(logs@), hours@, starts@) {
            None => r == Err::<Vec<(String, Vec<T>)>, DbError>(DbError::InvalidTime),
            Some(groups) => r is Ok && is_grouping(r->Ok_0@, groups, logs@),
        },
{
    let ghost l0 = logs@;
    let ghost ts = times_of(l0);
    let mut ret: Vec<(String, Vec<T>)> = Vec::new();
    let mut ls: Vec<T> = Vec::new();
    let mut hour: u32 = 0;
    let mut start: i64 = match starts[0] {
        Some(s) => s,
        None => {
            proof {
                lemma_scan_none_persists(ts, hours@, starts@, 0, ts.len() as int);
            }
            return Err(DbError::InvalidTime);
        },
    };
    let ghost mut closed: Seq<(u32, int)> = Seq::empty();
    let mut idx: usize = 0;
    for log in it: logs.into_iter()
        invariant
            it.seq() == l0,
            idx == it.index(),
            ts == times_of(l0),
            hours.len() == l0.len(),
            starts.len() == 24,
            forall|i: int| 0 <= i < hours.len() ==> (#[trigger] hours@[i] matches Some(h) ==> h < 24),
            hour < 24,
            hour_scan(ts, hours@, starts@, it.index() as int) == Some((hour, start as int, closed, ls.len() as int)),
            is_grouping(ret@, closed, l0),
            group_offset(closed, closed.len() as int) + ls.len() == it.index(),
            group_offset(closed, closed.len() as int) >= 0,
            ts.len() == l0.len(),
            ls@ == l0.subrange(group_offset(closed, closed.len() as int), it.index() as int),
            forall|k: int| 0 <= k < closed.len() ==> (#[trigger] closed[k]).0 < 24,
    {
        let ghost n = it.index() as int;
        let t = log.timestamp();
        proof {
            assert(log == l0[n]);
            assert(ts[n] == t);
        }
        if (t as i128) < (start as i128) + 3600 {
            ls.push(log);
            proof {
                assert(ls@ =~= l0.subrange(group_offset(closed, closed.len() as int), n + 1));
            }
        } else {
            let h2 = match hours[idx] {
                Some(h) => h,
                None => {
                    proof {
                        lemma_scan_none_persists(ts, hours@, starts@, n + 1, ts.len() as int);
                    }
                    return Err(DbError::InvalidTime);
                },
            };
            let s2 = match starts[h2 as usize] {
                Some(s) => s,
                None => {
                    proof {
                        lemma_scan_none_persists(ts, hours@, starts@, n + 1, ts.len() as int);
                    }
                    return Err(DbError::InvalidTime);
                },
            };
            if ls.len() > 0 {
                let label = two_digit_label(hour);
                let ghost g = (hour, ls.len() as int);
                let ghost old_closed = closed;
                let ghost old_ret = ret@;
                let mut full: Vec<T> = Vec::new();
                std::mem::swap(&mut full, &mut ls);
                ret.push((label, full));
                proof {
                    closed = closed.push(g);
                    lemma_offset_push(old_closed, g, old_closed.len() as int);
                    assert(group_offset(closed, closed.len() as int) == group_offset(old_closed, old_closed.len() as int) + g.1);
                    assert forall|k: int| 0 <= k < ret.len() implies (#[trigger] ret@[k]).0@ == two_digits(closed[k].0 as int) && ret@[k].1@
                        == l0.subrange(group_offset(closed, k), group_offset(closed, k) + closed[k].1) by {
                        lemma_offset_push(old_closed, g, k);
                        if k < old_ret.len() {
                            assert(ret@[k] == old_ret[k]);
                        }
                    }
                }
            }
            hour = h2;
            start = s2;
            ls.push(log);
            proof {
                assert(ls@ =~= l0.subrange(group_offset(closed, closed.len() as int), n + 1));
            }
        }
        idx = idx + 1;
    }
    if ls.len() > 0 {
        let label = two_digit_label(hour);
        let ghost g = (hour, ls.len() as int);
        let ghost old_closed = closed;
        let ghost old_ret = ret@;
        ret.push((label, ls));
        proof {
            closed = closed.push(g);
            assert forall|k: int| 0 <= k < ret.len() implies (#[trigger] ret@[k]).0@ == two_digits(closed[k].0 as int) && ret@[k].1@
                == l0.subrange(group_offset(closed, k), group_offset(closed, k) + closed[k].1) by {
                lemma_offset_push(old_closed, g, k);
                if k < old_ret.len() {
                    assert(ret@[k] == old_ret[k]);
                }
            }
        }
    }
    Ok(ret)
}

proof fn lemma_scan_sizes(ts: Seq<i64>, hours: Seq<Option<u32>>, starts: Seq<Option<i64>>, n: int)
    requires
        0 <= n,
        hour_scan(ts, hours, starts, n) is Some,
    ensures
        ({
            let (h, st, closed, open) = hour_scan(ts, hours, starts, n)->0;
            &&& group_offset(closed, closed.len() as int) + open == n
            &&& open >= 0
            &&& (n > 0 ==> open > 0)
            &&& forall|k: int| 0 <= k < closed.len() ==> (#[trigger] closed[k]).1 > 0
        }),
    decreases n,
{
    if n > 0 {
        lemma_scan_sizes(ts, hours, starts, n - 1);
        let (h, st, closed, open) = hour_scan(ts, hours, starts, n - 1)->0;
        if !(ts[n - 1] < st + 3600) && open > 0 {
            lemma_offset_push(closed, (h, open), closed.len() as int);
        }
    }
}

/// The clock readings fit the logs at times `ts`: the times are in order;
/// each log has a local hour whose start is known and holds the log's time;
/// and the known hour starts of the day are at least an hour apart, in order.
pub open spec fn readings_fit(ts: Seq<i64>, hours: Seq<Option<u32>>, starts: Seq<Option<i64>>) -> bool {
    &&& hours.len() == ts.len()
    &&& starts.len() == 24
    &&& forall|i: int, j: int| 0 <= i <= j < ts.len() ==> #[trigger] ts[i] <= #[trigger] ts[j]
    &&& forall|i: int|
        0 <= i < ts.len() ==> {
            &&& #[trigger] hours[i] is Some
            &&& hours[i]->0 < 24
            &&& starts[hours[i]->0 as int] is Some
            &&& starts[hours[i]->0 as int]->0 <= ts[i] < starts[hours[i]->0 as int]->0 + 3600
        }
    &&& forall|h: int, k: int|
        0 <= h < k < 24 && (#[trigger] starts[h]) is Some && (#[trigger] starts[k]) is Some ==> starts[h]->0 + 3600
            <= starts[k]->0
}

/// The logs `from` to `to` (times `ts`) all lie in the hour that starts at
/// `starts[h]`.
pub open spec fn within_hour(ts: Seq<i64>, starts: Seq<Option<i64>>, h: int, from: int, to: int) -> bool {
    &&& 0 <= h < 24
    &&& starts[h] is Some
    &&& forall|j: int| from <= j < to ==> starts[h]->0 <= #[trigger] ts[j] < starts[h]->0 + 3600
}

proof fn lemma_scan_in_hours(ts: Seq<i64>, hours: Seq<Option<u32>>, starts: Seq<Option<i64>>, n: int)
    requires
        readings_fit(ts, hours, starts),
        0 <= n <= ts.len(),
        hour_scan(ts, hours, starts, n) is Some,
    ensures
        ({
            let (h, st, closed, open) = hour_scan(ts, hours, starts, n)->0;
            &&& h < 24
            &&& starts[h as int] is Some && starts[h as int]->0 as int == st
            &&& forall|k: int|
                0 <= k < closed.len() ==> within_hour(
                    ts,
                    starts,
                    (#[trigger] closed[k]).0 as int,
                    group_offset(closed, k),
                    group_offset(closed, k) + closed[k].1,
                )
            &&& within_hour(ts, starts, h as int, group_offset(closed, closed.len() as int), n)
        }),
    decreases n,
{
    lemma_scan_sizes(ts, hours, starts, n);
    if n > 0 {
        lemma_scan_in_hours(ts, hours, starts, n - 1);
        lemma_scan_sizes(ts, hours, starts, n - 1);
        let (h, st, closed, open) = hour_scan(ts, hours, starts, n - 1)->0;
        let off = group_offset(closed, closed.len() as int);
        let i = n - 1;
        assert(hours[i] is Some);
        if ts[i] < st + 3600 {
            // the log joins the open group; it is no earlier than its start
            if i == 0 {
                let h0 = hours[0]->0 as int;
                if h0 != 0 {
                    assert(starts[0] is Some && starts[h0] is Some);
                    assert(starts[0]->0 + 3600 <= starts[h0]->0);
                }
            } else {
                assert(off <= i - 1);
                assert(ts[i - 1] <= ts[i]);
            }
        } else {
            let h2 = hours[i]->0;
            if open > 0 {
                let g = (h, open);
                lemma_offset_push(closed, g, closed.len() as int);
                let c2 = closed.push(g);
                assert forall|k: int|
                    0 <= k < c2.len() implies within_hour(
                    ts,
                    starts,
                    (#[trigger] c2[k]).0 as int,
                    group_offset(c2, k),
                    group_offset(c2, k) + c2[k].1,
                ) by {
                    lemma_offset_push(closed, g, k);
                    if k < closed.len() {
                        assert(c2[k] == closed[k]);
                        lemma_offset_push(closed, g, k + 1);
                    }
                }
                assert(group_offset(c2, c2.len() as int) == i);
            }
        }
    } else {
        assert(hour_scan(ts, hours, starts, 0) == Some((0u32, starts[0]->0 as int, Seq::<(u32, int)>::empty(), 0int)));
    }
}

/// Where the clock readings fit the logs, every log of a group lies in the
/// local hour the group is labelled with: from the start of that hour to an
/// hour later.
pub proof fn law_groups_lie_in_their_hours(ts: Seq<i64>, hours: Seq<Option<u32>>, starts: Seq<Option<i64>>)
    requires
        readings_fit(ts, hours, starts),
    ensures
        hour_groups(ts, hours, starts) matches Some(g) ==> forall|k: int|
            0 <= k < g.len() ==> within_hour(
                ts,
                starts,
                (#[trigger] g[k]).0 as int,
                group_offset(g, k),
                group_offset(g, k) + g[k].1,
            ),
{
    let n = ts.len() as int;
    if hour_scan(ts, hours, starts, n) is Some {
        lemma_scan_in_hours(ts, hours, starts, n);
        lemma_scan_sizes(ts, hours, starts, n);
        let (h, st, closed, open) = hour_scan(ts, hours, starts, n)->0;
        let g = hour_groups(ts, hours, starts)->0;
        if open > 0 {
            let gg = (h, open);
            assert forall|k: int|
                0 <= k < g.len() implies within_hour(
                ts,
                starts,
                (#[trigger] g[k]).0 as int,
                group_offset(g, k),
                group_offset(g, k) + g[k].1,
            ) by {
                lemma_offset_push(closed, gg, k);
                if k < closed.len() {
                    assert(g[k] == closed[k]);
                    lemma_offset_push(closed, gg, k + 1);
                }
            }
        }
    }
}

/// The logs of the groups of `r`, one group after another.
pub open spec fn flatten_groups<T>(r: Seq<(String, Vec<T>)>) -> Seq<T>
    decreases r.len(),
{
    if r.len() == 0 {
        Seq::empty()
    } else {
        flatten_groups(r.drop_last()) + r.last().1@
    }
}

/// Grouping by hour loses no log and reorders none: the groups, one after
/// another, are the logs; and no group is empty.
pub proof fn law_hour_groups_keep_every_log<T>(
    r: Seq<(String, Vec<T>)>,
    logs: Seq<T>,
    ts: Seq<i64>,
    hours: Seq<Option<u32>>,
    starts: Seq<Option<i64>>,
)
    requires
        ts.len() == logs.len(),
        hour_groups(ts, hours, starts) is Some,
        is_grouping(r, hour_groups(ts, hours, starts)->0, logs),
    ensures
        flatten_groups(r) == logs,
        forall|k: int| 0 <= k < r.len() ==> (#[trigger] r[k]).1.len() > 0,
{
    let groups = hour_groups(ts, hours, starts)->0;
    let n = ts.len() as int;
    lemma_scan_sizes(ts, hours, starts, n);
    let (h, st, closed, open) = hour_scan(ts, hours, starts, n)->0;
    if open > 0 {
        lemma_offset_push(closed, (h, open), closed.len() as int);
    }
    assert(group_offset(groups, groups.len() as int) == n);
    assert forall|k: int| 0 <= k < groups.len() implies (#[trigger] groups[k]).1 > 0 by {
        if k < closed.len() {
            assert(groups[k] == closed[k]);
        }
    }
    lemma_offsets_monotone(groups, groups.len() as int);
    assert forall|k: int| 0 <= k < r.len() implies (#[trigger] r[k]).1.len() > 0 by {
        assert(group_offset(groups, k + 1) == group_offset(groups, k) + groups[k].1);
        assert(group_offset(groups, k + 1) <= group_offset(groups, groups.len() as int));
        assert(r[k].1@.len() == groups[k].1);
    }
    lemma_flatten_prefix(r, groups, logs, r.len() as int);
    assert(r.take(r.len() as int) =~= r);
    assert(logs.take(n) =~= logs);
}

proof fn lemma_offsets_monotone(groups: Seq<(u32, int)>, k: int)
    requires
        0 <= k <= groups.len(),
        forall|j: int| 0 <= j < groups.len() ==> (#[trigger] groups[j]).1 > 0,
    ensures
        forall|j: int| 0 <= j <= k ==> 0 <= #[trigger] group_offset(groups, j) <= group_offset(groups, k),
    decreases k,
{
    if k > 0 {
        lemma_offsets_monotone(groups, k - 1);
        assert(group_offset(groups, k) == group_offset(groups, k - 1) + groups[k - 1].1);
        assert(groups[k - 1].1 > 0);
    }
}

proof fn lemma_flatten_prefix<T>(r: Seq<(String, Vec<T>)>, groups: Seq<(u32, int)>, logs: Seq<T>, k: int)
    requires
        0 <= k <= r.len(),
        is_grouping(r, groups, logs),
        forall|j: int| 0 <= j < groups.len() ==> (#[trigger] groups[j]).1 > 0,
        group_offset(groups, groups.len() as int) == logs.len(),
    ensures
        flatten_groups(r.take(k)) == logs.take(group_offset(groups, k)),
    decreases k,
{
    lemma_offsets_monotone(groups, groups.len() as int);
    if k == 0 {
        assert(r.take(0) =~= Seq::<(String, Vec<T>)>::empty());
        assert(logs.take(0) =~= Seq::<T>::empty());
    } else {
        lemma_flatten_prefix(r, groups, logs, k - 1);
        assert(r.take(k).drop_last() =~= r.take(k - 1));
        assert(r.take(k).last() == r[k - 1]);
        let a = group_offset(groups, k - 1);
        let b = group_offset(groups, k);
        assert(r[k - 1].1@ == logs.subrange(a, b));
        assert(logs.take(b) =~= logs.take(a) + logs.subrange(a, b));
    }
}

/// `hours` and `starts` are readings of the local clock for `logs` and the
/// day of `local_time`: an hour below 24 for each log whose time is a
/// calendar date (none for the others), and 24 hour starts, present only when
/// `local_time` is a calendar date.
pub open spec fn local_readings<T: Timestamp>(
    logs: Seq<T>,
    local_time: i64,
    hours: Seq<Option<u32>>,
    starts: Seq<Option<i64>>,
) -> bool {
    &&& hours.len() == logs.len()
    &&& starts.len() == 24
    &&& forall|i: int| 0 <= i < hours.len() ==> ((#[trigger] hours[i]) is Some <==> spec_utc_in_range(
        logs[i].spec_timestamp() as int,
    )) && (hours[i] matches Some(h) ==> h < 24)
    &&& forall|k: int| 0 <= k < 24 ==> ((#[trigger] starts[k]) is Some ==> spec_utc_in_range(local_time as int))
}

/// Groups `logs` (in time order) by the local hours of the day of
/// `local_time`; only hourly grouping is implemented. Whatever the time zone,
/// the groups, one after another, are the logs, none is empty, and each is
/// labelled with a two-digit hour below 24; and the grouping is the one
/// `partition_by_hour` makes from the local clock's readings of the logs' hours
/// and of the day's hour starts.
pub fn partition_logs<T: Timestamp>(logs: Vec<T>, local_time: i64, interval: Interval) -> (r: Result<
    Vec<(String, Vec<T>)>,
    DbError,
>)
    ensures
        interval != Interval::Hourly ==> r == Err::<Vec<(String, Vec<T>)>, DbError>(DbError::NotImplemented),
        interval == Interval::Hourly ==> match r {
            Err(e) => e == DbError::InvalidTime,
            Ok(groups) => {
                &&& flatten_groups(groups@) == logs@
                &&& forall|k: int| 0 <= k < groups.len() ==> (#[trigger] groups@[k]).1.len() > 0
                &&& forall|k: int| 0 <= k < groups.len() ==> exists|h: int| 0 <= h < 24 && (#[trigger] groups@[k]).0@ == two_digits(h)
            },
        },
        interval == Interval::Hourly ==> exists|hours: Seq<Option<u32>>, starts: Seq<Option<i64>>|
            #![trigger hour_groups(times_of(logs@), hours, starts)]
            local_readings(logs@, local_time, hours, starts) && match hour_groups(times_of(logs@), hours, starts) {
                None => r == Err::<Vec<(String, Vec<T>)>, DbError>(DbError::InvalidTime),
                Some(g) => r is Ok && is_grouping(r->Ok_0@, g, logs@),
            },
{
    if interval != Interval::Hourly {
        return Err(DbError::NotImplemented);
    }
    let mut hours: Vec<Option<u32>> = Vec::new();
    let mut i: usize = 0;
    while i < logs.len()
        invariant
            i <= logs.len(),
            hours.len() == i,
            forall|j: int| 0 <= j < hours.len() ==> (#[trigger] hours@[j] matches Some(h) ==> h < 24),
            forall|j: int| 0 <= j < hours.len() ==> ((#[trigger] hours@[j]) is Some <==> spec_utc_in_range(
                logs@[j].spec_timestamp() as int,
            )),
        decreases logs.len() - i,
    {
        hours.push(local_hour_of(logs[i].timestamp()));
        i = i + 1;
    }
    let mut starts: Vec<Option<i64>> = Vec::new();
    let mut h: u32 = 0;
    while h < 24
        invariant
            h <= 24,
            starts.len() == h,
            forall|j: int| 0 <= j < starts.len() ==> ((#[trigger] starts@[j]) is Some ==> spec_utc_in_range(local_time as int)),
        decreases 24 - h,
    {
        starts.push(local_hour_start(local_time, h));
        h = h + 1;
    }
    let ghost l0 = logs@;
    let r = partition_by_hour(logs, &hours, &starts);
    proof {
        let ts = times_of(l0);
        assert(local_readings(l0, local_time, hours@, starts@));
        let _ = hour_groups(times_of(l0), hours@, starts@);
        if r is Ok {
            let groups = r->Ok_0;
            law_hour_groups_keep_every_log(groups@, l0, ts, hours@, starts@);
            let gs = hour_groups(ts, hours@, starts@)->0;
            let n = ts.len() as int;
            lemma_scan_labels(ts, hours@, starts@, n);
            assert forall|k: int| 0 <= k < groups.len() implies exists|h: int| 0 <= h < 24 && (#[trigger] groups@[k]).0@ == two_digits(h) by {
                let (hh, st, closed, open) = hour_scan(ts, hours@, starts@, n)->0;
                if k < closed.len() {
                    assert(gs[k] == closed[k]);
                }
                assert(groups@[k].0@ == two_digits(gs[k].0 as int));
            }
        }
    }
    r
}

proof fn lemma_scan_labels(ts: Seq<i64>, hours: Seq<Option<u32>>, starts: Seq<Option<i64>>, n: int)
    requires
        0 <= n,
        hour_scan(ts, hours, starts, n) is Some,
    ensures
        ({
            let st = hour_scan(ts, hours, starts, n)->0;
            &&& st.0 < 24
            &&& forall|k: int| 0 <= k < st.2.len() ==> (#[trigger] st.2[k]).0 < 24
        }),
    decreases n,
{
    if n > 0 {
        lemma_scan_labels(ts, hours, starts, n - 1);
    }
}

// ---------------------------------------------------------------------------
// Numbers as text
// ---------------------------------------------------------------------------

/// The decimal digits of `n`, without leading zeros.
pub open spec fn nat_digits(n: nat) -> Seq<char>
    decreases n,
{
    if n < 10 {
        seq![digit(n as int)]
    } else {
        nat_digits(n / 10).push(digit((n % 10) as int))
    }
}

/// `n` printed in decimal, as `{}` prints an integer.
pub open spec fn int_text(n: int) -> Seq<char> {
    if n < 0 {
        seq!['-'] + nat_digits((-n) as nat)
    } else {
        nat_digits(n as nat)
    }
}

fn digits_of(m: u64) -> (v: Vec<char>)
    ensures
        v@ == nat_digits(m as nat),
    decreases m,
{
    if m < 10 {
        let mut v: Vec<char> = Vec::new();
        v.push(digit_char(m as u32));
        v
    } else {
        let mut v = digits_of(m / 10);
        v.push(digit_char((m % 10) as u32));
        v
    }
}

/// `n` printed in decimal.
pub fn int_to_text(n: i64) -> (s: Vec<char>)
    ensures
        s@ == int_text(n as int),
{
    if n >= 0 {
        digits_of(n as u64)
    } else {
        let m: u64 = (0i128 - (n as i128)) as u64;
        let d = digits_of(m);
        let mut v: Vec<char> = Vec::new();
        v.push('-');
        let mut i: usize = 0;
        while i < d.len()
            invariant
                i <= d.len(),
                v@ == seq!['-'] + d@.take(i as int),
            decreases d.len() - i,
        {
            v.push(d[i]);
            i = i + 1;
            assert(d@.take(i as int) =~= d@.take(i - 1).push(d@[i - 1]));
        }
        assert(d@.take(d.len() as int) =~= d@);
        v
    }
}

} // verus!
