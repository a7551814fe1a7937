//! Browser activity reported by the browser extension: which tab reports are
//! recorded, how URLs are split for storage and put back together, and the
//! port the report server listens on.

use vstd::prelude::*;

use crate::db::Timestamp;
use crate::text::{chars_of, owned, string_from_chars};
use crate::time::{spec_utc_in_range, utc_seconds_from_millis};

verus! {

/// The event kind under which browser logs are recorded.
pub const KIND: &'static str = "browser";

/// The setting that holds the report server's port.
pub const SERVER_PORT_SETTING: &'static str = "server-port";

/// The report server's port when the setting gives none.
pub const DEFAULT_SERVER_PORT: u16 = 3294;

/// `url::ParseError`, carried through unchanged.
#[verifier::external_type_specification]
#[verifier::external_body]
pub struct ExUrlParseError(url::ParseError);

/// What `url::Url::parse` makes of `url`: its serialization up to the end of
/// the port, up to the end of the path, and from `Position::BeforeQuery` on
/// (after the `?`: the query and any fragment; without a query, the fragment
/// from its `#`); `None` when it is not a URL.
pub uninterp spec fn spec_url_parts(url: Seq<char>) -> Option<(Seq<char>, Seq<char>, Seq<char>)>;

/// Parses `url` with `url::Url::parse` and slices its serialization at
/// `Position::AfterPort`, `Position::AfterPath` and from `Position::BeforeQuery`.
///
/// Trusted: the three texts, or the failure, are named `spec_url_parts` of
/// the URL's characters; the parser's rules are not stated.
#[verifier::external_body]
fn url_parts(url: &str) -> (r: Result<(String, String, String), url::ParseError>)
    ensures
        match r {
            Ok((origin, path, tail)) => spec_url_parts(url@) == Some((origin@, path@, tail@)),
            Err(_) => spec_url_parts(url@) is None,
        },
{
    let parsed = url::Url::parse(url)?;
    Ok(
        (
            parsed[..url::Position::AfterPort].to_string(),
            parsed[..url::Position::AfterPath].to_string(),
            parsed[url::Position::BeforeQuery..].to_string(),
        ),
    )
}

/// Why a browser report cannot be recorded.
#[derive(Debug)]
pub enum BrowserError {
    /// The URL does not parse.
    InvalidUrl(url::ParseError),
    /// The report's time is outside the range of calendar dates.
    InvalidTimestamp,
}

/// The URL without its query, of the parts of a parsed URL.
pub open spec fn url_path_part(parts: (Seq<char>, Seq<char>, Seq<char>)) -> Seq<char> {
    parts.1
}

/// A URL as it is stored: its origin, the URL without its query, and the rest
/// after the path (the query and any fragment, or a fragment alone from its
/// `#`), `None` when that is empty.
pub open spec fn url_split(parts: (Seq<char>, Seq<char>, Seq<char>)) -> (Seq<char>, Seq<char>, Option<Seq<char>>) {
    (parts.0, parts.1, if parts.2.len() == 0 { None } else { Some(parts.2) })
}

/// Splits `url` for storage into its origin, the URL without its query, and
/// the query, or fails when it does not parse.
pub fn parse_url(url: &str) -> (r: Result<(String, String, Option<String>), BrowserError>)
    ensures
        spec_url_parts(url@) is None <==> r is Err,
        r is Err ==> r matches Err(BrowserError::InvalidUrl(_)),
        r matches Ok((o, p, q)) ==> (o@, p@, match q { Some(q) => Some(q@), None => None }) == url_split(
            spec_url_parts(url@)->0,
        ),
{
    match url_parts(url) {
        Err(e) => Err(BrowserError::InvalidUrl(e)),
        Ok((origin, path, tail)) => {
            let query = if tail.as_str().is_empty() {
                None
            } else {
                Some(tail)
            };
            Ok((origin, path, query))
        },
    }
}

/// The URL shown for a stored URL `url` and its stored query: the URL alone
/// when there is no query or it is empty, else `url?query`.
pub open spec fn shown_url(url: Seq<char>, query: Option<Seq<char>>) -> Seq<char> {
    match query {
        None => url,
        Some(q) => if q.len() == 0 {
            url
        } else {
            url.push('?') + q
        },
    }
}

/// The URL shown for the stored `url` and `query`.
pub fn url_with_query(url: String, query: Option<String>) -> (r: String)
    ensures
        r@ == shown_url(url@, match query { Some(q) => Some(q@), None => None }),
{
    match query {
        None => url,
        Some(q) => {
            if q.as_str().is_empty() {
                url
            } else {
                let mut cs = chars_of(url.as_str());
                cs.push('?');
                let qs = chars_of(q.as_str());
                let mut i: usize = 0;
                let ghost head = cs@;
                while i < qs.len()
                    invariant
                        i <= qs.len(),
                        cs@ == head + qs@.take(i as int),
                    decreases qs.len() - i,
                {
                    cs.push(qs[i]);
                    i = i + 1;
                    assert(qs@.take(i as int) =~= qs@.take(i - 1).push(qs@[i - 1]));
                }
                assert(qs@.take(qs.len() as int) =~= qs@);
                string_from_chars(&cs)
            }
        },
    }
}

/// A tab report from the browser extension.
#[derive(Debug)]
pub struct TabInfo {
    pub tab_id: Option<i64>,
    pub url: Option<String>,
    pub title: Option<String>,
    pub fav_icon_url: Option<String>,
    pub referrer: Option<String>,
    pub opener_tab_id: Option<i64>,
    pub window_id: Option<i64>,
    pub timestamp_ms: i64,
}

/// The whole seconds since the epoch of the report `info` (its milliseconds
/// rounded down), or `None` when that is not a calendar date.
pub fn tab_seconds(info: &TabInfo) -> (r: Option<i64>)
    ensures
        r is Some == spec_utc_in_range((info.timestamp_ms as int) / 1000),
        r matches Some(s) ==> s == (info.timestamp_ms as int) / 1000,
{
    utc_seconds_from_millis(info.timestamp_ms)
}

/// The stored URL whose last update decides whether the report `info` is
/// debounced: `None` when the report has no URL (it is then never debounced).
pub fn debounce_url(info: &TabInfo) -> (r: Result<Option<String>, BrowserError>)
    ensures
        info.url is None ==> r matches Ok(None),
        info.url matches Some(u) ==> (spec_url_parts(u@) is None <==> r is Err),
        info.url matches Some(u) ==> (r matches Ok(Some(p)) ==> p@ == url_path_part(spec_url_parts(u@)->0)),
{
    match &info.url {
        None => Ok(None),
        Some(u) => {
            let (_origin, path, _query) = parse_url(u.as_str())?;
            Ok(Some(path))
        },
    }
}

/// A stored browser log.
#[derive(Debug)]
pub struct BrowserLog {
    pub id: i64,
    pub timestamp: i64,
    pub date: String,
    pub url: String,
    pub title: Option<String>,
    pub fav_icon_url: Option<String>,
    pub referrer: Option<String>,
    pub tab_id: Option<i64>,
    pub opener_tab_id: Option<i64>,
    pub window_id: Option<i64>,
}

impl Timestamp for BrowserLog {
    open spec fn spec_timestamp(&self) -> i64 {
        self.timestamp
    }

    fn timestamp(&self) -> (t: i64) {
        self.timestamp
    }
}

impl BrowserLog {
    /// The log to record for the report `info`, which has a URL; id and date
    /// are placeholders until it is stored. Fails when the report's time is
    /// not a calendar date.
    pub fn from_tab(info: TabInfo) -> (r: Result<BrowserLog, BrowserError>)
        requires
            info.url is Some,
        ensures
            r is Ok == spec_utc_in_range((info.timestamp_ms as int) / 1000),
            r matches Ok(log) ==> {
                &&& log.id == 0
                &&& log.timestamp == (info.timestamp_ms as int) / 1000
                &&& log.date@ == Seq::<char>::empty()
                &&& log.url == info.url->0
                &&& log.title == info.title
                &&& log.fav_icon_url == info.fav_icon_url
                &&& log.referrer == info.referrer
                &&& log.tab_id == info.tab_id
                &&& log.opener_tab_id == info.opener_tab_id
                &&& log.window_id == info.window_id
            },
    {
        let secs = match tab_seconds(&info) {
            None => { return Err(BrowserError::InvalidTimestamp); },
            Some(s) => s,
        };
        let url = match info.url {
            Some(u) => u,
            None => String::new(),
        };
        Ok(
            BrowserLog {
                id: 0,
                timestamp: secs,
                date: String::new(),
                url,
                title: info.title,
                fav_icon_url: info.fav_icon_url,
                referrer: info.referrer,
                tab_id: info.tab_id,
                opener_tab_id: info.opener_tab_id,
                window_id: info.window_id,
            },
        )
    }
}

/// Whether a stored origin's favicon is to be set: it has none and the
/// report brings one.
pub fn fav_icon_needs_update(stored: &Option<String>, reported: &Option<String>) -> (r: bool)
    ensures
        r == (stored is None && reported is Some),
{
    stored.is_none() && reported.is_some()
}

/// One row of the day listing of browser logs.
#[derive(Debug)]
pub struct BrowserRow {
    pub timestamp: i64,
    pub id: i64,
    pub url_query: Option<String>,
    pub title: Option<String>,
    pub tab_id: Option<i64>,
    pub opener_tab_id: Option<i64>,
    pub window_id: Option<i64>,
    pub fav_icon_url: Option<String>,
    pub url: String,
    pub referrer: Option<String>,
}

/// The browser log that the row `row` of the listing for `date` stands for.
pub open spec fn browser_log_of_row(row: BrowserRow, date: Seq<char>, log: BrowserLog) -> bool {
    &&& log.id == row.id
    &&& log.timestamp == row.timestamp
    &&& log.date@ == date
    &&& log.url@ == shown_url(row.url@, match row.url_query { Some(q) => Some(q@), None => None })
    &&& log.title == row.title
    &&& log.fav_icon_url == row.fav_icon_url
    &&& log.referrer == row.referrer
    &&& log.tab_id == row.tab_id
    &&& log.opener_tab_id == row.opener_tab_id
    &&& log.window_id == row.window_id
}

/// Turns the rows of the day listing for `date` into browser logs, in order.
pub fn browser_logs_from_rows(rows: Vec<BrowserRow>, date: &str) -> (logs: Vec<BrowserLog>)
    ensures
        logs.len() == rows.len(),
        forall|i: int| 0 <= i < rows.len() ==> browser_log_of_row(#[trigger] rows@[i], date@, logs@[i]),
{
    let mut logs: Vec<BrowserLog> = Vec::new();
    let ghost rows0 = rows@;
    for row in it: rows.into_iter()
        invariant
            it.seq() == rows0,
            logs.len() == it.index(),
            forall|i: int| 0 <= i < logs.len() ==> browser_log_of_row(#[trigger] rows0[i], date@, logs@[i]),
    {
        let url = url_with_query(row.url, row.url_query);
        logs.push(
            BrowserLog {
                id: row.id,
                timestamp: row.timestamp,
                date: owned(date),
                url,
                title: row.title,
                fav_icon_url: row.fav_icon_url,
                referrer: row.referrer,
                tab_id: row.tab_id,
                opener_tab_id: row.opener_tab_id,
                window_id: row.window_id,
            },
        );
    }
    logs
}

// ---------------------------------------------------------------------------
// The report server's port
// ---------------------------------------------------------------------------

/// `c` is an ASCII decimal digit.
pub open spec fn is_ascii_digit(c: char) -> bool {
    '0' <= c && c <= '9'
}

/// The value of the decimal digits `d`.
pub open spec fn decimal_value(d: Seq<char>) -> nat
    decreases d.len(),
{
    if d.len() == 0 {
        0
    } else {
        decimal_value(d.drop_last()) * 10 + ((d.last() as nat) - ('0' as nat)) as nat
    }
}

/// The digits of `s` after an optional leading `+`.
pub open spec fn unsigned_digits(s: Seq<char>) -> Seq<char> {
    if s.len() > 0 && s[0] == '+' {
        s.skip(1)
    } else {
        s
    }
}

/// What `u16::from_str` gives for `s`: an optional `+` followed by one or
/// more ASCII digits whose value fits in 16 bits; anything else fails.
pub open spec fn parse_u16(s: Seq<char>) -> Option<u16> {
    let d = unsigned_digits(s);
    if d.len() > 0 && (forall|i: int| 0 <= i < d.len() ==> is_ascii_digit(#[trigger] d[i]))
        && decimal_value(d) <= u16::MAX {
        Some(decimal_value(d) as u16)
    } else {
        None
    }
}

proof fn lemma_parse_fails(s: Seq<char>, k: int)
    requires
        0 <= k < unsigned_digits(s).len(),
        !is_ascii_digit(unsigned_digits(s)[k]) || decimal_value(unsigned_digits(s).take(k + 1)) > u16::MAX,
    ensures
        parse_u16(s) is None,
{
    let d = unsigned_digits(s);
    if d.len() > 0 && (forall|i: int| 0 <= i < d.len() ==> is_ascii_digit(#[trigger] d[i])) {
        assert(is_ascii_digit(d[k]));
        lemma_decimal_value_grows(d, k + 1);
    }
}

proof fn lemma_decimal_value_grows(d: Seq<char>, k: int)
    requires
        0 <= k <= d.len(),
        forall|i: int| 0 <= i < d.len() ==> is_ascii_digit(#[trigger] d[i]),
    ensures
        decimal_value(d.take(k)) <= decimal_value(d),
    decreases d.len() - k,
{
    if k < d.len() {
        lemma_decimal_value_grows(d, k + 1);
        assert(d.take(k + 1).drop_last() =~= d.take(k));
        assert(is_ascii_digit(d.take(k + 1).last()));
    } else {
        assert(d.take(k) =~= d);
    }
}

/// Parses `s` as `u16::from_str` does.
pub fn parse_port(s: &str) -> (r: Option<u16>)
    ensures
        r == parse_u16(s@),
{
    let cs = chars_of(s);
    let mut i: usize = 0;
    if cs.len() > 0 && cs[0] == '+' {
        i = 1;
    }
    let ghost d = unsigned_digits(s@);
    proof {
        assert(d =~= cs@.skip(i as int));
    }
    if i >= cs.len() {
        return None;
    }
    let start = i;
    let mut value: u32 = 0;
    while i < cs.len()
        invariant
            start <= i <= cs.len(),
            start < cs.len(),
            cs@ == s@,
            d == cs@.skip(start as int),
            d == unsigned_digits(s@),
            value <= u16::MAX,
            value == decimal_value(d.take(i - start)),
            forall|k: int| 0 <= k < i - start ==> is_ascii_digit(#[trigger] d[k]),
        decreases cs.len() - i,
    {
        let c = cs[i];
        if !('0' <= c && c <= '9') {
            proof {
                assert(d[i - start] == c);
                assert(!is_ascii_digit(d[i - start]));
                lemma_parse_fails(s@, i - start);
            }
            return None;
        }
        let digit = (c as u32) - ('0' as u32);
        let next = value * 10 + digit;
        proof {
            assert(d.take(i - start + 1).drop_last() =~= d.take(i - start));
            assert(d.take(i - start + 1).last() == c);
        }
        if next > 65535 {
            proof {
                let k = i - start + 1;
                assert(decimal_value(d.take(k)) == decimal_value(d.take(k - 1)) * 10 + ((c as nat) - ('0' as nat)) as nat);
                assert(decimal_value(d.take(k)) > u16::MAX);
                lemma_parse_fails(s@, k - 1);
            }
            return None;
        }
        value = next;
        i = i + 1;
    }
    proof {
        assert(d.take(d.len() as int) =~= d);
    }
    Some(value as u16)
}

/// The report server's port from the text of the `server-port` setting
/// (`None` when it is missing or not text): the setting when it parses as a
/// port, the default port otherwise.
pub fn server_port_from(setting: Option<&str>) -> (p: u16)
    ensures
        p == match setting {
            Some(s) => match parse_u16(s@) {
                Some(v) => v,
                None => DEFAULT_SERVER_PORT,
            },
            None => DEFAULT_SERVER_PORT,
        },
{
    match setting {
        None => DEFAULT_SERVER_PORT,
        Some(s) => match parse_port(s) {
            Some(v) => v,
            None => DEFAULT_SERVER_PORT,
        },
    }
}

} // verus!
