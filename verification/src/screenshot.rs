//! Screenshots: which captures are kept, the names their image files get, and
//! the `iss://` addresses under which the viewer may read them back.

use vstd::prelude::*;

use crate::db::{digit, int_text, int_to_text, nat_digits, DbError};
use crate::paths::{path_join, spec_path_join};
use crate::text::{all_ascii_digits, chars_of, is_alnum_ascii, string_from_chars};
use crate::time::{spec_utc_in_range, spec_utc_stamp, utc_stamp, FIRST_4_DIGIT_YEAR_SECS, LAST_4_DIGIT_YEAR_SECS};

verus! {

/// The event kind under which screenshots are recorded.
pub const KIND: &'static str = "screenshot";

/// The directory inside the data directory that holds the screenshots.
pub const SCREENSHOT_DIR: &'static str = "screenshot";

/// A stored screenshot record.
#[derive(Debug)]
pub struct ScreenshotLog {
    pub id: i64,
    pub event_id: i64,
    pub timestamp: i64,
    pub date: String,
    pub monitor_id: i64,
}

/// The screenshot directory inside the data directory `data_dir` (the text
/// of the `data-dir` setting, `None` when it is missing or not text).
pub fn image_dir_path(data_dir: Option<&str>) -> (r: Result<String, DbError>)
    ensures
        match data_dir {
            None => r == Err::<String, DbError>(DbError::DataDirNotSet),
            Some(d) => r is Ok && r->Ok_0@ == spec_path_join(d@, SCREENSHOT_DIR@),
        },
{
    match data_dir {
        None => Err(DbError::DataDirNotSet),
        Some(d) => Ok(path_join(d, SCREENSHOT_DIR)),
    }
}

// ---------------------------------------------------------------------------
// The iss:// addresses
// ---------------------------------------------------------------------------

/// Whether the regular-expression class `\d` of the `regex` crate (Unicode
/// `Nd`) holds the character `c`.
pub uninterp spec fn spec_decimal_digit(c: char) -> bool;

/// Whether `c` is a decimal digit in the sense of the `regex` crate's `\d`.
///
/// Trusted: `regex::Regex` with the pattern `^\d$` asked of the one-character
/// text `c`; the answer is named `spec_decimal_digit` of `c`. The crate
/// documents `\d` as Unicode's `Nd`, which holds the ASCII digits and none of
/// `/`, `\`, `.` and `-`.
#[verifier::external_body]
fn is_decimal_digit(c: char) -> (r: bool)
    ensures
        r == spec_decimal_digit(c),
        '0' <= c && c <= '9' ==> r,
        r ==> c != '/' && c != '\\' && c != '.' && c != '-',
{
    let mut buf = [0u8; 4];
    match regex::Regex::new(r"^\d$") {
        Ok(re) => re.is_match(c.encode_utf8(&mut buf)),
        Err(_) => false,
    }
}

/// `c` is none of the path separators `/` and `\`, nor `.`.
pub open spec fn plain_char(c: char) -> bool {
    c != '/' && c != '\\' && c != '.'
}

/// The fixed start of every screenshot address.
pub open spec fn iss_prefix() -> Seq<char> {
    seq!['i', 's', 's', ':', '/', '/', 'l', 'o', 'c', 'a', 'l', 'h', 'o', 's', 't', '/']
}

/// Every character of `s` is a decimal digit.
pub open spec fn all_decimal(s: Seq<char>) -> bool {
    forall|i: int| 0 <= i < s.len() ==> spec_decimal_digit(#[trigger] s[i])
}

/// Every character of `s` is an ASCII letter or digit.
pub open spec fn all_alnum(s: Seq<char>) -> bool {
    forall|i: int| 0 <= i < s.len() ==> is_alnum_ascii(#[trigger] s[i])
}

/// `u` is a screenshot address written with ASCII digits only: what
/// `iss_uri_ok` asks, with `0` to `9` for every digit.
pub open spec fn iss_ascii_form(u: Seq<char>) -> bool {
    &&& u.len() >= 32
    &&& u.take(16) == iss_prefix()
    &&& all_ascii_digits(u.subrange(16, 24))
    &&& u[24] == '/'
    &&& all_ascii_digits(u.subrange(25, 31))
    &&& u[31] == '-'
    &&& {
        let rest = u.skip(32);
        ||| all_alnum(rest)
        ||| rest.len() >= 2 && rest[rest.len() - 2] == '-' && rest[rest.len() - 1] == 't' && all_alnum(
            rest.take(rest.len() - 2),
        )
    }
}

/// A screenshot name: six digits, `-`, ASCII letters and digits, and an
/// optional `-t` (the thumbnail).
pub open spec fn iss_name_ok(f: Seq<char>) -> bool {
    &&& f.len() >= 7
    &&& all_decimal(f.take(6))
    &&& f[6] == '-'
    &&& {
        let rest = f.skip(7);
        ||| all_alnum(rest)
        ||| rest.len() >= 2 && rest[rest.len() - 2] == '-' && rest[rest.len() - 1] == 't' && all_alnum(
            rest.take(rest.len() - 2),
        )
    }
}

/// `u` is a screenshot address: `iss://localhost/`, eight digits, `/`, and a
/// screenshot name; the regular expression
/// `^iss://localhost/\d{8}/\d{6}-[A-Za-z0-9]*(-t)?$`.
pub open spec fn iss_uri_ok(u: Seq<char>) -> bool {
    &&& u.len() >= 25
    &&& u.take(16) == iss_prefix()
    &&& all_decimal(u.subrange(16, 24))
    &&& u[24] == '/'
    &&& iss_name_ok(u.skip(25))
}

fn all_decimal_in(v: &Vec<char>, from: usize, to: usize) -> (r: bool)
    requires
        from <= to <= v.len(),
    ensures
        r == all_decimal(v@.subrange(from as int, to as int)),
        r ==> forall|k: int| from <= k < to ==> plain_char(#[trigger] v@[k]),
        all_ascii_digits(v@.subrange(from as int, to as int)) ==> r,
{
    let mut i = from;
    while i < to
        invariant
            from <= i <= to <= v.len(),
            forall|k: int| from <= k < i ==> spec_decimal_digit(#[trigger] v@[k]),
            forall|k: int| from <= k < i ==> plain_char(#[trigger] v@[k]),
        decreases to - i,
    {
        if !is_decimal_digit(v[i]) {
            assert(v@.subrange(from as int, to as int)[i - from] == v@[i as int]);
            return false;
        }
        i = i + 1;
    }
    assert forall|k: int| 0 <= k < to - from implies spec_decimal_digit(#[trigger] v@.subrange(from as int, to as int)[k]) by {
        assert(v@.subrange(from as int, to as int)[k] == v@[from + k]);
    }
    true
}

fn all_alnum_in(v: &Vec<char>, from: usize, to: usize) -> (r: bool)
    requires
        from <= to <= v.len(),
    ensures
        r == all_alnum(v@.subrange(from as int, to as int)),
{
    let mut i = from;
    while i < to
        invariant
            from <= i <= to <= v.len(),
            forall|k: int| from <= k < i ==> is_alnum_ascii(#[trigger] v@[k]),
        decreases to - i,
    {
        let c = v[i];
        if !(('A' <= c && c <= 'Z') || ('a' <= c && c <= 'z') || ('0' <= c && c <= '9')) {
            assert(v@.subrange(from as int, to as int)[i - from] == v@[i as int]);
            return false;
        }
        i = i + 1;
    }
    assert forall|k: int| 0 <= k < to - from implies is_alnum_ascii(#[trigger] v@.subrange(from as int, to as int)[k]) by {
        assert(v@.subrange(from as int, to as int)[k] == v@[from + k]);
    }
    true
}

fn check_iss_chars(u: &Vec<char>) -> (r: bool)
    ensures
        r == iss_uri_ok(u@),
        r ==> forall|k: int| (16 <= k < 24 || 25 <= k < u.len()) ==> plain_char(#[trigger] u@[k]),
        iss_ascii_form(u@) ==> r,
{
    let n = u.len();
    if n < 32 {
        return false;
    }
    let prefix = ['i', 's', 's', ':', '/', '/', 'l', 'o', 'c', 'a', 'l', 'h', 'o', 's', 't', '/'];
    let mut i: usize = 0;
    while i < 16
        invariant
            i <= 16,
            n == u.len(),
            n >= 32,
            prefix@ == iss_prefix(),
            forall|k: int| 0 <= k < i ==> u@[k] == iss_prefix()[k],
        decreases 16 - i,
    {
        if u[i] != prefix[i] {
            assert(u@.take(16)[i as int] != iss_prefix()[i as int]);
            return false;
        }
        i = i + 1;
    }
    assert(u@.take(16) =~= iss_prefix());
    if !all_decimal_in(u, 16, 24) {
        return false;
    }
    if u[24] != '/' {
        return false;
    }
    let ghost f = u@.skip(25);
    assert(f.take(6) =~= u@.subrange(25, 31));
    if !all_decimal_in(u, 25, 31) {
        return false;
    }
    if u[31] != '-' {
        return false;
    }
    let ghost rest = f.skip(7);
    assert(rest =~= u@.subrange(32, n as int));
    if all_alnum_in(u, 32, n) {
        assert forall|k: int| 32 <= k < n implies plain_char(#[trigger] u@[k]) by {
            assert(u@.subrange(32, n as int)[k - 32] == u@[k]);
        }
        return true;
    }
    if n >= 34 && u[n - 2] == '-' && u[n - 1] == 't' {
        assert(rest.take(rest.len() - 2) =~= u@.subrange(32, n - 2));
        let ok = all_alnum_in(u, 32, n - 2);
        if ok {
            assert forall|k: int| 32 <= k < n implies plain_char(#[trigger] u@[k]) by {
                if k < n - 2 {
                    assert(u@.subrange(32, n - 2)[k - 32] == u@[k]);
                }
            }
        }
        ok
    } else {
        false
    }
}

/// Whether `uri` is a screenshot address (see `iss_uri_ok`).
pub fn check_iss_uri(uri: &str) -> (r: bool)
    ensures
        r == iss_uri_ok(uri@),
        iss_ascii_form(uri@) ==> r,
{
    let u = chars_of(uri);
    check_iss_chars(&u)
}

/// The date directory and image file name that the screenshot address `uri`
/// refers to: the eight digits after `iss://localhost/`, and the name after
/// the next `/` with `.jpg` appended; `None` for any other text.
pub fn iss_image_target(uri: &str) -> (r: Option<(String, String)>)
    ensures
        r is Some == iss_uri_ok(uri@),
        iss_ascii_form(uri@) ==> r is Some,
        r matches Some((date, file)) ==> date@ == uri@.subrange(16, 24) && file@ == uri@.skip(25) + ".jpg"@,
        r matches Some((date, file)) ==> forall|k: int| 0 <= k < date@.len() ==> plain_char(#[trigger] date@[k]),
        r matches Some((date, file)) ==> forall|k: int| 0 <= k < file@.len() - 4 ==> plain_char(#[trigger] file@[k]),
{
    let u = chars_of(uri);
    if !check_iss_chars(&u) {
        return None;
    }
    let mut date: Vec<char> = Vec::new();
    let mut i: usize = 16;
    while i < 24
        invariant
            16 <= i <= 24,
            u.len() >= 25,
            date@ == u@.subrange(16, i as int),
        decreases 24 - i,
    {
        date.push(u[i]);
        i = i + 1;
    }
    let mut file: Vec<char> = Vec::new();
    let mut j: usize = 25;
    while j < u.len()
        invariant
            25 <= j <= u.len(),
            file@ == u@.subrange(25, j as int),
        decreases u.len() - j,
    {
        file.push(u[j]);
        j = j + 1;
    }
    let ext = chars_of(".jpg");
    let mut k: usize = 0;
    let ghost base = file@;
    while k < ext.len()
        invariant
            k <= ext.len(),
            file@ == base + ext@.take(k as int),
        decreases ext.len() - k,
    {
        file.push(ext[k]);
        k = k + 1;
        assert(ext@.take(k as int) =~= ext@.take(k - 1).push(ext@[k - 1]));
    }
    assert(ext@.take(ext.len() as int) =~= ext@);
    assert(base =~= u@.skip(25));
    proof {
        reveal_strlit(".jpg");
        assert forall|k: int| 0 <= k < date@.len() implies plain_char(#[trigger] date@[k]) by {
            assert(date@[k] == u@[16 + k]);
        }
        assert forall|k: int| 0 <= k < file@.len() - 4 implies plain_char(#[trigger] file@[k]) by {
            assert(file@[k] == u@[25 + k]);
        }
    }
    Some((string_from_chars(&date), string_from_chars(&file)))
}

fn append(v: &mut Vec<char>, w: &Vec<char>)
    ensures
        final(v)@ == old(v)@ + w@,
{
    let mut i: usize = 0;
    let ghost head = v@;
    while i < w.len()
        invariant
            i <= w.len(),
            v@ == head + w@.take(i as int),
        decreases w.len() - i,
    {
        v.push(w[i]);
        i = i + 1;
        assert(w@.take(i as int) =~= w@.take(i - 1).push(w@[i - 1]));
    }
    assert(w@.take(w.len() as int) =~= w@);
}

// ---------------------------------------------------------------------------
// Names of screenshot files
// ---------------------------------------------------------------------------

/// The UTC day directory of a screenshot taken at `secs`.
pub open spec fn day_of(secs: int) -> Seq<char> {
    spec_utc_stamp(secs).0
}

/// The base name (`HHMMSS-monitor`) of a screenshot taken at `secs` on `monitor`.
pub open spec fn base_name(secs: int, monitor: int) -> Seq<char> {
    spec_utc_stamp(secs).1.push('-') + int_text(monitor)
}

/// The files a screenshot taken at `secs` on `monitor` is saved as: its day
/// directory, its image `HHMMSS-monitor.jpg` and its thumbnail
/// `HHMMSS-monitor-t.jpg`; `None` when `secs` is not a calendar date.
pub fn screenshot_file_names(secs: i64, monitor: i64) -> (r: Option<(String, String, String)>)
    ensures
        r is Some == spec_utc_in_range(secs as int),
        r matches Some((d, image, thumb)) ==> {
            &&& d@ == day_of(secs as int)
            &&& image@ == base_name(secs as int, monitor as int) + ".jpg"@
            &&& thumb@ == base_name(secs as int, monitor as int) + "-t.jpg"@
        },
{
    let (day, time) = match utc_stamp(secs) {
        None => { return None; },
        Some(st) => st,
    };
    let mut base = chars_of(time.as_str());
    base.push('-');
    let m = int_to_text(monitor);
    append(&mut base, &m);
    let mut image: Vec<char> = Vec::new();
    append(&mut image, &base);
    append(&mut image, &chars_of(".jpg"));
    let mut thumb: Vec<char> = Vec::new();
    append(&mut thumb, &base);
    append(&mut thumb, &chars_of("-t.jpg"));
    proof {
        assert(image@ =~= base_name(secs as int, monitor as int) + ".jpg"@);
        assert(thumb@ =~= base_name(secs as int, monitor as int) + "-t.jpg"@);
    }
    Some((day, string_from_chars(&image), string_from_chars(&thumb)))
}

/// The name under which the viewer asks for a screenshot taken at `secs` on
/// `monitor`: `YYYYMMDD/HHMMSS-monitor`; `None` when `secs` is not a
/// calendar date.
pub fn screenshot_name(secs: i64, monitor: i64) -> (r: Option<String>)
    ensures
        r is Some == spec_utc_in_range(secs as int),
        r matches Some(n) ==> n@ == day_of(secs as int).push('/') + base_name(secs as int, monitor as int),
        // a screenshot of the years 0 to 9999 on a monitor of id 0 or more can
        // be asked for back with its `iss://` address
        FIRST_4_DIGIT_YEAR_SECS <= secs <= LAST_4_DIGIT_YEAR_SECS && monitor >= 0 ==> r is Some
            && iss_ascii_form(iss_prefix() + r->0@),
{
    let (day, time) = match utc_stamp(secs) {
        None => { return None; },
        Some(st) => st,
    };
    let mut v = chars_of(day.as_str());
    v.push('/');
    append(&mut v, &chars_of(time.as_str()));
    v.push('-');
    append(&mut v, &int_to_text(monitor));
    proof {
        assert(v@ =~= day_of(secs as int).push('/') + base_name(secs as int, monitor as int));
        if FIRST_4_DIGIT_YEAR_SECS <= secs <= LAST_4_DIGIT_YEAR_SECS && monitor >= 0 {
            lemma_digits_alnum(monitor as nat);
            lemma_name_form(day@, time@, int_text(monitor as int));
            assert(v@ =~= day@.push('/') + (time@.push('-') + int_text(monitor as int)));
        }
    }
    Some(string_from_chars(&v))
}

/// The decimal digits of a number are ASCII letters or digits.
proof fn lemma_digits_alnum(n: nat)
    ensures
        all_alnum(nat_digits(n)),
        nat_digits(n).len() >= 1,
    decreases n,
{
    if n >= 10 {
        lemma_digits_alnum(n / 10);
        let d = (n % 10) as int;
        assert(is_alnum_ascii(digit(d)));
        assert forall|i: int| 0 <= i < nat_digits(n).len() implies is_alnum_ascii(#[trigger] nat_digits(n)[i]) by {
            if i < nat_digits(n / 10).len() {
                assert(nat_digits(n)[i] == nat_digits(n / 10)[i]);
            }
        }
    } else {
        assert(is_alnum_ascii(digit(n as int)));
    }
}

/// `iss://localhost/`, an eight-digit day, `/`, a six-digit time, `-` and
/// ASCII letters and digits make a screenshot address.
proof fn lemma_name_form(day: Seq<char>, time: Seq<char>, m: Seq<char>)
    requires
        day.len() == 8,
        all_ascii_digits(day),
        time.len() == 6,
        all_ascii_digits(time),
        all_alnum(m),
    ensures
        iss_ascii_form(iss_prefix() + (day.push('/') + (time.push('-') + m))),
{
    let u = iss_prefix() + (day.push('/') + (time.push('-') + m));
    assert(u.take(16) =~= iss_prefix());
    assert(u.subrange(16, 24) =~= day);
    assert(u[24] == '/');
    assert(u.subrange(25, 31) =~= time);
    assert(u[31] == '-');
    assert(u.skip(32) =~= m);
}

/// The viewer names of the screenshots `logs`, in order; `None` when a
/// screenshot's time is not a calendar date.
pub fn screenshot_names(logs: &Vec<ScreenshotLog>) -> (r: Option<Vec<String>>)
    ensures
        r is Some == forall|i: int| 0 <= i < logs.len() ==> spec_utc_in_range(#[trigger] logs@[i].timestamp as int),
        r matches Some(names) ==> names.len() == logs.len() && forall|i: int|
            0 <= i < logs.len() ==> (#[trigger] names@[i])@ == day_of(logs@[i].timestamp as int).push('/')
                + base_name(logs@[i].timestamp as int, logs@[i].monitor_id as int),
{
    let mut names: Vec<String> = Vec::new();
    let mut i: usize = 0;
    while i < logs.len()
        invariant
            i <= logs.len(),
            names.len() == i,
            forall|k: int| 0 <= k < i ==> spec_utc_in_range(#[trigger] logs@[k].timestamp as int),
            forall|k: int|
                0 <= k < i ==> (#[trigger] names@[k])@ == day_of(logs@[k].timestamp as int).push('/')
                    + base_name(logs@[k].timestamp as int, logs@[k].monitor_id as int),
        decreases logs.len() - i,
    {
        match screenshot_name(logs[i].timestamp, logs[i].monitor_id) {
            None => { return None; },
            Some(n) => names.push(n),
        }
        i = i + 1;
    }
    Some(names)
}

/// One row of the day listing of screenshots: the event's id, time and day,
/// and the screenshot's id and monitor.
#[derive(Debug)]
pub struct ScreenshotRow {
    pub event_id: i64,
    pub timestamp: i64,
    pub date: String,
    pub id: i64,
    pub monitor_id: i64,
}

/// Turns the rows of the day listing into screenshot records, in order.
pub fn screenshot_logs_from_rows(rows: Vec<ScreenshotRow>) -> (logs: Vec<ScreenshotLog>)
    ensures
        logs.len() == rows.len(),
        forall|i: int|
            0 <= i < rows.len() ==> (#[trigger] logs@[i]) == (ScreenshotLog {
                id: rows@[i].id,
                event_id: rows@[i].event_id,
                timestamp: rows@[i].timestamp,
                date: rows@[i].date,
                monitor_id: rows@[i].monitor_id,
            }),
{
    let mut logs: Vec<ScreenshotLog> = Vec::new();
    let ghost rows0 = rows@;
    for row in it: rows.into_iter()
        invariant
            it.seq() == rows0,
            logs.len() == it.index(),
            forall|i: int|
                0 <= i < logs.len() ==> (#[trigger] logs@[i]) == (ScreenshotLog {
                    id: rows0[i].id,
                    event_id: rows0[i].event_id,
                    timestamp: rows0[i].timestamp,
                    date: rows0[i].date,
                    monitor_id: rows0[i].monitor_id,
                }),
    {
        logs.push(
            ScreenshotLog {
                id: row.id,
                event_id: row.event_id,
                timestamp: row.timestamp,
                date: row.date,
                monitor_id: row.monitor_id,
            },
        );
    }
    logs
}

// ---------------------------------------------------------------------------
// Blank screens
// ---------------------------------------------------------------------------

/// Channel values up to this count as black.
pub const ALMOST_BLACK_THRESHOLD: u8 = 20;

/// More bright samples than this make a screen not blank.
pub const NON_BLANK_THRESHOLD: u32 = 400;

/// Every this many pixels one is sampled.
pub const SAMPLE_STEP: usize = 120;

/// Pixel `p` of the RGBA bytes `raw` has a red, green or blue value above black.
pub open spec fn pixel_bright(raw: Seq<u8>, p: int) -> bool {
    raw[4 * p] > ALMOST_BLACK_THRESHOLD || raw[4 * p + 1] > ALMOST_BLACK_THRESHOLD || raw[4 * p + 2]
        > ALMOST_BLACK_THRESHOLD
}

/// How many of the first `k` sampled pixels (pixels 0, 120, 240, ...) are bright.
pub open spec fn bright_samples(raw: Seq<u8>, k: int) -> int
    decreases k,
{
    if k <= 0 {
        0
    } else {
        bright_samples(raw, k - 1) + if pixel_bright(raw, SAMPLE_STEP * (k - 1)) {
            1int
        } else {
            0int
        }
    }
}

/// The number of sampled pixels in an image of `npix` pixels.
pub open spec fn sample_total(npix: int) -> int {
    (npix + 119) / 120
}

/// The image with RGBA bytes `raw` is blank: at most 400 of its sampled
/// pixels are bright.
pub open spec fn blank(raw: Seq<u8>) -> bool {
    bright_samples(raw, sample_total((raw.len() / 4) as int)) <= NON_BLANK_THRESHOLD
}

proof fn lemma_bright_samples_grow(raw: Seq<u8>, k: int, m: int)
    requires
        0 <= k <= m,
    ensures
        bright_samples(raw, k) <= bright_samples(raw, m),
    decreases m - k,
{
    if k < m {
        lemma_bright_samples_grow(raw, k, m - 1);
    }
}

/// Whether the screen whose RGBA bytes are `raw` (four per pixel, row after
/// row) is blank: every 120th pixel is sampled, and the screen is blank unless
/// more than 400 samples are brighter than almost black.
pub fn is_blank(raw: &[u8]) -> (r: bool)
    ensures
        r == blank(raw@),
{
    let npix = raw.len() / 4;
    let mut count: u32 = 0;
    let mut p: usize = 0;
    let ghost mut k: int = 0;
    while p < npix
        invariant
            npix == raw@.len() / 4,
            p == SAMPLE_STEP * k,
            0 <= k,
            SAMPLE_STEP * (k - 1) < npix || k == 0,
            count == bright_samples(raw@, k),
            count <= NON_BLANK_THRESHOLD,
        decreases npix + SAMPLE_STEP - p,
    {
        assert(4 * npix <= raw@.len()) by (nonlinear_arith)
            requires
                npix == raw@.len() / 4,
        ;
        assert(4 * p + 3 < raw@.len());
        assert(raw@.len() == raw.len());
        let q: usize = 4 * p;
        let bright = raw[q] > ALMOST_BLACK_THRESHOLD || raw[q + 1] > ALMOST_BLACK_THRESHOLD || raw[q + 2]
            > ALMOST_BLACK_THRESHOLD;
        if bright {
            count = count + 1;
        }
        proof {
            k = k + 1;
        }
        if count > NON_BLANK_THRESHOLD {
            proof {
                assert(sample_total(npix as int) >= k) by (nonlinear_arith)
                    requires
                        SAMPLE_STEP * (k - 1) < npix,
                        SAMPLE_STEP == 120,
                ;
                lemma_bright_samples_grow(raw@, k, sample_total(npix as int));
            }
            return false;
        }
        p = p + SAMPLE_STEP;
    }
    proof {
        assert(sample_total(npix as int) == k) by (nonlinear_arith)
            requires
                SAMPLE_STEP * (k - 1) < npix || k == 0,
                npix <= SAMPLE_STEP * k,
                SAMPLE_STEP == 120,
                0 <= k,
                npix >= 0,
        ;
    }
    true
}

/// The size of a screenshot's thumbnail: an eighth of each side.
pub fn thumbnail_size(width: u32, height: u32) -> (r: (u32, u32))
    ensures
        r == (width / 8, height / 8),
{
    (width / 8, height / 8)
}

} // verus!
