//! File activity: which file events are recorded, the watched directories
//! setting, and how stored rows turn back into file logs.

use vstd::prelude::*;

use crate::db::Timestamp;
use crate::paths::{is_separator_char, main_separator, path_file_name, spec_path_file_name};
use crate::search::join;
use crate::text::{chars_eq, chars_of, contains_text, find_text, owned, string_from_chars};

verus! {

/// The event kind under which file logs are recorded.
pub const KIND: &'static str = "file";

/// The setting that lists the watched directories, separated by `|`.
pub const WATCH_PATHSET_SETTING: &'static str = "watch-pathset";

/// What happened to a file.
#[derive(Debug, Clone, Copy, PartialEq, Eq, Structural)]
pub enum FileKind {
    Create,
    Modify,
    Remove,
    Other,
}

/// The name under which a kind of file event is stored.
pub open spec fn kind_name(k: FileKind) -> Seq<char> {
    match k {
        FileKind::Create => "create"@,
        FileKind::Modify => "modify"@,
        FileKind::Remove => "remove"@,
        FileKind::Other => "other"@,
    }
}

impl FileKind {
    /// The name under which this kind of event is stored.
    pub fn as_str(&self) -> (s: &'static str)
        ensures
            s@ == kind_name(*self),
    {
        match self {
            FileKind::Create => "create",
            FileKind::Modify => "modify",
            FileKind::Remove => "remove",
            FileKind::Other => "other",
        }
    }
}

/// A file event reported by the watcher: what happened, to which path, under
/// which watched directory.
#[derive(Debug)]
pub struct FileEventInfo {
    pub kind: FileKind,
    pub path: String,
    pub watch_dir: Option<String>,
}

/// The extensions of files whose events are never recorded.
pub open spec fn ignored_ext(e: Seq<char>) -> bool {
    ||| e == "pyc"@
    ||| e == "pyo"@
    ||| e == "swp"@
    ||| e == "swx"@
    ||| e == "db"@
    ||| e == "db-shm"@
    ||| e == "db-wal"@
    ||| e == "lock"@
    ||| e == "log"@
    ||| e == "sln"@
}

/// The position of the last `.` in `name`, or -1.
pub open spec fn last_dot(name: Seq<char>) -> int
    decreases name.len(),
{
    if name.len() == 0 {
        -1
    } else if name.last() == '.' {
        name.len() - 1
    } else {
        last_dot(name.drop_last())
    }
}

/// The extension of the file name `name`, as `std::path::Path::extension`
/// documents it: the text after the last `.`, unless there is none or the
/// only one starts the name.
pub open spec fn extension_of(name: Seq<char>) -> Option<Seq<char>> {
    if last_dot(name) <= 0 {
        None
    } else {
        Some(name.skip(last_dot(name) + 1))
    }
}

/// A version-control or build directory `sep.dir sep` (hidden) or `sep dir sep`.
pub open spec fn ignored_dir_in(path: Seq<char>, sep: char) -> bool {
    let hidden = |d: Seq<char>| seq![sep, '.'] + d + seq![sep];
    let plain = |d: Seq<char>| seq![sep] + d + seq![sep];
    ||| contains_text(path, hidden("git"@))
    ||| contains_text(path, hidden("hg"@))
    ||| contains_text(path, hidden("svn"@))
    ||| contains_text(path, hidden("idea"@))
    ||| contains_text(path, hidden("vscode"@))
    ||| contains_text(path, plain("dist"@))
    ||| contains_text(path, plain("dist-ssr"@))
    ||| contains_text(path, plain("node_modules"@))
    ||| contains_text(path, plain("target"@))
}

/// Whether an event of kind `kind` on `path`, whose file name is `name`, is
/// ignored, the path separator being `sep`: anything but a creation,
/// modification or removal; a path without a file name; an ignored extension;
/// a hidden file; a backup file ending in `~`; anything inside a
/// version-control or build directory.
pub open spec fn ignore_rule(kind: FileKind, path: Seq<char>, name: Option<Seq<char>>, sep: char) -> bool {
    ||| kind == FileKind::Other
    ||| name is None
    ||| (extension_of(name->0) matches Some(e) && ignored_ext(e))
    ||| (name->0.len() > 0 && name->0[0] == '.')
    ||| (name->0.len() > 0 && name->0.last() == '~')
    ||| ignored_dir_in(path, sep)
}

/// Once an event is a creation, modification or removal, whether it is ignored
/// depends on its path alone: not on which of the three it is, nor on the
/// watched directory it was seen under.
pub proof fn law_ignore_rule_reads_only_the_path(a: FileEventInfo, b: FileEventInfo, sep: char)
    requires
        a.path@ == b.path@,
        a.kind != FileKind::Other,
        b.kind != FileKind::Other,
    ensures
        ignore_rule(a.kind, a.path@, spec_path_file_name(a.path@), sep) == ignore_rule(
            b.kind,
            b.path@,
            spec_path_file_name(b.path@),
            sep,
        ),
{
}

/// In `stem`, a `.`, then `e` without a `.`, the last `.` is the one after `stem`.
proof fn lemma_last_dot_before(stem: Seq<char>, e: Seq<char>)
    requires
        forall|i: int| 0 <= i < e.len() ==> e[i] != '.',
    ensures
        last_dot(stem.push('.') + e) == stem.len(),
    decreases e.len(),
{
    let name = stem.push('.') + e;
    if e.len() == 0 {
        assert(name =~= stem.push('.'));
    } else {
        assert(name.last() == e.last());
        assert(name.drop_last() =~= stem.push('.') + e.drop_last());
        lemma_last_dot_before(stem, e.drop_last());
    }
}

/// A file named `stem.e`, `stem` not empty, whose extension `e` is one of
/// `pyc`, `pyo`, `swp`, `swx`, `db`, `db-shm`, `db-wal`, `lock`, `log` and
/// `sln`, is ignored, whatever the event and the path.
pub proof fn law_ignored_extensions(kind: FileKind, path: Seq<char>, stem: Seq<char>, e: Seq<char>, sep: char)
    requires
        stem.len() > 0,
        e == "pyc"@ || e == "pyo"@ || e == "swp"@ || e == "swx"@ || e == "db"@ || e == "db-shm"@ || e
            == "db-wal"@ || e == "lock"@ || e == "log"@ || e == "sln"@,
    ensures
        ignore_rule(kind, path, Some(stem.push('.') + e), sep),
{
    reveal_strlit("pyc");
    reveal_strlit("pyo");
    reveal_strlit("swp");
    reveal_strlit("swx");
    reveal_strlit("db");
    reveal_strlit("db-shm");
    reveal_strlit("db-wal");
    reveal_strlit("lock");
    reveal_strlit("log");
    reveal_strlit("sln");
    assert forall|i: int| 0 <= i < e.len() implies e[i] != '.' by {}
    lemma_last_dot_before(stem, e);
    let name = stem.push('.') + e;
    assert(name.skip(stem.len() + 1int) =~= e);
    assert(extension_of(name) == Some(e));
}

proof fn lemma_last_dot_bounds(name: Seq<char>)
    ensures
        -1 <= last_dot(name) < name.len(),
    decreases name.len(),
{
    if name.len() > 0 {
        lemma_last_dot_bounds(name.drop_last());
    }
}

fn last_dot_of(name: &Vec<char>) -> (r: usize)
    ensures
        r == if last_dot(name@) < 0 { name.len() as int } else { last_dot(name@) },
{
    let mut i: usize = name.len();
    assert(name@.take(name.len() as int) =~= name@);
    while i > 0 && name[i - 1] != '.'
        invariant
            i <= name.len(),
            last_dot(name@) == last_dot(name@.take(i as int)),
        decreases i,
    {
        assert(name@.take(i as int).drop_last() =~= name@.take(i - 1));
        i = i - 1;
    }
    proof {
        if i > 0 {
            assert(name@.take(i as int).last() == '.');
        } else {
            assert(name@.take(0) =~= Seq::<char>::empty());
        }
    }
    if i == 0 {
        name.len()
    } else {
        i - 1
    }
}

fn is_ignored_ext(e: &Vec<char>) -> (r: bool)
    ensures
        r == ignored_ext(e@),
{
    chars_eq(e, &chars_of("pyc")) || chars_eq(e, &chars_of("pyo")) || chars_eq(e, &chars_of("swp"))
        || chars_eq(e, &chars_of("swx")) || chars_eq(e, &chars_of("db")) || chars_eq(
        e,
        &chars_of("db-shm"),
    ) || chars_eq(e, &chars_of("db-wal")) || chars_eq(e, &chars_of("lock")) || chars_eq(
        e,
        &chars_of("log"),
    ) || chars_eq(e, &chars_of("sln"))
}

fn dir_pattern(sep: char, hidden: bool, dir: &str) -> (p: Vec<char>)
    ensures
        p@ == (if hidden { seq![sep, '.'] } else { seq![sep] }) + dir@ + seq![sep],
{
    let mut p: Vec<char> = Vec::new();
    p.push(sep);
    if hidden {
        p.push('.');
    }
    let d = chars_of(dir);
    let mut i: usize = 0;
    let ghost head = p@;
    while i < d.len()
        invariant
            i <= d.len(),
            p@ == head + d@.take(i as int),
        decreases d.len() - i,
    {
        p.push(d[i]);
        i = i + 1;
        assert(d@.take(i as int) =~= d@.take(i - 1).push(d@[i - 1]));
    }
    assert(d@.take(d.len() as int) =~= d@);
    p.push(sep);
    assert(head =~= (if hidden { seq![sep, '.'] } else { seq![sep] }));
    assert(p@ =~= (if hidden { seq![sep, '.'] } else { seq![sep] }) + dir@ + seq![sep]);
    p
}

fn in_ignored_dir(path: &Vec<char>, sep: char) -> (r: bool)
    ensures
        r == ignored_dir_in(path@, sep),
{
    find_text(path, &dir_pattern(sep, true, "git")) || find_text(path, &dir_pattern(sep, true, "hg"))
        || find_text(path, &dir_pattern(sep, true, "svn")) || find_text(
        path,
        &dir_pattern(sep, true, "idea"),
    ) || find_text(path, &dir_pattern(sep, true, "vscode")) || find_text(
        path,
        &dir_pattern(sep, false, "dist"),
    ) || find_text(path, &dir_pattern(sep, false, "dist-ssr")) || find_text(
        path,
        &dir_pattern(sep, false, "node_modules"),
    ) || find_text(path, &dir_pattern(sep, false, "target"))
}

/// Whether the event `info`, whose path has the file name `name`, is
/// ignored, the path separator being `sep` (see `ignore_rule`).
pub fn check_ignore_with(info: &FileEventInfo, name: Option<String>, sep: char) -> (r: bool)
    ensures
        r == ignore_rule(info.kind, info.path@, match name { Some(n) => Some(n@), None => None }, sep),
{
    if info.kind == FileKind::Other {
        return true;
    }
    let name = match name {
        None => { return true; },
        Some(n) => n,
    };
    let n = chars_of(name.as_str());
    let d = last_dot_of(&n);
    if d > 0 && d < n.len() {
        let mut e: Vec<char> = Vec::new();
        let mut i: usize = d + 1;
        while i < n.len()
            invariant
                d + 1 <= i <= n.len(),
                e@ == n@.subrange(d + 1, i as int),
            decreases n.len() - i,
        {
            e.push(n[i]);
            i = i + 1;
        }
        assert(e@ =~= n@.skip(d + 1));
        assert(extension_of(n@) == Some(e@));
        if is_ignored_ext(&e) {
            return true;
        }
    } else {
        proof {
            lemma_last_dot_bounds(n@);
        }
        assert(extension_of(n@) is None);
    }
    if n.len() > 0 && n[0] == '.' {
        return true;
    }
    if n.len() > 0 && n[n.len() - 1] == '~' {
        return true;
    }
    let p = chars_of(info.path.as_str());
    in_ignored_dir(&p, sep)
}

/// Whether the file event `info` is ignored, judged with the file name that
/// `std` gives its path and the platform's separator (see `ignore_rule`).
pub fn check_ignore(info: &FileEventInfo) -> (r: bool)
    ensures
        exists|sep: char|
            is_separator_char(sep) && r == ignore_rule(
                info.kind,
                info.path@,
                spec_path_file_name(info.path@),
                sep,
            ),
{
    let name = path_file_name(info.path.as_str());
    let sep = main_separator();
    let r = check_ignore_with(info, name, sep);
    proof {
        assert(match name { Some(n) => Some(n@), None => None::<Seq<char>> } == spec_path_file_name(info.path@));
    }
    r
}

// ---------------------------------------------------------------------------
// The watched directories
// ---------------------------------------------------------------------------

/// `s` cut at every `c`, as `str::split` does: one piece more than there are
/// `c`s, empty pieces included.
pub open spec fn split_on(s: Seq<char>, c: char) -> Seq<Seq<char>>
    decreases s.len(),
{
    if s.len() == 0 {
        seq![Seq::empty()]
    } else {
        let r = split_on(s.drop_last(), c);
        if s.last() == c {
            r.push(Seq::empty())
        } else {
            r.update(r.len() - 1, r.last().push(s.last()))
        }
    }
}

proof fn lemma_split_nonempty(s: Seq<char>, c: char)
    ensures
        split_on(s, c).len() >= 1,
    decreases s.len(),
{
    if s.len() > 0 {
        lemma_split_nonempty(s.drop_last(), c);
    }
}

/// Joining the pieces of `s` cut at `c` with `c` gives `s` back: the watched
/// directories setting is read without loss.
pub proof fn law_split_join(s: Seq<char>, c: char)
    ensures
        join(split_on(s, c), c) == s,
    decreases s.len(),
{
    lemma_split_nonempty(s, c);
    if s.len() == 0 {
    } else {
        let t = s.drop_last();
        law_split_join(t, c);
        lemma_split_nonempty(t, c);
        let r = split_on(t, c);
        if s.last() == c {
            assert(r.push(Seq::<char>::empty()).drop_last() =~= r);
            assert(join(r.push(Seq::<char>::empty()), c) =~= t.push(c));
        } else {
            let r2 = r.update(r.len() - 1, r.last().push(s.last()));
            lemma_join_last(r, c, s.last());
            assert(s =~= t.push(s.last()));
        }
    }
}

proof fn lemma_join_last(r: Seq<Seq<char>>, c: char, x: char)
    requires
        r.len() >= 1,
    ensures
        join(r.update(r.len() - 1, r.last().push(x)), c) == join(r, c).push(x),
{
    let r2 = r.update(r.len() - 1, r.last().push(x));
    if r.len() == 1 {
        assert(r2[0] == r[0].push(x));
    } else {
        assert(r2.drop_last() =~= r.drop_last());
        assert(join(r2, c) =~= join(r, c).push(x));
    }
}

/// The watched directories listed in `s`, cut at every `|`.
pub fn split_pathset(s: &str) -> (r: Vec<String>)
    ensures
        r@.map_values(|p: String| p@) == split_on(s@, '|'),
{
    let cs = chars_of(s);
    let mut r: Vec<String> = Vec::new();
    let mut cur: Vec<char> = Vec::new();
    let mut i: usize = 0;
    proof {
        assert(cs@.take(0) =~= Seq::<char>::empty());
    }
    while i < cs.len()
        invariant
            i <= cs.len(),
            cs@ == s@,
            r@.map_values(|p: String| p@).push(cur@) == split_on(cs@.take(i as int), '|'),
        decreases cs.len() - i,
    {
        let ghost before = r@.map_values(|p: String| p@).push(cur@);
        proof {
            assert(cs@.take(i + 1).drop_last() =~= cs@.take(i as int));
        }
        if cs[i] == '|' {
            let piece = string_from_chars(&cur);
            r.push(piece);
            cur = Vec::new();
            proof {
                assert(r@.map_values(|p: String| p@).push(cur@) =~= before.push(Seq::<char>::empty()));
            }
        } else {
            cur.push(cs[i]);
            proof {
                assert(r@.map_values(|p: String| p@).push(cur@) =~= before.update(
                    before.len() - 1,
                    before.last().push(cs@[i as int]),
                ));
            }
        }
        i = i + 1;
    }
    proof {
        assert(cs@.take(cs.len() as int) =~= cs@);
    }
    let ghost before = r@.map_values(|p: String| p@);
    let last = string_from_chars(&cur);
    r.push(last);
    proof {
        assert(r@.map_values(|p: String| p@) =~= before.push(cur@));
    }
    r
}

/// The watched directories, from the text of the `watch-pathset` setting
/// (`None` when it is missing or not text): none when unset.
pub fn watch_pathset(setting: Option<&str>) -> (r: Vec<String>)
    ensures
        match setting {
            None => r@.len() == 0,
            Some(s) => r@.map_values(|p: String| p@) == split_on(s@, '|'),
        },
{
    match setting {
        None => Vec::new(),
        Some(s) => split_pathset(s),
    }
}

// ---------------------------------------------------------------------------
// File logs
// ---------------------------------------------------------------------------

/// A stored file log.
#[derive(Debug)]
pub struct FileLog {
    pub id: i64,
    pub timestamp: i64,
    pub date: String,
    pub path: String,
    pub kind: Option<String>,
    pub watch_dir: Option<String>,
}

impl Timestamp for FileLog {
    open spec fn spec_timestamp(&self) -> i64 {
        self.timestamp
    }

    fn timestamp(&self) -> (t: i64) {
        self.timestamp
    }
}

impl FileLog {
    /// The log to record for the event `info` seen at `now`; id and date are
    /// placeholders until it is stored.
    pub fn from_event(info: FileEventInfo, now: i64) -> (log: FileLog)
        ensures
            log.id == 0,
            log.timestamp == now,
            log.date@ == Seq::<char>::empty(),
            log.path == info.path,
            log.kind matches Some(k) && k@ == kind_name(info.kind),
            log.watch_dir == info.watch_dir,
    {
        FileLog {
            id: 0,
            timestamp: now,
            date: String::new(),
            path: info.path,
            kind: Some(owned(info.kind.as_str())),
            watch_dir: info.watch_dir,
        }
    }
}

/// One row of the day listing of file logs.
#[derive(Debug)]
pub struct FileRow {
    pub timestamp: i64,
    pub id: i64,
    pub kind: Option<String>,
    pub path: String,
    pub watch_dir: Option<String>,
}

/// The file log that the row `row` of the listing for `date` stands for.
pub open spec fn file_log_of_row(row: FileRow, date: Seq<char>, log: FileLog) -> bool {
    &&& log.id == row.id
    &&& log.timestamp == row.timestamp
    &&& log.date@ == date
    &&& log.path == row.path
    &&& log.kind == row.kind
    &&& log.watch_dir == row.watch_dir
}

/// Turns the rows of the day listing for `date` into file logs, in order.
pub fn file_logs_from_rows(rows: Vec<FileRow>, date: &str) -> (logs: Vec<FileLog>)
    ensures
        logs.len() == rows.len(),
        forall|i: int| 0 <= i < rows.len() ==> file_log_of_row(#[trigger] rows@[i], date@, logs@[i]),
{
    let mut logs: Vec<FileLog> = Vec::new();
    let ghost rows0 = rows@;
    for row in it: rows.into_iter()
        invariant
            it.seq() == rows0,
            logs.len() == it.index(),
            forall|i: int| 0 <= i < logs.len() ==> file_log_of_row(#[trigger] rows0[i], date@, logs@[i]),
    {
        logs.push(
            FileLog {
                id: row.id,
                timestamp: row.timestamp,
                date: owned(date),
                path: row.path,
                kind: row.kind,
                watch_dir: row.watch_dir,
            },
        );
    }
    logs
}

} // verus!
