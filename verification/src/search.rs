//! Search over the recorded logs: the query's words, the pattern they are
//! matched with, and the per-day tallies of hits.

use vstd::prelude::*;

use crate::text::{chars_of, is_alnum_ascii, string_from_chars};
use unicode_segmentation::UnicodeSegmentation;

verus! {

broadcast use vstd::seq_lib::group_to_multiset_ensures;

/// One log that matched a search.
#[derive(Clone, Debug)]
pub struct SearchHit {
    pub timestamp: i64,
    pub id: i64,
    pub text: Option<String>,
}

/// The hits of one day, in total and per searched field.
#[derive(Clone, Debug)]
pub struct HitsPerDay {
    pub date: String,
    pub count: i64,
    pub application_name_count: Option<i64>,
    pub application_name_hits: Option<Vec<SearchHit>>,
    pub application_title_count: Option<i64>,
    pub application_title_hits: Option<Vec<SearchHit>>,
    pub browser_title_count: Option<i64>,
    pub browser_title_hits: Option<Vec<SearchHit>>,
    pub browser_url_count: Option<i64>,
    pub browser_url_hits: Option<Vec<SearchHit>>,
    pub file_path_count: Option<i64>,
    pub file_path_hits: Option<Vec<SearchHit>>,
}

/// The answer to a search: the days with hits, latest first.
#[derive(Debug)]
pub struct SearchLogsResult {
    pub hits: Vec<HitsPerDay>,
}

impl Default for HitsPerDay {
    fn default() -> (h: HitsPerDay)
        ensures
            h.date@ == Seq::<char>::empty(),
            h.count == 0,
            no_category(h),
    {
        HitsPerDay {
            date: String::new(),
            count: 0,
            application_name_count: None,
            application_name_hits: None,
            application_title_count: None,
            application_title_hits: None,
            browser_title_count: None,
            browser_title_hits: None,
            browser_url_count: None,
            browser_url_hits: None,
            file_path_count: None,
            file_path_hits: None,
        }
    }
}

/// A searched field.
#[derive(Clone, Copy, Debug, PartialEq, Eq, Structural)]
pub enum Category {
    ApplicationName,
    ApplicationTitle,
    BrowserTitle,
    BrowserUrl,
    FilePath,
}

/// The count that `h` holds for the field `c`.
pub open spec fn category_count(h: HitsPerDay, c: Category) -> Option<i64> {
    match c {
        Category::ApplicationName => h.application_name_count,
        Category::ApplicationTitle => h.application_title_count,
        Category::BrowserTitle => h.browser_title_count,
        Category::BrowserUrl => h.browser_url_count,
        Category::FilePath => h.file_path_count,
    }
}

/// The hits that `h` holds for the field `c`.
pub open spec fn category_hits(h: HitsPerDay, c: Category) -> Option<Vec<SearchHit>> {
    match c {
        Category::ApplicationName => h.application_name_hits,
        Category::ApplicationTitle => h.application_title_hits,
        Category::BrowserTitle => h.browser_title_hits,
        Category::BrowserUrl => h.browser_url_hits,
        Category::FilePath => h.file_path_hits,
    }
}

/// `h` holds no count and no hits for any field.
pub open spec fn no_category(h: HitsPerDay) -> bool {
    forall|c: Category| category_count(h, c) is None && category_hits(h, c) is None
}

/// `h` with the field `c` set to `count` and `hits`.
pub open spec fn with_category(
    h: HitsPerDay,
    c: Category,
    count: Option<i64>,
    hits: Option<Vec<SearchHit>>,
) -> HitsPerDay {
    match c {
        Category::ApplicationName => HitsPerDay {
            application_name_count: count,
            application_name_hits: hits,
            ..h
        },
        Category::ApplicationTitle => HitsPerDay {
            application_title_count: count,
            application_title_hits: hits,
            ..h
        },
        Category::BrowserTitle => HitsPerDay {
            browser_title_count: count,
            browser_title_hits: hits,
            ..h
        },
        Category::BrowserUrl => HitsPerDay { browser_url_count: count, browser_url_hits: hits, ..h },
        Category::FilePath => HitsPerDay { file_path_count: count, file_path_hits: hits, ..h },
    }
}

/// Setting the field `c` changes that field only.
pub proof fn lemma_with_category(h: HitsPerDay, c: Category, count: Option<i64>, hits: Option<Vec<SearchHit>>)
    ensures
        category_count(with_category(h, c, count, hits), c) == count,
        category_hits(with_category(h, c, count, hits), c) == hits,
        with_category(h, c, count, hits).date == h.date,
        with_category(h, c, count, hits).count == h.count,
        forall|o: Category|
            o != c ==> category_count(#[trigger] with_category(h, c, count, hits), o) == category_count(h, o)
                && category_hits(with_category(h, c, count, hits), o) == category_hits(h, o),
{
}

/// Sets the field `c` of `h` to `count` and `hits`.
pub fn set_category(h: &mut HitsPerDay, c: Category, count: Option<i64>, hits: Option<Vec<SearchHit>>)
    ensures
        *final(h) == with_category(*old(h), c, count, hits),
{
    match c {
        Category::ApplicationName => {
            h.application_name_count = count;
            h.application_name_hits = hits;
        },
        Category::ApplicationTitle => {
            h.application_title_count = count;
            h.application_title_hits = hits;
        },
        Category::BrowserTitle => {
            h.browser_title_count = count;
            h.browser_title_hits = hits;
        },
        Category::BrowserUrl => {
            h.browser_url_count = count;
            h.browser_url_hits = hits;
        },
        Category::FilePath => {
            h.file_path_count = count;
            h.file_path_hits = hits;
        },
    }
}

/// Takes the count and hits of the field `c` out of `h`.
pub fn take_category(h: HitsPerDay, c: Category) -> (r: (Option<i64>, Option<Vec<SearchHit>>))
    ensures
        r == (category_count(h, c), category_hits(h, c)),
{
    match c {
        Category::ApplicationName => (h.application_name_count, h.application_name_hits),
        Category::ApplicationTitle => (h.application_title_count, h.application_title_hits),
        Category::BrowserTitle => (h.browser_title_count, h.browser_title_hits),
        Category::BrowserUrl => (h.browser_url_count, h.browser_url_hits),
        Category::FilePath => (h.file_path_count, h.file_path_hits),
    }
}

// ---------------------------------------------------------------------------
// The order of dates
// ---------------------------------------------------------------------------

/// `a` comes strictly before `b` in the lexicographic order of characters, which
/// is the order of `String`s (UTF-8 keeps the order of code points bytewise).
pub open spec fn text_lt(a: Seq<char>, b: Seq<char>) -> bool
    decreases a.len(),
{
    if a.len() == 0 {
        b.len() > 0
    } else if b.len() == 0 {
        false
    } else if a[0] != b[0] {
        a[0] < b[0]
    } else {
        text_lt(a.drop_first(), b.drop_first())
    }
}

/// The order of texts is transitive.
pub proof fn lemma_text_lt_transitive(a: Seq<char>, b: Seq<char>, c: Seq<char>)
    requires
        text_lt(a, b),
        text_lt(b, c),
    ensures
        text_lt(a, c),
    decreases a.len(),
{
    if a.len() > 0 && b.len() > 0 && c.len() > 0 && a[0] == b[0] && b[0] == c[0] {
        lemma_text_lt_transitive(a.drop_first(), b.drop_first(), c.drop_first());
    }
}

/// Two different texts are ordered one way or the other, and never both ways.
pub proof fn lemma_text_lt_total(a: Seq<char>, b: Seq<char>)
    ensures
        a != b ==> (text_lt(a, b) || text_lt(b, a)),
        !(text_lt(a, b) && text_lt(b, a)),
        !text_lt(a, a),
    decreases a.len(),
{
    lemma_text_lt_irreflexive(a);
    if a.len() > 0 && b.len() > 0 && a[0] == b[0] {
        lemma_text_lt_total(a.drop_first(), b.drop_first());
        if a != b {
            assert(a =~= seq![a[0]] + a.drop_first());
            assert(b =~= seq![b[0]] + b.drop_first());
        }
    } else if a.len() == 0 && b.len() == 0 {
        assert(a =~= b);
    }
}

/// No text comes strictly before itself.
pub proof fn lemma_text_lt_irreflexive(a: Seq<char>)
    ensures
        !text_lt(a, a),
    decreases a.len(),
{
    if a.len() > 0 {
        lemma_text_lt_irreflexive(a.drop_first());
    }
}

/// Whether `a` comes strictly before `b` (see `text_lt`).
pub fn text_less(a: &str, b: &str) -> (r: bool)
    ensures
        r == text_lt(a@, b@),
{
    let x = chars_of(a);
    let y = chars_of(b);
    let mut i: usize = 0;
    assert(x@.skip(0) =~= x@);
    assert(y@.skip(0) =~= y@);
    while i < x.len() && i < y.len() && x[i] == y[i]
        invariant
            i <= x.len(),
            i <= y.len(),
            x@ == a@,
            y@ == b@,
            text_lt(a@, b@) == text_lt(x@.skip(i as int), y@.skip(i as int)),
        decreases x.len() - i,
    {
        assert(x@.skip(i as int).drop_first() =~= x@.skip(i + 1));
        assert(y@.skip(i as int).drop_first() =~= y@.skip(i + 1));
        i = i + 1;
    }
    if i == x.len() {
        i < y.len()
    } else if i == y.len() {
        false
    } else {
        x[i] < y[i]
    }
}

/// No two days of `v` have the same date.
pub open spec fn dates_distinct(v: Seq<HitsPerDay>) -> bool {
    forall|i: int, j: int| 0 <= i < v.len() && 0 <= j < v.len() && i != j ==> v[i].date@ != v[j].date@
}

/// The days of `v` are in strictly decreasing order of date.
pub open spec fn latest_first(v: Seq<HitsPerDay>) -> bool {
    forall|i: int, j: int| 0 <= i < j < v.len() ==> text_lt(#[trigger] v[j].date@, #[trigger] v[i].date@)
}

/// Puts days of distinct dates in decreasing order of date (the reversed
/// `String` order of their dates).
pub fn sort_latest_first(days: Vec<HitsPerDay>) -> (r: Vec<HitsPerDay>)
    requires
        dates_distinct(days@),
    ensures
        r@.to_multiset() == days@.to_multiset(),
        r.len() == days.len(),
        latest_first(r@),
{
    let ghost d0 = days@;
    let mut r: Vec<HitsPerDay> = Vec::new();
    for h in it: days.into_iter()
        invariant
            it.seq() == d0,
            dates_distinct(d0),
            r@.to_multiset() == d0.take(it.index() as int).to_multiset(),
            r.len() == it.index(),
            latest_first(r@),
    {
        let ghost k = it.index() as int;
        proof {
            assert(d0.take(k + 1) =~= d0.take(k).push(h));
            assert forall|i: int| 0 <= i < r.len() implies r@[i].date@ != h.date@ by {
                assert(r@.contains(r@[i]));
                assert(r@.to_multiset().count(r@[i]) > 0);
                assert(d0.take(k).to_multiset().count(r@[i]) > 0);
                assert(d0.take(k).contains(r@[i]));
                let m = choose|m: int| 0 <= m < k && d0.take(k)[m] == r@[i];
                assert(d0[m] == r@[i]);
                assert(h == d0[k]);
            }
        }
        let mut p: usize = 0;
        while p < r.len() && text_less(h.date.as_str(), r[p].date.as_str())
            invariant
                p <= r.len(),
                forall|i: int| 0 <= i < p ==> text_lt(h.date@, #[trigger] r@[i].date@),
            decreases r.len() - p,
        {
            p = p + 1;
        }
        proof {
            if p < r.len() {
                lemma_text_lt_total(h.date@, r@[p as int].date@);
                assert(text_lt(r@[p as int].date@, h.date@));
                assert forall|j: int| p < j < r.len() implies text_lt(
                    #[trigger] r@[j].date@,
                    h.date@,
                ) by {
                    lemma_text_lt_transitive(r@[j].date@, r@[p as int].date@, h.date@);
                }
            }
        }
        let ghost before = r@;
        r.insert(p, h);
        proof {
            assert(r@ == before.insert(p as int, h));
            assert forall|i: int, j: int| 0 <= i < j < r.len() implies text_lt(
                #[trigger] r@[j].date@,
                #[trigger] r@[i].date@,
            ) by {
                if j < p {
                } else if j == p {
                } else if i < p {
                    assert(r@[j] == before[j - 1]);
                    assert(text_lt(before[j - 1].date@, h.date@));
                    lemma_text_lt_transitive(before[j - 1].date@, h.date@, before[i].date@);
                } else if i == p {
                    assert(r@[j] == before[j - 1]);
                } else {
                    assert(r@[j] == before[j - 1]);
                    assert(r@[i] == before[i - 1]);
                }
            }
        }
    }
    proof {
        assert(d0.take(d0.len() as int) =~= d0);
    }
    r
}

// ---------------------------------------------------------------------------
// Merging the hits of several fields
// ---------------------------------------------------------------------------

/// Some day of `v` has the date `d`.
pub open spec fn has_date(v: Seq<HitsPerDay>, d: Seq<char>) -> bool {
    exists|k: int| 0 <= k < v.len() && (#[trigger] v[k]).date@ == d
}

/// The count of the day of `v` dated `d`, or 0 when there is none.
pub open spec fn count_on(v: Seq<HitsPerDay>, d: Seq<char>) -> int {
    if has_date(v, d) {
        v[choose|k: int| 0 <= k < v.len() && (#[trigger] v[k]).date@ == d].count as int
    } else {
        0
    }
}

/// The day `old` after the day `new` of the field `c` was merged into it: the
/// counts add up and the field `c` is taken from `new`.
pub open spec fn merged_day(old: HitsPerDay, new: HitsPerDay, c: Category) -> HitsPerDay {
    with_category(
        HitsPerDay { count: (old.count + new.count) as i64, ..old },
        c,
        category_count(new, c),
        category_hits(new, c),
    )
}

/// Adding the counts of days of the same date stays within `i64`.
pub open spec fn merge_fits(acc: Seq<HitsPerDay>, found: Seq<HitsPerDay>) -> bool {
    forall|i: int, k: int|
        0 <= i < acc.len() && 0 <= k < found.len() && (#[trigger] acc[i]).date@ == (#[trigger] found[k]).date@
            ==> i64::MIN <= acc[i].count + found[k].count <= i64::MAX
}

/// The day at position `i` of the merge of `found` (hits of the field `c`)
/// into `acc`: merged with the day of `found` of the same date, if any.
pub open spec fn merged_at(acc: Seq<HitsPerDay>, found: Seq<HitsPerDay>, c: Category, i: int, day: HitsPerDay) -> bool {
    ||| exists|k: int|
        0 <= k < found.len() && (#[trigger] found[k]).date@ == acc[i].date@ && day == merged_day(acc[i], found[k], c)
    ||| !has_date(found, acc[i].date@) && day == acc[i]
}

/// The days of `found` whose date no day of `acc` has.
pub open spec fn new_days(acc: Seq<HitsPerDay>, found: Seq<HitsPerDay>) -> Seq<HitsPerDay> {
    found.filter(|v: HitsPerDay| !has_date(acc, v.date@))
}

/// Merges the days `found` of the field `c` into `acc`: a day of a date already
/// present adds its count and sets the field `c`; a day of a new date is
/// appended as it is.
pub fn merge_category(acc: Vec<HitsPerDay>, found: Vec<HitsPerDay>, c: Category) -> (r: Vec<HitsPerDay>)
    requires
        dates_distinct(acc@),
        dates_distinct(found@),
        merge_fits(acc@, found@),
    ensures
        r.len() >= acc.len(),
        forall|i: int| 0 <= i < acc.len() ==> merged_at(acc@, found@, c, i, #[trigger] r@[i]),
        r@.skip(acc.len() as int) == new_days(acc@, found@),
        dates_distinct(r@),
{
    let ghost a0 = acc@;
    let ghost f0 = found@;
    let n = acc.len();
    let mut r = acc;
    for v in it: found.into_iter()
        invariant
            it.seq() == f0,
            n == a0.len(),
            dates_distinct(a0),
            dates_distinct(f0),
            merge_fits(a0, f0),
            r.len() >= n,
            forall|i: int| 0 <= i < n ==> (#[trigger] r@[i]).date@ == a0[i].date@,
            forall|i: int|
                0 <= i < n ==> merged_at(a0, f0.take(it.index() as int), c, i, #[trigger] r@[i]),
            r@.skip(n as int) == new_days(a0, f0.take(it.index() as int)),
            dates_distinct(r@),
    {
        let ghost idx = it.index() as int;
        let ghost before = r@;
        proof {
            assert(v == f0[idx]);
            assert(f0.take(idx + 1) =~= f0.take(idx).push(v));
        }
        let mut j: usize = 0;
        while j < n && !(r[j].date == v.date)
            invariant
                j <= n,
                n <= r.len(),
                forall|i: int| 0 <= i < j ==> (#[trigger] r@[i]).date@ != v.date@,
            decreases n - j,
        {
            j = j + 1;
        }
        if j < n {
            let ghost old_j = r@[j as int];
            proof {
                // The date of `v` was not seen before in `found`, so day `j` is untouched.
                assert(!has_date(f0.take(idx), a0[j as int].date@)) by {
                    if has_date(f0.take(idx), a0[j as int].date@) {
                        let k = choose|k: int| 0 <= k < idx && (#[trigger] f0.take(idx)[k]).date@ == a0[j as int].date@;
                        assert(f0[k].date@ == f0[idx].date@);
                    }
                }
                assert(merged_at(a0, f0.take(idx), c, j as int, old_j));
                assert(old_j == a0[j as int]);
                assert(a0[j as int].date@ == f0[idx].date@);
                assert(i64::MIN <= a0[j as int].count + f0[idx].count <= i64::MAX);
            }
            let mut h = r.remove(j);
            let vc = v.count;
            h.count = h.count + vc;
            let (cnt, hits) = take_category(v, c);
            set_category(&mut h, c, cnt, hits);
            r.insert(j, h);
            proof {
                assert(r@ =~= before.update(j as int, merged_day(a0[j as int], f0[idx], c)));
                assert(new_days(a0, f0.take(idx + 1)) =~= new_days(a0, f0.take(idx))) by {
                    f0.take(idx).lemma_filter_push(v, |w: HitsPerDay| !has_date(a0, w.date@));
                    assert(has_date(a0, v.date@));
                }
                assert forall|i: int| 0 <= i < n implies merged_at(a0, f0.take(idx + 1), c, i, #[trigger] r@[i]) by {
                    if i == j {
                        assert(f0.take(idx + 1)[idx] == f0[idx]);
                    } else {
                        assert(r@[i] == before[i]);
                        if merged_at(a0, f0.take(idx), c, i, before[i]) && !has_date(f0.take(idx), a0[i].date@) {
                            assert(a0[i].date@ != v.date@);
                            assert(!has_date(f0.take(idx + 1), a0[i].date@)) by {
                                if has_date(f0.take(idx + 1), a0[i].date@) {
                                    let k = choose|k: int| 0 <= k < idx + 1 && (#[trigger] f0.take(idx + 1)[k]).date@ == a0[i].date@;
                                    if k < idx {
                                        assert(f0.take(idx)[k] == f0.take(idx + 1)[k]);
                                    }
                                }
                            }
                        } else {
                            let k = choose|k: int| 0 <= k < f0.take(idx).len() && (#[trigger] f0.take(idx)[k]).date@ == a0[i].date@ && before[i] == merged_day(a0[i], f0.take(idx)[k], c);
                            assert(f0.take(idx + 1)[k] == f0.take(idx)[k]);
                        }
                    }
                }
                assert(r@.skip(n as int) =~= before.skip(n as int));
            }
        } else {
            proof {
                assert(!has_date(a0, v.date@)) by {
                    if has_date(a0, v.date@) {
                        let k = choose|k: int| 0 <= k < a0.len() && (#[trigger] a0[k]).date@ == v.date@;
                        assert(r@[k].date@ == a0[k].date@);
                    }
                }
                f0.take(idx).lemma_filter_push(v, |w: HitsPerDay| !has_date(a0, w.date@));
                assert(new_days(a0, f0.take(idx + 1)) =~= new_days(a0, f0.take(idx)).push(v));
            }
            r.push(v);
            proof {
                assert(r@.skip(n as int) =~= before.skip(n as int).push(v));
                assert forall|i: int| 0 <= i < n implies merged_at(a0, f0.take(idx + 1), c, i, #[trigger] r@[i]) by {
                    assert(r@[i] == before[i]);
                    if merged_at(a0, f0.take(idx), c, i, before[i]) && !has_date(f0.take(idx), a0[i].date@) {
                        assert(!has_date(f0.take(idx + 1), a0[i].date@)) by {
                            if has_date(f0.take(idx + 1), a0[i].date@) {
                                let k = choose|k: int| 0 <= k < idx + 1 && (#[trigger] f0.take(idx + 1)[k]).date@ == a0[i].date@;
                                if k < idx {
                                    assert(f0.take(idx)[k] == f0.take(idx + 1)[k]);
                                } else {
                                    assert(before[i].date@ == a0[i].date@);
                                }
                            }
                        }
                    } else {
                        let k = choose|k: int| 0 <= k < f0.take(idx).len() && (#[trigger] f0.take(idx)[k]).date@ == a0[i].date@ && before[i] == merged_day(a0[i], f0.take(idx)[k], c);
                        assert(f0.take(idx + 1)[k] == f0.take(idx)[k]);
                    }
                }
                assert forall|x: int, y: int| 0 <= x < r.len() && 0 <= y < r.len() && x != y implies r@[x].date@ != r@[y].date@ by {
                    if x == before.len() || y == before.len() {
                        let o = if x == before.len() { y } else { x };
                        if o >= n {
                            // an earlier new day of `found` has another date
                            let s = before.skip(n as int);
                            assert(s[o - n] == before[o]);
                            assert(new_days(a0, f0.take(idx)).contains(before[o]));
                            f0.take(idx).lemma_filter_contains_rev(|w: HitsPerDay| !has_date(a0, w.date@), before[o]);
                            assert(f0.take(idx).contains(before[o]));
                            let k = choose|k: int| 0 <= k < idx && f0.take(idx)[k] == before[o];
                            assert(f0[k] == before[o]);
                        }
                    }
                }
            }
        }
    }
    proof {
        assert(f0.take(f0.len() as int) =~= f0);
    }
    r
}

/// In days of distinct dates, the count on the date of day `k` is that day's.
pub proof fn lemma_count_on_index(v: Seq<HitsPerDay>, k: int)
    requires
        dates_distinct(v),
        0 <= k < v.len(),
    ensures
        count_on(v, v[k].date@) == v[k].count,
{
    assert(has_date(v, v[k].date@));
}

/// The hits found per field, in the order the fields are searched.
pub type CategoryHits = (Category, Vec<HitsPerDay>);

/// The sum of the counts on the date `d` over the lists `lists`.
pub open spec fn total_on(lists: Seq<CategoryHits>, d: Seq<char>) -> int
    decreases lists.len(),
{
    if lists.len() == 0 {
        0
    } else {
        total_on(lists.drop_last(), d) + count_on(lists.last().1@, d)
    }
}

/// Some list of `lists` has a day dated `d`.
pub open spec fn listed(lists: Seq<CategoryHits>, d: Seq<char>) -> bool {
    exists|k: int| 0 <= k < lists.len() && has_date((#[trigger] lists[k]).1@, d)
}

/// Each list has days of distinct dates and every running total of a date's
/// counts stays within `i64`.
pub open spec fn combinable(lists: Seq<CategoryHits>) -> bool {
    &&& forall|k: int| 0 <= k < lists.len() ==> dates_distinct((#[trigger] lists[k]).1@)
    &&& forall|m: int, d: Seq<char>|
        0 <= m <= lists.len() ==> i64::MIN <= #[trigger] total_on(lists.take(m), d) <= i64::MAX
}

proof fn lemma_total_unlisted(lists: Seq<CategoryHits>, d: Seq<char>)
    requires
        !listed(lists, d),
    ensures
        total_on(lists, d) == 0,
    decreases lists.len(),
{
    if lists.len() > 0 {
        assert(!listed(lists.drop_last(), d)) by {
            if listed(lists.drop_last(), d) {
                let k = choose|k: int| 0 <= k < lists.drop_last().len() && has_date((#[trigger] lists.drop_last()[k]).1@, d);
                assert(lists[k] == lists.drop_last()[k]);
            }
        }
        lemma_total_unlisted(lists.drop_last(), d);
        assert(!has_date(lists[lists.len() - 1].1@, d));
    }
}

/// The day of `v` dated `d` (some day of `v`, when none has that date).
pub open spec fn day_on(v: Seq<HitsPerDay>, d: Seq<char>) -> HitsPerDay {
    v[choose|k: int| 0 <= k < v.len() && (#[trigger] v[k]).date@ == d]
}

/// The count and hits of the field `c` that the merge of `lists` gives the day
/// dated `d`: taken from the last list of the field `c` that has the date,
/// unless the date first appears in a later list, whose day is then taken
/// whole; `(None, None)` when no list has the date.
pub open spec fn field_on(lists: Seq<CategoryHits>, d: Seq<char>, c: Category) -> (Option<i64>, Option<Vec<SearchHit>>)
    decreases lists.len(),
{
    if lists.len() == 0 {
        (None, None)
    } else if has_date(lists.last().1@, d) && (lists.last().0 == c || !listed(lists.drop_last(), d)) {
        let day = day_on(lists.last().1@, d);
        (category_count(day, c), category_hits(day, c))
    } else {
        field_on(lists.drop_last(), d, c)
    }
}

/// Every field of the day `h` is what the merge of `lists` gives its date.
pub open spec fn fields_match(h: HitsPerDay, lists: Seq<CategoryHits>) -> bool {
    forall|c: Category| (category_count(h, c), category_hits(h, c)) == #[trigger] field_on(lists, h.date@, c)
}

/// In days of distinct dates, the day dated as day `k` is day `k`.
proof fn lemma_day_on_index(v: Seq<HitsPerDay>, k: int)
    requires
        dates_distinct(v),
        0 <= k < v.len(),
    ensures
        day_on(v, v[k].date@) == v[k],
{
    assert(has_date(v, v[k].date@));
}

/// Merging the days `f0` of the field `cat` into `a0`, whose fields are those
/// the lists `prev` give, makes fields that the lists `prev` and then
/// `(cat, found)` give.
proof fn lemma_merge_fields(
    prev: Seq<CategoryHits>,
    cat: Category,
    found: Vec<HitsPerDay>,
    a0: Seq<HitsPerDay>,
    merged: Seq<HitsPerDay>,
)
    requires
        dates_distinct(found@),
        forall|d: Seq<char>| has_date(a0, d) <==> listed(prev, d),
        forall|i: int| 0 <= i < a0.len() ==> fields_match(#[trigger] a0[i], prev),
        merged.len() >= a0.len(),
        forall|i: int| 0 <= i < a0.len() ==> merged_at(a0, found@, cat, i, #[trigger] merged[i]),
        merged.skip(a0.len() as int) == new_days(a0, found@),
    ensures
        forall|i: int| 0 <= i < merged.len() ==> fields_match(#[trigger] merged[i], prev.push((cat, found))),
{
    let lists = prev.push((cat, found));
    let f0 = found@;
    let n = a0.len() as int;
    assert(lists.drop_last() =~= prev);
    assert(lists.last() == (cat, found));
    assert forall|i: int| 0 <= i < merged.len() implies fields_match(#[trigger] merged[i], lists) by {
        if i < n {
            let d = a0[i].date@;
            assert(merged_at(a0, f0, cat, i, merged[i]));
            assert(fields_match(a0[i], prev));
            assert(has_date(a0, d));
            assert(listed(prev, d));
            if has_date(f0, d) {
                let k = choose|k: int| 0 <= k < f0.len() && (#[trigger] f0[k]).date@ == d && merged[i] == merged_day(a0[i], f0[k], cat);
                lemma_day_on_index(f0, k);
                let base = HitsPerDay { count: (a0[i].count + f0[k].count) as i64, ..a0[i] };
                lemma_with_category(base, cat, category_count(f0[k], cat), category_hits(f0[k], cat));
                assert forall|c: Category| (category_count(merged[i], c), category_hits(merged[i], c)) == #[trigger] field_on(lists, merged[i].date@, c) by {
                    assert(field_on(prev, d, c) == (category_count(a0[i], c), category_hits(a0[i], c)));
                }
            } else {
                assert forall|c: Category| (category_count(merged[i], c), category_hits(merged[i], c)) == #[trigger] field_on(lists, merged[i].date@, c) by {
                    assert(field_on(prev, d, c) == (category_count(a0[i], c), category_hits(a0[i], c)));
                }
            }
        } else {
            let nd = new_days(a0, f0);
            let pred = |w: HitsPerDay| !has_date(a0, w.date@);
            let x = nd[i - n];
            assert(merged.skip(n)[i - n] == merged[i]);
            assert(nd.contains(x));
            f0.lemma_filter_contains_rev(pred, x);
            let k = choose|k: int| 0 <= k < f0.len() && f0[k] == x;
            lemma_day_on_index(f0, k);
            assert(pred(x));
            assert(!listed(prev, x.date@));
            assert(has_date(f0, x.date@));
        }
    }
}

/// Merges the hits found for each field, in order, into one answer: a day
/// appears once for each date found, with the counts of all fields added up,
/// and the days come latest first.
pub fn combine_hits(lists: Vec<CategoryHits>) -> (r: SearchLogsResult)
    requires
        combinable(lists@),
    ensures
        latest_first(r.hits@),
        dates_distinct(r.hits@),
        forall|d: Seq<char>| has_date(r.hits@, d) <==> listed(lists@, d),
        forall|i: int| 0 <= i < r.hits.len() ==> (#[trigger] r.hits@[i]).count == total_on(lists@, r.hits@[i].date@),
        forall|i: int| 0 <= i < r.hits.len() ==> fields_match(#[trigger] r.hits@[i], lists@),
{
    let ghost l0 = lists@;
    let mut acc: Vec<HitsPerDay> = Vec::new();
    for entry in it: lists.into_iter()
        invariant
            it.seq() == l0,
            combinable(l0),
            dates_distinct(acc@),
            forall|d: Seq<char>| has_date(acc@, d) <==> listed(l0.take(it.index() as int), d),
            forall|i: int| 0 <= i < acc.len() ==> (#[trigger] acc@[i]).count == total_on(l0.take(it.index() as int), acc@[i].date@),
            forall|i: int| 0 <= i < acc.len() ==> fields_match(#[trigger] acc@[i], l0.take(it.index() as int)),
    {
        let ghost m = it.index() as int;
        let ghost a0 = acc@;
        let (c, found) = entry;
        let ghost f0 = found@;
        proof {
            assert(entry == l0[m]);
            assert(l0.take(m + 1) =~= l0.take(m).push(entry));
            assert(l0.take(m + 1).drop_last() =~= l0.take(m));
            assert(dates_distinct(f0));
            assert forall|i: int, k: int|
                0 <= i < a0.len() && 0 <= k < f0.len() && (#[trigger] a0[i]).date@ == (#[trigger] f0[k]).date@
                implies i64::MIN <= a0[i].count + f0[k].count <= i64::MAX by {
                lemma_count_on_index(f0, k);
                assert(total_on(l0.take(m + 1), a0[i].date@) == total_on(l0.take(m), a0[i].date@) + f0[k].count);
                assert(i64::MIN <= total_on(l0.take(m + 1), a0[i].date@) <= i64::MAX);
            }
        }
        let ghost found_v = found;
        let merged = merge_category(acc, found, c);
        proof {
            lemma_merge_fields(l0.take(m), c, found_v, a0, merged@);
            assert(l0.take(m).push((c, found_v)) == l0.take(m + 1));
            let n = a0.len() as int;
            let nd = new_days(a0, f0);
            let pred = |w: HitsPerDay| !has_date(a0, w.date@);
            assert(merged@.skip(n) == nd);
            assert forall|i: int| 0 <= i < merged.len() implies (#[trigger] merged@[i]).date@ == (if i < n { a0[i].date@ } else { nd[i - n].date@ }) by {
                if i < n {
                    assert(merged_at(a0, f0, c, i, merged@[i]));
                } else {
                    assert(merged@.skip(n)[i - n] == merged@[i]);
                }
            }
            assert forall|d: Seq<char>| has_date(merged@, d) <==> listed(l0.take(m + 1), d) by {
                if has_date(merged@, d) {
                    let i = choose|i: int| 0 <= i < merged.len() && (#[trigger] merged@[i]).date@ == d;
                    if i < n {
                        assert(has_date(a0, d));
                        let k = choose|k: int| 0 <= k < l0.take(m).len() && has_date((#[trigger] l0.take(m)[k]).1@, d);
                        assert(l0.take(m + 1)[k] == l0.take(m)[k]);
                    } else {
                        assert(nd.contains(nd[i - n]));
                        f0.lemma_filter_contains_rev(pred, nd[i - n]);
                        let k = choose|k: int| 0 <= k < f0.len() && f0[k] == nd[i - n];
                        assert(has_date(f0, d));
                        assert(l0.take(m + 1)[m] == entry);
                    }
                }
                if listed(l0.take(m + 1), d) {
                    let k = choose|k: int| 0 <= k < l0.take(m + 1).len() && has_date((#[trigger] l0.take(m + 1)[k]).1@, d);
                    if k < m {
                        assert(l0.take(m + 1)[k] == l0.take(m)[k]);
                        assert(listed(l0.take(m), d));
                        assert(has_date(a0, d));
                        let i = choose|i: int| 0 <= i < a0.len() && (#[trigger] a0[i]).date@ == d;
                        assert(merged@[i].date@ == d);
                    } else {
                        assert(l0.take(m + 1)[k] == entry);
                        let j = choose|j: int| 0 <= j < f0.len() && (#[trigger] f0[j]).date@ == d;
                        if has_date(a0, d) {
                            let i = choose|i: int| 0 <= i < a0.len() && (#[trigger] a0[i]).date@ == d;
                            assert(merged@[i].date@ == d);
                        } else {
                            f0.lemma_filter_contains(pred, j);
                            assert(nd.contains(f0[j]));
                            let t = choose|t: int| 0 <= t < nd.len() && nd[t] == f0[j];
                            assert(merged@[n + t].date@ == d);
                        }
                    }
                }
            }
            assert forall|i: int| 0 <= i < merged.len() implies (#[trigger] merged@[i]).count == total_on(l0.take(m + 1), merged@[i].date@) by {
                let d = merged@[i].date@;
                assert(total_on(l0.take(m + 1), d) == total_on(l0.take(m), d) + count_on(f0, d));
                if i < n {
                    assert(merged_at(a0, f0, c, i, merged@[i]));
                    if has_date(f0, a0[i].date@) {
                        let k = choose|k: int| 0 <= k < f0.len() && (#[trigger] f0[k]).date@ == a0[i].date@ && merged@[i] == merged_day(a0[i], f0[k], c);
                        if !(0 <= k < f0.len() && f0[k].date@ == a0[i].date@ && merged@[i] == merged_day(a0[i], f0[k], c)) {
                            // the other alternative of merged_at cannot hold
                            assert(false);
                        }
                        lemma_count_on_index(f0, k);
                    }
                } else {
                    let x = nd[i - n];
                    assert(merged@.skip(n)[i - n] == merged@[i]);
                    assert(nd.contains(x));
                    f0.lemma_filter_contains_rev(pred, x);
                    let k = choose|k: int| 0 <= k < f0.len() && f0[k] == x;
                    lemma_count_on_index(f0, k);
                    assert(pred(x));
                    assert(!listed(l0.take(m), d));
                    lemma_total_unlisted(l0.take(m), d);
                }
            }
        }
        acc = merged;
    }
    proof {
        assert(l0.take(l0.len() as int) =~= l0);
    }
    let ghost a1 = acc@;
    let hits = sort_latest_first(acc);
    proof {
        assert forall|i: int| 0 <= i < hits.len() implies a1.contains(#[trigger] hits@[i]) by {
            assert(hits@.contains(hits@[i]));
            assert(hits@.to_multiset().count(hits@[i]) > 0);
        }
        assert forall|x: int, y: int| 0 <= x < hits.len() && 0 <= y < hits.len() && x != y implies hits@[x].date@ != hits@[y].date@ by {
            if x < y {
                lemma_text_lt_total(hits@[y].date@, hits@[x].date@);
            } else {
                lemma_text_lt_total(hits@[x].date@, hits@[y].date@);
            }
        }
        assert forall|d: Seq<char>| has_date(hits@, d) <==> listed(l0, d) by {
            if has_date(hits@, d) {
                let i = choose|i: int| 0 <= i < hits.len() && (#[trigger] hits@[i]).date@ == d;
                assert(a1.contains(hits@[i]));
                let k = choose|k: int| 0 <= k < a1.len() && a1[k] == hits@[i];
                assert(has_date(a1, d));
            }
            if listed(l0, d) {
                assert(has_date(a1, d));
                let k = choose|k: int| 0 <= k < a1.len() && (#[trigger] a1[k]).date@ == d;
                assert(a1.contains(a1[k]));
                assert(a1.to_multiset().count(a1[k]) > 0);
                assert(hits@.to_multiset().count(a1[k]) > 0);
                assert(hits@.contains(a1[k]));
                let i = choose|i: int| 0 <= i < hits.len() && hits@[i] == a1[k];
                assert(hits@[i].date@ == d);
            }
        }
        assert forall|i: int| 0 <= i < hits.len() implies (#[trigger] hits@[i]).count == total_on(l0, hits@[i].date@) by {
            assert(a1.contains(hits@[i]));
            let k = choose|k: int| 0 <= k < a1.len() && a1[k] == hits@[i];
            assert(a1[k].count == total_on(l0, a1[k].date@));
        }
        assert forall|i: int| 0 <= i < hits.len() implies fields_match(#[trigger] hits@[i], l0) by {
            assert(a1.contains(hits@[i]));
            let k = choose|k: int| 0 <= k < a1.len() && a1[k] == hits@[i];
            assert(fields_match(a1[k], l0));
        }
    }
    SearchLogsResult { hits }
}

/// The count `c` stands for: 0 when there is none.
pub open spec fn count_or_zero(c: Option<i64>) -> int {
    match c {
        Some(n) => n as int,
        None => 0,
    }
}

/// The sum of the five field counts of the day `h`.
pub open spec fn fields_total(h: HitsPerDay) -> int {
    count_or_zero(h.application_name_count) + count_or_zero(h.application_title_count) + count_or_zero(
        h.browser_title_count,
    ) + count_or_zero(h.browser_url_count) + count_or_zero(h.file_path_count)
}

/// The sum of the five field counts that the merge of `lists` gives the date `d`.
pub open spec fn field_total(lists: Seq<CategoryHits>, d: Seq<char>) -> int {
    count_or_zero(field_on(lists, d, Category::ApplicationName).0) + count_or_zero(
        field_on(lists, d, Category::ApplicationTitle).0,
    ) + count_or_zero(field_on(lists, d, Category::BrowserTitle).0) + count_or_zero(
        field_on(lists, d, Category::BrowserUrl).0,
    ) + count_or_zero(field_on(lists, d, Category::FilePath).0)
}

/// Lists as the searches give them: each field is searched once, and every
/// day of a list has distinct dates, counts its own field only, and has that
/// count as its total.
pub open spec fn tallied_lists(lists: Seq<CategoryHits>) -> bool {
    &&& forall|k: int, j: int| 0 <= k < j < lists.len() ==> (#[trigger] lists[k]).0 != (#[trigger] lists[j]).0
    &&& forall|k: int| 0 <= k < lists.len() ==> dates_distinct((#[trigger] lists[k]).1@)
    &&& forall|k: int, i: int|
        0 <= k < lists.len() && 0 <= i < lists[k].1@.len() ==> category_count(#[trigger] lists[k].1@[i], lists[k].0)
            == Some(lists[k].1@[i].count) && forall|o: Category|
            o != lists[k].0 ==> category_count(lists[k].1@[i], o) is None
}

proof fn lemma_tallied_prefix(lists: Seq<CategoryHits>)
    requires
        lists.len() > 0,
        tallied_lists(lists),
    ensures
        tallied_lists(lists.drop_last()),
{
    let p = lists.drop_last();
    assert forall|k: int, j: int| 0 <= k < j < p.len() implies (#[trigger] p[k]).0 != (#[trigger] p[j]).0 by {
        assert(p[k] == lists[k] && p[j] == lists[j]);
    }
    assert forall|k: int| 0 <= k < p.len() implies dates_distinct((#[trigger] p[k]).1@) by {
        assert(p[k] == lists[k]);
    }
    assert forall|k: int, i: int| 0 <= k < p.len() && 0 <= i < p[k].1@.len() implies category_count(
        #[trigger] p[k].1@[i],
        p[k].0,
    ) == Some(p[k].1@[i].count) && forall|o: Category| o != p[k].0 ==> category_count(p[k].1@[i], o) is None by {
        assert(p[k] == lists[k]);
        assert(category_count(lists[k].1@[i], lists[k].0) == Some(lists[k].1@[i].count));
    }
}

/// A date no list has gets no field.
proof fn lemma_field_unlisted(lists: Seq<CategoryHits>, d: Seq<char>, c: Category)
    requires
        !listed(lists, d),
    ensures
        field_on(lists, d, c).0 is None,
    decreases lists.len(),
{
    if lists.len() > 0 {
        assert(!has_date(lists.last().1@, d)) by {
            if has_date(lists.last().1@, d) {
                assert(lists[lists.len() - 1] == lists.last());
            }
        }
        assert(!listed(lists.drop_last(), d)) by {
            if listed(lists.drop_last(), d) {
                let k = choose|k: int| 0 <= k < lists.drop_last().len() && has_date((#[trigger] lists.drop_last()[k]).1@, d);
                assert(lists[k] == lists.drop_last()[k]);
            }
        }
        lemma_field_unlisted(lists.drop_last(), d, c);
    }
}

/// A field no list searched gets no count.
proof fn lemma_field_unsearched(lists: Seq<CategoryHits>, d: Seq<char>, c: Category)
    requires
        tallied_lists(lists),
        forall|k: int| 0 <= k < lists.len() ==> (#[trigger] lists[k]).0 != c,
    ensures
        field_on(lists, d, c).0 is None,
    decreases lists.len(),
{
    if lists.len() > 0 {
        let l = lists.last();
        assert(l == lists[lists.len() - 1]);
        lemma_tallied_prefix(lists);
        assert forall|k: int| 0 <= k < lists.drop_last().len() implies (#[trigger] lists.drop_last()[k]).0 != c by {
            assert(lists.drop_last()[k] == lists[k]);
        }
        lemma_field_unsearched(lists.drop_last(), d, c);
        if has_date(l.1@, d) {
            let i = choose|i: int| 0 <= i < l.1@.len() && (#[trigger] l.1@[i]).date@ == d;
            assert(category_count(lists[lists.len() - 1].1@[i], c) is None);
        }
    }
}

/// When each field is searched once and each day counts its own field only,
/// the total of a date over the lists is the sum of the five field counts the
/// merge gives it.
pub proof fn lemma_total_is_field_total(lists: Seq<CategoryHits>, d: Seq<char>)
    requires
        tallied_lists(lists),
    ensures
        total_on(lists, d) == field_total(lists, d),
    decreases lists.len(),
{
    if lists.len() > 0 {
        let p = lists.drop_last();
        let l = lists.last();
        let n = lists.len() - 1;
        assert(l == lists[n]);
        lemma_tallied_prefix(lists);
        lemma_total_is_field_total(p, d);
        if has_date(l.1@, d) {
            let i = choose|i: int| 0 <= i < l.1@.len() && (#[trigger] l.1@[i]).date@ == d;
            let day = day_on(l.1@, d);
            assert(category_count(lists[n].1@[i], lists[n].0) == Some(lists[n].1@[i].count));
            assert(day == l.1@[i]);
            assert forall|k: int| 0 <= k < p.len() implies (#[trigger] p[k]).0 != l.0 by {
                assert(p[k] == lists[k]);
            }
            lemma_field_unsearched(p, d, l.0);
            assert forall|c: Category| c != l.0 implies count_or_zero(#[trigger] field_on(lists, d, c).0) == count_or_zero(
                field_on(p, d, c).0,
            ) by {
                if !listed(p, d) {
                    lemma_field_unlisted(p, d, c);
                    assert(category_count(lists[n].1@[i], c) is None);
                }
            }
            assert(count_or_zero(field_on(lists, d, l.0).0) == day.count);
            assert(count_or_zero(field_on(p, d, l.0).0) == 0);
            assert(count_on(l.1@, d) == day.count);
        } else {
            assert(count_on(l.1@, d) == 0);
        }
    }
}

/// A day of merged search hits whose lists each counted one field, searched
/// once, counts the sum of its five field counts.
pub proof fn law_day_count_is_sum_of_fields(lists: Seq<CategoryHits>, h: HitsPerDay)
    requires
        tallied_lists(lists),
        fields_match(h, lists),
        h.count == total_on(lists, h.date@),
    ensures
        h.count == fields_total(h),
{
    lemma_total_is_field_total(lists, h.date@);
    assert(category_count(h, Category::ApplicationName) == field_on(lists, h.date@, Category::ApplicationName).0);
    assert(category_count(h, Category::ApplicationTitle) == field_on(lists, h.date@, Category::ApplicationTitle).0);
    assert(category_count(h, Category::BrowserTitle) == field_on(lists, h.date@, Category::BrowserTitle).0);
    assert(category_count(h, Category::BrowserUrl) == field_on(lists, h.date@, Category::BrowserUrl).0);
    assert(category_count(h, Category::FilePath) == field_on(lists, h.date@, Category::FilePath).0);
}

// ---------------------------------------------------------------------------
// Tallying the hits of one field per day
// ---------------------------------------------------------------------------

/// One matching log as read from the database: its id, timestamp and day.
#[derive(Debug)]
pub struct HitRow {
    pub id: i64,
    pub timestamp: i64,
    pub date: String,
}

/// The search hit that a row stands for.
pub open spec fn hit_of(row: HitRow) -> SearchHit {
    SearchHit { timestamp: row.timestamp, id: row.id, text: None }
}

/// The rows of `rows` dated `d`, in order.
pub open spec fn rows_on(rows: Seq<HitRow>, d: Seq<char>) -> Seq<HitRow> {
    rows.filter(on_date(d))
}

/// Whether a row is dated `d`.
pub open spec fn on_date(d: Seq<char>) -> spec_fn(HitRow) -> bool {
    |r: HitRow| r.date@ == d
}

/// Some row of `rows` is dated `d`.
pub open spec fn has_row_on(rows: Seq<HitRow>, d: Seq<char>) -> bool {
    exists|k: int| 0 <= k < rows.len() && (#[trigger] rows[k]).date@ == d
}

/// `h` is the tally of the rows of its date for the field `c`: the count of
/// those rows, in total and for `c`, their hits in order for `c`, and nothing
/// for any other field.
pub open spec fn tallies(h: HitsPerDay, rows: Seq<HitRow>, c: Category) -> bool {
    &&& h.count == rows_on(rows, h.date@).len()
    &&& category_count(h, c) == Some(h.count)
    &&& category_hits(h, c) is Some
    &&& category_hits(h, c)->0@ == rows_on(rows, h.date@).map_values(|r: HitRow| hit_of(r))
    &&& forall|o: Category| o != c ==> category_count(h, o) is None && category_hits(h, o) is None
}

/// Takes the hits of the field `c` out of `h`, leaving `None` there.
fn take_category_hits(h: &mut HitsPerDay, c: Category) -> (r: Option<Vec<SearchHit>>)
    ensures
        r == category_hits(*old(h), c),
        *final(h) == with_category(*old(h), c, category_count(*old(h), c), None),
{
    let mut r: Option<Vec<SearchHit>> = None;
    match c {
        Category::ApplicationName => std::mem::swap(&mut r, &mut h.application_name_hits),
        Category::ApplicationTitle => std::mem::swap(&mut r, &mut h.application_title_hits),
        Category::BrowserTitle => std::mem::swap(&mut r, &mut h.browser_title_hits),
        Category::BrowserUrl => std::mem::swap(&mut r, &mut h.browser_url_hits),
        Category::FilePath => std::mem::swap(&mut r, &mut h.file_path_hits),
    }
    r
}

/// Adds `hit` to the field `c` of `h`, whose tally for `c` is `n`.
fn add_hit(h: &mut HitsPerDay, c: Category, n: i64, hit: SearchHit)
    requires
        category_count(*old(h), c) == Some(n),
        category_hits(*old(h), c) is Some,
        n < i64::MAX,
    ensures
        category_hits(*final(h), c) is Some,
        category_hits(*final(h), c)->0@ == category_hits(*old(h), c)->0@.push(hit),
        *final(h) == with_category(*old(h), c, Some((n + 1) as i64), category_hits(*final(h), c)),
{
    let ghost h0 = *h;
    let hits = take_category_hits(h, c);
    let mut hits = match hits {
        Some(v) => v,
        None => Vec::new(),
    };
    hits.push(hit);
    let ghost v = hits;
    set_category(h, c, Some(n + 1), Some(hits));
    proof {
        assert(*h == with_category(h0, c, Some((n + 1) as i64), Some(v)));
    }
}

/// Tallies the matching rows `rows` of the field `c` per day: one day for each
/// date, with the number of its rows and their hits in order, latest day first.
pub fn group_hits(rows: Vec<HitRow>, c: Category) -> (r: Vec<HitsPerDay>)
    requires
        rows.len() < i64::MAX,
    ensures
        latest_first(r@),
        dates_distinct(r@),
        forall|d: Seq<char>| has_date(r@, d) <==> has_row_on(rows@, d),
        forall|i: int| 0 <= i < r.len() ==> tallies(#[trigger] r@[i], rows@, c),
{
    let ghost r0 = rows@;
    let mut acc: Vec<HitsPerDay> = Vec::new();
    for row in it: rows.into_iter()
        invariant
            it.seq() == r0,
            r0.len() < i64::MAX,
            dates_distinct(acc@),
            forall|d: Seq<char>| has_date(acc@, d) <==> has_row_on(r0.take(it.index() as int), d),
            forall|i: int| 0 <= i < acc.len() ==> tallies(#[trigger] acc@[i], r0.take(it.index() as int), c),
    {
        let ghost idx = it.index() as int;
        let ghost before = acc@;
        let ghost pre = r0.take(idx);
        let ghost post = r0.take(idx + 1);
        proof {
            assert(row == r0[idx]);
            assert(post =~= pre.push(row));
        }
        let mut j: usize = 0;
        while j < acc.len() && !(acc[j].date == row.date)
            invariant
                j <= acc.len(),
                forall|i: int| 0 <= i < j ==> (#[trigger] acc@[i]).date@ != row.date@,
            decreases acc.len() - j,
        {
            j = j + 1;
        }
        let hit = SearchHit { timestamp: row.timestamp, id: row.id, text: None };
        if j < acc.len() {
            let ghost d = row.date@;
            proof {
                assert(tallies(before[j as int], pre, c));
                pre.lemma_filter_len(on_date(d));
                assert(pre.len() == idx);
            }
            let mut h = acc.remove(j);
            let n = h.count;
            let ghost h0 = h;
            add_hit(&mut h, c, n, hit);
            proof {
                lemma_with_category(h0, c, Some((n + 1) as i64), category_hits(h, c));
            }
            h.count = n + 1;
            let ghost hj = h;
            acc.insert(j, h);
            proof {
                assert(acc@[j as int] == hj);
                pre.lemma_filter_push(row, on_date(d));
                assert(rows_on(post, d) =~= rows_on(pre, d).push(row));
                assert(rows_on(post, d).map_values(|r: HitRow| hit_of(r)) =~= rows_on(pre, d).map_values(|r: HitRow| hit_of(r)).push(hit_of(row)));
                assert(tallies(hj, post, c)) by {
                    assert(tallies(before[j as int], pre, c));
                    assert(before[j as int] == h0);
                    assert(h0.date@ == d);
                    assert(hj.date@ == d);
                    assert(hj.count == rows_on(post, d).len());
                    assert(category_count(hj, c) == Some(hj.count));
                    assert(category_hits(hj, c)->0@ == rows_on(post, hj.date@).map_values(|r: HitRow| hit_of(r)));
                    assert forall|o: Category| o != c implies category_count(hj, o) is None && category_hits(hj, o) is None by {
                        assert(category_count(hj, o) == category_count(h0, o));
                        assert(category_hits(hj, o) == category_hits(h0, o));
                    }
                }
                assert forall|i: int| 0 <= i < acc.len() implies tallies(#[trigger] acc@[i], post, c) by {
                    if i != j {
                        let e = acc@[i].date@;
                        assert(acc@[i] == before[i]);
                        assert(e != d);
                        pre.lemma_filter_push(row, on_date(e));
                        assert(rows_on(post, e) =~= rows_on(pre, e));
                    }
                }
                assert forall|e: Seq<char>| has_date(acc@, e) <==> has_row_on(post, e) by {
                    if has_row_on(post, e) {
                        let k = choose|k: int| 0 <= k < post.len() && (#[trigger] post[k]).date@ == e;
                        if k < idx {
                            assert(pre[k] == post[k]);
                            assert(has_row_on(pre, e));
                            assert(has_date(before, e));
                            let i = choose|i: int| 0 <= i < before.len() && (#[trigger] before[i]).date@ == e;
                            assert(acc@[i].date@ == e);
                        } else {
                            assert(acc@[j as int].date@ == e);
                        }
                    }
                    if has_date(acc@, e) {
                        let i = choose|i: int| 0 <= i < acc.len() && (#[trigger] acc@[i]).date@ == e;
                        assert(before[i].date@ == e);
                        assert(has_date(before, e));
                        assert(has_row_on(pre, e));
                        let k = choose|k: int| 0 <= k < pre.len() && (#[trigger] pre[k]).date@ == e;
                        assert(post[k] == pre[k]);
                    }
                }
            }
        } else {
            let ghost d = row.date@;
            let mut h = HitsPerDay::default();
            let ghost hd = h;
            h.date = row.date;
            h.count = 1;
            let hits = vec![hit];
            let ghost h0 = h;
            let ghost hv = hits;
            set_category(&mut h, c, Some(1), Some(hits));
            proof {
                lemma_with_category(h0, c, Some(1), Some(hv));
            }
            let ghost hn = h;
            acc.push(h);
            proof {
                assert(acc@[before.len() as int] == hn);
                assert forall|o: Category| o != c implies category_count(hn, o) is None && category_hits(hn, o) is None by {
                    assert(category_count(hn, o) == category_count(h0, o));
                    assert(category_hits(hn, o) == category_hits(h0, o));
                    assert(category_count(h0, o) == category_count(hd, o));
                    assert(category_hits(h0, o) == category_hits(hd, o));
                }
                assert(!has_date(before, d));
                assert(!has_row_on(pre, d));
                assert(rows_on(pre, d) =~= Seq::<HitRow>::empty()) by {
                    pre.lemma_filter_len(on_date(d));
                    if rows_on(pre, d).len() > 0 {
                        assert(rows_on(pre, d).contains(rows_on(pre, d)[0]));
                        pre.lemma_filter_contains_rev(on_date(d), rows_on(pre, d)[0]);
                        pre.lemma_filter_pred(on_date(d), 0);
                        let k = choose|k: int| 0 <= k < pre.len() && pre[k] == rows_on(pre, d)[0];
                        assert(pre[k].date@ == d);
                    }
                }
                pre.lemma_filter_push(row, on_date(d));
                assert(rows_on(post, d) =~= seq![row]);
                assert(rows_on(post, d).map_values(|r: HitRow| hit_of(r)) =~= seq![hit_of(row)]);
                assert(hit == hit_of(row));
                assert forall|i: int| 0 <= i < acc.len() implies tallies(#[trigger] acc@[i], post, c) by {
                    if i < before.len() {
                        let e = acc@[i].date@;
                        assert(acc@[i] == before[i]);
                        assert(e != d);
                        pre.lemma_filter_push(row, on_date(e));
                        assert(rows_on(post, e) =~= rows_on(pre, e));
                    } else {
                        assert(acc@[i] == hn);
                        assert(hn.date@ == d);
                        assert(hn.count == 1);
                        assert(category_count(hn, c) == Some(1i64));
                        assert(category_hits(hn, c) == Some(hv));
                        assert(hv@ =~= seq![hit]);
                        assert(tallies(hn, post, c));
                    }
                }
                assert forall|e: Seq<char>| has_date(acc@, e) <==> has_row_on(post, e) by {
                    if has_row_on(post, e) {
                        let k = choose|k: int| 0 <= k < post.len() && (#[trigger] post[k]).date@ == e;
                        if k < idx {
                            assert(pre[k] == post[k]);
                            assert(has_row_on(pre, e));
                            assert(has_date(before, e));
                            let i = choose|i: int| 0 <= i < before.len() && (#[trigger] before[i]).date@ == e;
                            assert(acc@[i].date@ == e);
                        } else {
                            assert(acc@[before.len() as int].date@ == e);
                        }
                    }
                    if has_date(acc@, e) {
                        let i = choose|i: int| 0 <= i < acc.len() && (#[trigger] acc@[i]).date@ == e;
                        if i < before.len() {
                            assert(before[i].date@ == e);
                            assert(has_date(before, e));
                            assert(has_row_on(pre, e));
                            let k = choose|k: int| 0 <= k < pre.len() && (#[trigger] pre[k]).date@ == e;
                            assert(post[k] == pre[k]);
                        } else {
                            assert(post[idx].date@ == e);
                        }
                    }
                }
            }
        }
    }
    proof {
        assert(r0.take(r0.len() as int) =~= r0);
    }
    let ghost a1 = acc@;
    let r = sort_latest_first(acc);
    proof {
        assert forall|i: int| 0 <= i < r.len() implies a1.contains(#[trigger] r@[i]) by {
            assert(r@.contains(r@[i]));
            assert(r@.to_multiset().count(r@[i]) > 0);
        }
        assert forall|x: int, y: int| 0 <= x < r.len() && 0 <= y < r.len() && x != y implies r@[x].date@ != r@[y].date@ by {
            if x < y {
                lemma_text_lt_total(r@[y].date@, r@[x].date@);
            } else {
                lemma_text_lt_total(r@[x].date@, r@[y].date@);
            }
        }
        assert forall|d: Seq<char>| has_date(r@, d) <==> has_row_on(r0, d) by {
            if has_date(r@, d) {
                let i = choose|i: int| 0 <= i < r.len() && (#[trigger] r@[i]).date@ == d;
                assert(a1.contains(r@[i]));
                let k = choose|k: int| 0 <= k < a1.len() && a1[k] == r@[i];
                assert(has_date(a1, d));
            }
            if has_row_on(r0, d) {
                assert(has_date(a1, d));
                let k = choose|k: int| 0 <= k < a1.len() && (#[trigger] a1[k]).date@ == d;
                assert(a1.contains(a1[k]));
                assert(a1.to_multiset().count(a1[k]) > 0);
                assert(r@.to_multiset().count(a1[k]) > 0);
                assert(r@.contains(a1[k]));
                let i = choose|i: int| 0 <= i < r.len() && r@[i] == a1[k];
                assert(r@[i].date@ == d);
            }
        }
        assert forall|i: int| 0 <= i < r.len() implies tallies(#[trigger] r@[i], r0, c) by {
            assert(a1.contains(r@[i]));
            let k = choose|k: int| 0 <= k < a1.len() && a1[k] == r@[i];
            assert(tallies(a1[k], r0, c));
        }
    }
    r
}

// ---------------------------------------------------------------------------
// The query
// ---------------------------------------------------------------------------

/// What `unicode_segmentation`'s `unicode_words` yields for the text `s`.
pub uninterp spec fn spec_unicode_words(s: Seq<char>) -> Seq<Seq<char>>;

/// The texts `ws` are pieces of `s`, in order and not overlapping: each starts
/// at or after the end of the one before.
pub open spec fn in_order_pieces(ws: Seq<Seq<char>>, s: Seq<char>) -> bool {
    exists|starts: Seq<int>|
        #![trigger starts.len()]
        starts.len() == ws.len() && forall|i: int|
            0 <= i < ws.len() ==> {
                &&& 0 <= #[trigger] starts[i]
                &&& starts[i] + ws[i].len() <= s.len()
                &&& s.subrange(starts[i], starts[i] + ws[i].len()) == ws[i]
                &&& i + 1 < ws.len() ==> starts[i] + ws[i].len() <= starts[i + 1]
            }
}

/// Whether `unicode_segmentation` counts the non-ASCII character `c` as
/// alphabetic or numeric (its `tables::util::is_alphanumeric`: Unicode's
/// `Alphabetic` property or general category `N`).
pub uninterp spec fn spec_word_char(c: char) -> bool;

/// `c` is a character that makes a piece a word: an ASCII letter or digit, or
/// a non-ASCII character that `unicode_segmentation` counts as alphabetic or
/// numeric.
pub open spec fn is_word_char(c: char) -> bool {
    if c <= '\x7f' {
        is_alnum_ascii(c)
    } else {
        spec_word_char(c)
    }
}

/// `w` holds a character that makes it a word.
pub open spec fn holds_word_char(w: Seq<char>) -> bool {
    exists|k: int| 0 <= k < w.len() && is_word_char(#[trigger] w[k])
}

/// The words of `s`, `UnicodeSegmentation::unicode_words`.
///
/// Trusted: the words are named `spec_unicode_words` of `s`'s characters. The
/// crate takes them from `split_word_bounds`, the consecutive pieces between
/// UAX#29 word boundaries, keeping those that hold an alphabetic or numeric
/// character (for an ASCII text, an ASCII letter or digit; else its
/// `is_alphanumeric`, named `spec_word_char`, which agrees with ASCII letters
/// and digits on ASCII): so they are pieces of `s` in order, none is empty and
/// each holds such a character. Which pieces those are is left to the name.
#[verifier::external_body]
fn unicode_words(s: &str) -> (r: Vec<&str>)
    ensures
        r@.map_values(|w: &str| w@) == spec_unicode_words(s@),
        forall|i: int| 0 <= i < r.len() ==> (#[trigger] r@[i])@.len() > 0,
        in_order_pieces(r@.map_values(|w: &str| w@), s@),
        forall|i: int|
            0 <= i < r.len() ==> exists|k: int|
                0 <= k < (#[trigger] r@[i])@.len() && ((r@[i]@[k] <= '\x7f' && is_alnum_ascii(r@[i]@[k])) || (
                r@[i]@[k] > '\x7f' && spec_word_char(r@[i]@[k]))),
{
    s.unicode_words().collect()
}

/// The words of the search query, in order.
pub fn tokenize_query(query: &str) -> (r: Vec<&str>)
    ensures
        r@.map_values(|w: &str| w@) == spec_unicode_words(query@),
        forall|i: int| 0 <= i < r.len() ==> (#[trigger] r@[i])@.len() > 0,
        in_order_pieces(r@.map_values(|w: &str| w@), query@),
        forall|i: int| 0 <= i < r.len() ==> holds_word_char((#[trigger] r@[i])@),
{
    let r = unicode_words(query);
    assert forall|i: int| 0 <= i < r.len() implies holds_word_char((#[trigger] r@[i])@) by {
        let k = choose|k: int|
            0 <= k < r@[i]@.len() && ((r@[i]@[k] <= '\x7f' && is_alnum_ascii(r@[i]@[k])) || (r@[i]@[k] > '\x7f'
                && spec_word_char(r@[i]@[k])));
        assert(is_word_char(r@[i]@[k]));
    }
    r
}

/// The words `ws` joined with `sep` between each two.
pub open spec fn join(ws: Seq<Seq<char>>, sep: char) -> Seq<char>
    decreases ws.len(),
{
    if ws.len() == 0 {
        Seq::empty()
    } else if ws.len() == 1 {
        ws[0]
    } else {
        join(ws.drop_last(), sep).push(sep) + ws.last()
    }
}

/// The SQL `LIKE` pattern for the words `ws`: the words in order, anything
/// before, between and after them.
pub open spec fn like_pattern(ws: Seq<Seq<char>>) -> Seq<char> {
    seq!['%'] + join(ws, '%') + seq!['%']
}

/// The `LIKE` pattern matching the words `words` in order.
pub fn like_pattern_of(words: &Vec<&str>) -> (r: String)
    ensures
        r@ == like_pattern(words@.map_values(|w: &str| w@)),
{
    let ghost ws = words@.map_values(|w: &str| w@);
    let mut cs: Vec<char> = Vec::new();
    cs.push('%');
    let mut i: usize = 0;
    while i < words.len()
        invariant
            i <= words.len(),
            ws == words@.map_values(|w: &str| w@),
            cs@ == seq!['%'] + join(ws.take(i as int), '%'),
        decreases words.len() - i,
    {
        let ghost before = cs@;
        if i > 0 {
            cs.push('%');
        }
        let w = chars_of(words[i]);
        let mut k: usize = 0;
        let ghost mid = cs@;
        while k < w.len()
            invariant
                k <= w.len(),
                cs@ == mid + w@.take(k as int),
            decreases w.len() - k,
        {
            cs.push(w[k]);
            k = k + 1;
            proof {
                assert(w@.take(k as int) =~= w@.take(k - 1).push(w@[k - 1]));
            }
        }
        proof {
            assert(w@.take(w@.len() as int) =~= w@);
            assert(ws.take(i + 1).drop_last() =~= ws.take(i as int));
            assert(ws[i as int] == w@);
            if i == 0 {
                assert(ws.take(1) =~= seq![w@]);
                assert(join(ws.take(0), '%') =~= Seq::<char>::empty());
                assert(cs@ =~= seq!['%'] + join(ws.take(1), '%'));
            } else {
                assert(cs@ =~= seq!['%'] + join(ws.take(i + 1), '%'));
            }
        }
        i = i + 1;
    }
    cs.push('%');
    proof {
        assert(ws.take(words.len() as int) =~= ws);
        assert(cs@ =~= like_pattern(ws));
    }
    string_from_chars(&cs)
}

/// The `LIKE` pattern a search for `query` matches logs with.
pub fn search_pattern(query: &str) -> (r: String)
    ensures
        r@ == like_pattern(spec_unicode_words(query@)),
{
    let words = tokenize_query(query);
    like_pattern_of(&words)
}

} // verus!
