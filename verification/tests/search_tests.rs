use immic_app::search::{
    combine_hits, group_hits, like_pattern_of, search_pattern, tokenize_query, Category, HitRow,
    HitsPerDay, SearchHit,
};

#[test]
fn test_tokenize_query() {
    let query = "Hello, world!";
    let expected = vec!["Hello", "world"];
    assert_eq!(tokenize_query(query), expected);

    let query = "こんにちは世界！";
    let expected = vec!["こ", "ん", "に", "ち", "は", "世", "界"];
    assert_eq!(tokenize_query(query), expected);
}

#[test]
fn search_pattern_joins_words_with_wildcards() {
    assert_eq!(search_pattern("Hello, world!"), "%Hello%world%");
    assert_eq!(search_pattern(""), "%%");
    assert_eq!(search_pattern("  ...  "), "%%");
    assert_eq!(like_pattern_of(&vec!["a"]), "%a%");
}

fn row(id: i64, timestamp: i64, date: &str) -> HitRow {
    HitRow { id, timestamp, date: date.to_string() }
}

#[test]
fn group_hits_tallies_per_day_latest_first() {
    let rows = vec![
        row(1, 100, "20240101"),
        row(2, 200, "20240102"),
        row(3, 300, "20240101"),
    ];
    let days = group_hits(rows, Category::ApplicationTitle);
    assert_eq!(days.len(), 2);
    assert_eq!(days[0].date, "20240102");
    assert_eq!(days[0].count, 1);
    assert_eq!(days[1].date, "20240101");
    assert_eq!(days[1].count, 2);
    assert_eq!(days[1].application_title_count, Some(2));
    let hits = days[1].application_title_hits.as_ref().unwrap();
    assert_eq!(hits.len(), 2);
    assert_eq!((hits[0].id, hits[0].timestamp), (1, 100));
    assert_eq!((hits[1].id, hits[1].timestamp), (3, 300));
    assert!(days[1].application_name_count.is_none());
    assert!(days[1].file_path_hits.is_none());
}

#[test]
fn group_hits_of_nothing_is_empty() {
    assert!(group_hits(Vec::new(), Category::BrowserUrl).is_empty());
}

fn day(date: &str, count: i64, c: Category) -> HitsPerDay {
    let mut h = HitsPerDay::default();
    h.date = date.to_string();
    h.count = count;
    let hit = SearchHit { timestamp: 1, id: count, text: None };
    match c {
        Category::ApplicationName => {
            h.application_name_count = Some(count);
            h.application_name_hits = Some(vec![hit]);
        }
        Category::ApplicationTitle => {
            h.application_title_count = Some(count);
            h.application_title_hits = Some(vec![hit]);
        }
        Category::BrowserTitle => {
            h.browser_title_count = Some(count);
            h.browser_title_hits = Some(vec![hit]);
        }
        Category::BrowserUrl => {
            h.browser_url_count = Some(count);
            h.browser_url_hits = Some(vec![hit]);
        }
        Category::FilePath => {
            h.file_path_count = Some(count);
            h.file_path_hits = Some(vec![hit]);
        }
    }
    h
}

#[test]
fn combine_hits_adds_counts_and_keeps_fields() {
    let lists = vec![
        (Category::ApplicationTitle, vec![day("20240101", 2, Category::ApplicationTitle)]),
        (Category::ApplicationName, vec![day("20240101", 3, Category::ApplicationName), day("20240103", 1, Category::ApplicationName)]),
        (Category::BrowserTitle, vec![]),
        (Category::BrowserUrl, vec![day("20240102", 4, Category::BrowserUrl)]),
        (Category::FilePath, vec![day("20240101", 5, Category::FilePath)]),
    ];
    let r = combine_hits(lists);
    let dates: Vec<&str> = r.hits.iter().map(|h| h.date.as_str()).collect();
    assert_eq!(dates, vec!["20240103", "20240102", "20240101"]);
    assert_eq!(r.hits[2].count, 10);
    assert_eq!(r.hits[2].application_title_count, Some(2));
    assert_eq!(r.hits[2].application_name_count, Some(3));
    assert_eq!(r.hits[2].file_path_count, Some(5));
    assert_eq!(r.hits[2].browser_url_count, None);
    assert_eq!(r.hits[1].count, 4);
    assert_eq!(r.hits[0].count, 1);
}

#[test]
fn combine_hits_of_nothing_is_empty() {
    assert!(combine_hits(Vec::new()).hits.is_empty());
}

#[test]
fn combined_days_keep_each_field_and_sum_them() {
    let lists = vec![
        (Category::ApplicationTitle, group_hits(vec![row(1, 10, "20240101"), row(2, 11, "20240101")], Category::ApplicationTitle)),
        (Category::ApplicationName, group_hits(vec![row(3, 12, "20240101")], Category::ApplicationName)),
        (Category::BrowserTitle, group_hits(vec![row(4, 13, "20240102")], Category::BrowserTitle)),
        (Category::BrowserUrl, group_hits(vec![], Category::BrowserUrl)),
        (Category::FilePath, group_hits(vec![row(5, 14, "20240101")], Category::FilePath)),
    ];
    let r = combine_hits(lists);
    assert_eq!(r.hits.len(), 2);
    let d = &r.hits[1];
    assert_eq!(d.date, "20240101");
    assert_eq!(d.application_title_count, Some(2));
    assert_eq!(d.application_title_hits.as_ref().map(|v| v.iter().map(|h| h.id).collect::<Vec<_>>()), Some(vec![1, 2]));
    assert_eq!(d.application_name_count, Some(1));
    assert_eq!(d.application_name_hits.as_ref().map(|v| v[0].id), Some(3));
    assert_eq!(d.file_path_count, Some(1));
    assert_eq!(d.file_path_hits.as_ref().map(|v| v[0].id), Some(5));
    assert_eq!(d.browser_title_count, None);
    assert!(d.browser_title_hits.is_none());
    for h in &r.hits {
        let sum: i64 = [h.application_name_count, h.application_title_count, h.browser_title_count, h.browser_url_count, h.file_path_count]
            .iter()
            .map(|c| c.unwrap_or(0))
            .sum();
        assert_eq!(h.count, sum);
    }
    assert_eq!(r.hits[0].browser_title_count, Some(1));
    assert_eq!(r.hits[0].application_title_count, None);
}

#[test]
fn query_words_are_ordered_pieces_with_a_letter_or_digit() {
    let query = "-- foo.bar, 42 ; ¿qué? 世界 !!";
    let words = tokenize_query(query);
    let mut from = 0;
    for w in &words {
        assert!(!w.is_empty());
        assert!(w.chars().any(|c| c.is_alphanumeric()), "{:?}", w);
        let at = query[from..].find(w).unwrap() + from;
        from = at + w.len();
    }
    assert!(words.contains(&"42"));
}
