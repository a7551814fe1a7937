use immic_app::browser::{
    browser_logs_from_rows, debounce_url, fav_icon_needs_update, parse_port, parse_url,
    server_port_from, tab_seconds, url_with_query, BrowserError, BrowserLog, BrowserRow, TabInfo,
    DEFAULT_SERVER_PORT,
};

fn tab(url: Option<&str>, ms: i64) -> TabInfo {
    TabInfo {
        tab_id: Some(1),
        url: url.map(|s| s.to_string()),
        title: Some("t".to_string()),
        fav_icon_url: None,
        referrer: None,
        opener_tab_id: None,
        window_id: Some(2),
        timestamp_ms: ms,
    }
}

#[test]
fn urls_split_into_origin_path_and_query() {
    let (o, p, q) = parse_url("https://example.com:8080/a/b?x=1#f").unwrap();
    assert_eq!(o, "https://example.com:8080");
    assert_eq!(p, "https://example.com:8080/a/b");
    assert_eq!(q.as_deref(), Some("x=1#f"));
    let (o, p, q) = parse_url("https://example.com").unwrap();
    assert_eq!(o, "https://example.com");
    assert_eq!(p, "https://example.com/");
    assert_eq!(q, None);
    assert!(matches!(parse_url("not a url"), Err(BrowserError::InvalidUrl(_))));
}

#[test]
fn shown_urls_put_the_query_back() {
    assert_eq!(url_with_query("https://a/b".to_string(), None), "https://a/b");
    assert_eq!(url_with_query("https://a/b".to_string(), Some(String::new())), "https://a/b");
    assert_eq!(url_with_query("https://a/b".to_string(), Some("x=1".to_string())), "https://a/b?x=1");
}

#[test]
fn ports_parse_like_u16() {
    assert_eq!(parse_port("8080"), Some(8080));
    assert_eq!(parse_port("+80"), Some(80));
    assert_eq!(parse_port("0065535"), Some(65535));
    assert_eq!(parse_port("65536"), None);
    assert_eq!(parse_port("99999999999"), None);
    assert_eq!(parse_port(""), None);
    assert_eq!(parse_port("+"), None);
    assert_eq!(parse_port("-1"), None);
    assert_eq!(parse_port(" 80"), None);
    for s in ["0", "1", "80", "443", "3294", "65535", "65536", "+7", "x", "12a"] {
        assert_eq!(parse_port(s), s.parse::<u16>().ok(), "{s}");
    }
    assert_eq!(server_port_from(Some("4000")), 4000);
    assert_eq!(server_port_from(Some("port")), DEFAULT_SERVER_PORT);
    assert_eq!(server_port_from(None), 3294);
}

#[test]
fn tabs_become_logs() {
    assert_eq!(tab_seconds(&tab(None, 1_700_000_000_999)), Some(1_700_000_000));
    assert_eq!(tab_seconds(&tab(None, -1)), Some(-1));
    assert_eq!(tab_seconds(&tab(None, i64::MAX)), None);
    let log = BrowserLog::from_tab(tab(Some("https://a.b/c"), 1_700_000_000_500)).unwrap();
    assert_eq!((log.id, log.timestamp), (0, 1_700_000_000));
    assert_eq!(log.url, "https://a.b/c");
    assert_eq!(log.window_id, Some(2));
    assert!(matches!(BrowserLog::from_tab(tab(Some("https://a.b/c"), i64::MIN)), Err(BrowserError::InvalidTimestamp)));
}

#[test]
fn debounce_looks_up_the_url_without_query() {
    assert_eq!(debounce_url(&tab(None, 0)).unwrap(), None);
    assert_eq!(debounce_url(&tab(Some("https://a.b/c?q=1"), 0)).unwrap(), Some("https://a.b/c".to_string()));
    assert!(debounce_url(&tab(Some("::"), 0)).is_err());
    assert!(fav_icon_needs_update(&None, &Some("i".to_string())));
    assert!(!fav_icon_needs_update(&Some("j".to_string()), &Some("i".to_string())));
    assert!(!fav_icon_needs_update(&None, &None));
}

#[test]
fn rows_become_browser_logs() {
    let rows = vec![BrowserRow {
        timestamp: 5,
        id: 9,
        url_query: Some("q=1".to_string()),
        title: None,
        tab_id: None,
        opener_tab_id: None,
        window_id: None,
        fav_icon_url: Some("f".to_string()),
        url: "https://a/".to_string(),
        referrer: Some("https://r/".to_string()),
    }];
    let logs = browser_logs_from_rows(rows, "20240101");
    assert_eq!(logs[0].url, "https://a/?q=1");
    assert_eq!(logs[0].referrer.as_deref(), Some("https://r/"));
    assert_eq!(logs[0].date, "20240101");
}
