use immic_app::application::{ApplicationLog, LogError};
use immic_app::browser::{BrowserError, BrowserLog};
use immic_app::filelog::FileLog;
use immic_app::store::{
    AppPhase, AppStep, AppStore, BrowserPhase, BrowserStep, BrowserStore, FilePhase, FileStep,
    FileStore, Reply, StoreError,
};

fn browser_log(url: &str, referrer: Option<&str>, fav: Option<&str>) -> BrowserLog {
    BrowserLog {
        id: 0,
        timestamp: 1_700_000_000,
        date: String::new(),
        url: url.to_string(),
        title: Some("Title".to_string()),
        fav_icon_url: fav.map(|s| s.to_string()),
        referrer: referrer.map(|s| s.to_string()),
        tab_id: Some(3),
        opener_tab_id: None,
        window_id: Some(9),
    }
}

fn app_log(ref_id: Option<i64>) -> ApplicationLog {
    ApplicationLog {
        id: 0,
        timestamp: 1_700_000_000,
        date: String::new(),
        info_id: None,
        path: "/usr/bin/editor".to_string(),
        name: Some("editor".to_string()),
        process_id: Some(42),
        title: Some("notes.txt".to_string()),
        x: Some(1),
        y: Some(2),
        width: Some(300),
        height: Some(400),
        ref_id,
    }
}

#[test]
fn browser_log_with_new_origin_url_and_referrer() {
    let log = browser_log(
        "https://example.com/page?q=1",
        Some("https://ref.org/from"),
        Some("https://example.com/icon.png"),
    );
    let (s, step) = BrowserStore::begin(log).unwrap();
    match step {
        BrowserStep::InsertEvent { stamp } => {
            assert_eq!(stamp.timestamp, 1_700_000_000);
            assert_eq!(stamp.timeframe, 1_700_000_000 / 60);
            assert_eq!(stamp.date.len(), 8);
        }
        other => panic!("unexpected step {:?}", other),
    }
    let (s, step) = s.next(Reply::Inserted(10)).unwrap();
    match step {
        BrowserStep::FindOrigin { origin } => assert_eq!(origin, "https://example.com"),
        other => panic!("unexpected step {:?}", other),
    }
    assert_eq!(s.url_query.as_deref(), Some("q=1"));
    let (s, step) = s.next(Reply::Missing).unwrap();
    match step {
        BrowserStep::InsertOrigin { origin, fav_icon_url } => {
            assert_eq!(origin, "https://example.com");
            assert_eq!(fav_icon_url.as_deref(), Some("https://example.com/icon.png"));
        }
        other => panic!("unexpected step {:?}", other),
    }
    let (s, step) = s.next(Reply::Inserted(20)).unwrap();
    match step {
        BrowserStep::FindUrl { url } => assert_eq!(url, "https://example.com/page"),
        other => panic!("unexpected step {:?}", other),
    }
    let (s, step) = s.next(Reply::Failed).unwrap();
    match step {
        BrowserStep::InsertUrl { url, origin_id, last_update } => {
            assert_eq!(url, "https://example.com/page");
            assert_eq!(origin_id, 20);
            assert_eq!(last_update, 1_700_000_000);
        }
        other => panic!("unexpected step {:?}", other),
    }
    let (s, step) = s.next(Reply::Inserted(30)).unwrap();
    match step {
        BrowserStep::FindReferrerOrigin { origin } => assert_eq!(origin, "https://ref.org"),
        other => panic!("unexpected step {:?}", other),
    }
    let (s, step) = s.next(Reply::Found(40, None)).unwrap();
    match step {
        BrowserStep::FindReferrerUrl { url } => assert_eq!(url, "https://ref.org/from"),
        other => panic!("unexpected step {:?}", other),
    }
    let (s, step) = s.next(Reply::Missing).unwrap();
    match step {
        BrowserStep::InsertReferrerUrl { url, origin_id } => {
            assert_eq!(url, "https://ref.org/from");
            assert_eq!(origin_id, 40);
        }
        other => panic!("unexpected step {:?}", other),
    }
    let (s, step) = s.next(Reply::Inserted(50)).unwrap();
    match step {
        BrowserStep::InsertLog {
            event_id,
            origin_id,
            url_id,
            url_query,
            title,
            referrer_id,
            tab_id,
            opener_tab_id,
            window_id,
        } => {
            assert_eq!((event_id, origin_id, url_id), (10, 20, 30));
            assert_eq!(url_query.as_deref(), Some("q=1"));
            assert_eq!(title.as_deref(), Some("Title"));
            assert_eq!(referrer_id, Some(50));
            assert_eq!((tab_id, opener_tab_id, window_id), (Some(3), None, Some(9)));
        }
        other => panic!("unexpected step {:?}", other),
    }
    let (s, step) = s.next(Reply::Inserted(60)).unwrap();
    assert!(matches!(step, BrowserStep::Finished(60)));
    assert_eq!(s.phase, BrowserPhase::Done);
    // every step kept the log and the recorded event
    assert_eq!(s.log.url, "https://example.com/page?q=1");
    assert_eq!(s.log.referrer.as_deref(), Some("https://ref.org/from"));
    assert_eq!(s.event_id, 10);
}

#[test]
fn browser_known_origin_without_favicon_gets_one() {
    let log = browser_log("https://example.com/", None, Some("https://example.com/f.ico"));
    let (s, _) = BrowserStore::begin(log).unwrap();
    let (s, _) = s.next(Reply::Inserted(1)).unwrap();
    let (s, step) = s.next(Reply::Found(7, None)).unwrap();
    match step {
        BrowserStep::SetFavIcon { origin_id, fav_icon_url } => {
            assert_eq!(origin_id, 7);
            assert_eq!(fav_icon_url.as_deref(), Some("https://example.com/f.ico"));
        }
        other => panic!("unexpected step {:?}", other),
    }
    let (s, step) = s.next(Reply::Updated).unwrap();
    assert!(matches!(step, BrowserStep::FindUrl { .. }));
    let (s, step) = s.next(Reply::Found(8, None)).unwrap();
    assert!(matches!(step, BrowserStep::TouchUrl { url_id: 8, last_update: 1_700_000_000 }));
    let (_, step) = s.next(Reply::Updated).unwrap();
    match step {
        BrowserStep::InsertLog { origin_id, url_id, referrer_id, url_query, .. } => {
            assert_eq!((origin_id, url_id), (7, 8));
            assert_eq!(referrer_id, None);
            assert_eq!(url_query, None);
        }
        other => panic!("unexpected step {:?}", other),
    }
}

#[test]
fn browser_known_origin_with_favicon_keeps_it() {
    let log = browser_log("https://example.com/", None, Some("https://example.com/f.ico"));
    let (s, _) = BrowserStore::begin(log).unwrap();
    let (s, _) = s.next(Reply::Inserted(1)).unwrap();
    let (s, step) = s.next(Reply::Found(7, Some("old".to_string()))).unwrap();
    assert!(matches!(step, BrowserStep::FindUrl { .. }));
    assert_eq!(s.phase, BrowserPhase::Url);
}

#[test]
fn browser_referrer_that_does_not_parse_is_left_out() {
    let log = browser_log("https://example.com/", Some("not a url"), None);
    let (s, _) = BrowserStore::begin(log).unwrap();
    let (s, _) = s.next(Reply::Inserted(1)).unwrap();
    let (s, _) = s.next(Reply::Found(2, Some("f".to_string()))).unwrap();
    let (s, _) = s.next(Reply::Found(3, None)).unwrap();
    let (s, step) = s.next(Reply::Updated).unwrap();
    assert!(matches!(step, BrowserStep::InsertLog { referrer_id: None, .. }));
    assert_eq!(s.phase, BrowserPhase::Log);
}

#[test]
fn browser_bad_url_stops_after_the_event() {
    let log = browser_log("no url here", None, None);
    let (s, _) = BrowserStore::begin(log).unwrap();
    assert!(matches!(
        s.next(Reply::Inserted(1)),
        Err(StoreError::Browser(BrowserError::InvalidUrl(_)))
    ));
}

#[test]
fn browser_out_of_range_timestamp_is_refused() {
    let mut log = browser_log("https://example.com/", None, None);
    log.timestamp = i64::MAX;
    assert!(matches!(BrowserStore::begin(log), Err(StoreError::InvalidTimestamp)));
}

#[test]
fn browser_unexpected_answer_is_refused() {
    let log = browser_log("https://example.com/", None, None);
    let (s, _) = BrowserStore::begin(log).unwrap();
    assert!(matches!(s.next(Reply::Updated), Err(StoreError::UnexpectedReply)));
}

fn file_log(watch_dir: Option<&str>) -> FileLog {
    FileLog {
        id: 0,
        timestamp: 1_700_000_000,
        date: String::new(),
        path: "/home/u/doc.txt".to_string(),
        kind: Some("Modify".to_string()),
        watch_dir: watch_dir.map(|s| s.to_string()),
    }
}

#[test]
fn file_log_with_new_file_and_known_watch_dir() {
    let (s, step) = FileStore::begin(file_log(Some("/home/u"))).unwrap();
    assert!(matches!(step, FileStep::InsertEvent { .. }));
    let (s, step) = s.next(Reply::Inserted(5)).unwrap();
    match step {
        FileStep::FindInfo { path } => assert_eq!(path, "/home/u/doc.txt"),
        other => panic!("unexpected step {:?}", other),
    }
    let (s, step) = s.next(Reply::Missing).unwrap();
    match step {
        FileStep::InsertInfo { path, last_update } => {
            assert_eq!(path, "/home/u/doc.txt");
            assert_eq!(last_update, 1_700_000_000);
        }
        other => panic!("unexpected step {:?}", other),
    }
    let (s, step) = s.next(Reply::Inserted(6)).unwrap();
    match step {
        FileStep::FindWatchDir { dir } => assert_eq!(dir, "/home/u"),
        other => panic!("unexpected step {:?}", other),
    }
    let (s, step) = s.next(Reply::Found(7, None)).unwrap();
    match step {
        FileStep::InsertLog { event_id, info_id, kind, watch_dir_id } => {
            assert_eq!((event_id, info_id), (5, 6));
            assert_eq!(kind.as_deref(), Some("Modify"));
            assert_eq!(watch_dir_id, Some(7));
        }
        other => panic!("unexpected step {:?}", other),
    }
    let (s, step) = s.next(Reply::Inserted(8)).unwrap();
    assert!(matches!(step, FileStep::Finished(8)));
    assert_eq!(s.phase, FilePhase::Done);
    assert_eq!(s.log.path, "/home/u/doc.txt");
    assert_eq!(s.event_id, 5);
}

#[test]
fn file_log_known_file_is_touched_and_new_watch_dir_stored() {
    let (s, _) = FileStore::begin(file_log(Some("/w"))).unwrap();
    let (s, _) = s.next(Reply::Inserted(1)).unwrap();
    let (s, step) = s.next(Reply::Found(2, None)).unwrap();
    assert!(matches!(step, FileStep::TouchInfo { info_id: 2, last_update: 1_700_000_000 }));
    let (s, _) = s.next(Reply::Updated).unwrap();
    let (s, step) = s.next(Reply::Missing).unwrap();
    match step {
        FileStep::InsertWatchDir { dir } => assert_eq!(dir, "/w"),
        other => panic!("unexpected step {:?}", other),
    }
    let (_, step) = s.next(Reply::Inserted(3)).unwrap();
    assert!(matches!(step, FileStep::InsertLog { info_id: 2, watch_dir_id: Some(3), .. }));
}

#[test]
fn file_log_without_watch_dir_and_failed_lookup() {
    let (s, _) = FileStore::begin(file_log(None)).unwrap();
    let (s, _) = s.next(Reply::Inserted(1)).unwrap();
    let (s, _) = s.next(Reply::Found(2, None)).unwrap();
    let (_, step) = s.next(Reply::Updated).unwrap();
    assert!(matches!(step, FileStep::InsertLog { watch_dir_id: None, .. }));

    let (s, _) = FileStore::begin(file_log(None)).unwrap();
    let (s, _) = s.next(Reply::Inserted(1)).unwrap();
    assert!(matches!(s.next(Reply::Failed), Err(StoreError::LookupFailed)));
}

#[test]
fn application_log_is_stored_with_event_date_and_info() {
    let (s, step) = AppStore::begin(app_log(None)).unwrap();
    let date = match step {
        AppStep::InsertEvent { stamp } => stamp.date,
        other => panic!("unexpected step {:?}", other),
    };
    let (s, step) = s.next(Reply::Inserted(11)).unwrap();
    match step {
        AppStep::FindInfo { path } => assert_eq!(path, "/usr/bin/editor"),
        other => panic!("unexpected step {:?}", other),
    }
    let (s, step) = s.next(Reply::Missing).unwrap();
    match step {
        AppStep::InsertInfo { path, name } => {
            assert_eq!(path, "/usr/bin/editor");
            assert_eq!(name.as_deref(), Some("editor"));
        }
        other => panic!("unexpected step {:?}", other),
    }
    let (s, step) = s.next(Reply::Inserted(12)).unwrap();
    match step {
        AppStep::InsertLog { event_id, info_id, process_id, title, x, y, width, height } => {
            assert_eq!((event_id, info_id), (11, 12));
            assert_eq!(process_id, Some(42));
            assert_eq!(title.as_deref(), Some("notes.txt"));
            assert_eq!((x, y, width, height), (Some(1), Some(2), Some(300), Some(400)));
        }
        other => panic!("unexpected step {:?}", other),
    }
    let (s, step) = s.next(Reply::Inserted(13)).unwrap();
    assert!(matches!(step, AppStep::Finished(13)));
    assert_eq!(s.phase, AppPhase::Done);
    assert_eq!(s.log.id, 13);
    assert_eq!(s.log.date, date);
    assert_eq!(s.log.info_id, Some(12));
    assert_eq!(s.log.title.as_deref(), Some("notes.txt"));
}

#[test]
fn application_known_path_keeps_its_info() {
    let (s, _) = AppStore::begin(app_log(None)).unwrap();
    let (s, _) = s.next(Reply::Inserted(1)).unwrap();
    let (_, step) = s.next(Reply::Found(77, None)).unwrap();
    assert!(matches!(step, AppStep::InsertLog { info_id: 77, event_id: 1, .. }));
}

#[test]
fn application_reference_log_uses_last_ids() {
    let (s, step) = AppStore::begin_reference(app_log(Some(1)), Some((100, 200))).unwrap();
    assert!(matches!(step, AppStep::InsertEvent { .. }));
    let (s, step) = s.next(Reply::Inserted(300)).unwrap();
    assert!(matches!(step, AppStep::InsertReference { event_id: 300, info_id: 200, ref_id: 100 }));
    let (_, step) = s.next(Reply::Inserted(301)).unwrap();
    assert!(matches!(step, AppStep::Finished(301)));
}

#[test]
fn application_logs_that_cannot_be_stored() {
    assert!(matches!(
        AppStore::begin(app_log(Some(1))),
        Err(StoreError::Log(LogError::RefIdMustBeNone))
    ));
    assert!(matches!(
        AppStore::begin_reference(app_log(None), Some((1, 2))),
        Err(StoreError::Log(LogError::RefIdMustBeSome))
    ));
    assert!(matches!(
        AppStore::begin_reference(app_log(Some(1)), None),
        Err(StoreError::Log(LogError::LastIdsMustBeSome))
    ));
    let mut log = app_log(None);
    log.timestamp = i64::MIN;
    assert!(matches!(AppStore::begin(log), Err(StoreError::Log(LogError::InvalidTimestamp))));
}

/// Runs a browser-log storing against in-memory tables that answer truly.
fn store_browser(log: BrowserLog, origins: &mut Vec<String>, urls: &mut Vec<String>) -> i64 {
    let (mut s, mut step) = BrowserStore::begin(log).unwrap();
    let mut next_id = 100;
    loop {
        next_id += 1;
        let reply = match &step {
            BrowserStep::InsertEvent { .. } | BrowserStep::InsertLog { .. } => Reply::Inserted(next_id),
            BrowserStep::FindOrigin { origin } | BrowserStep::FindReferrerOrigin { origin } => {
                match origins.iter().position(|o| o == origin) {
                    Some(i) => Reply::Found(i as i64, Some("f".to_string())),
                    None => Reply::Missing,
                }
            }
            BrowserStep::FindUrl { url } | BrowserStep::FindReferrerUrl { url } => match urls.iter().position(|u| u == url) {
                Some(i) => Reply::Found(i as i64, None),
                None => Reply::Missing,
            },
            BrowserStep::InsertOrigin { origin, .. } | BrowserStep::InsertReferrerOrigin { origin } => {
                origins.push(origin.clone());
                Reply::Inserted(origins.len() as i64 - 1)
            }
            BrowserStep::InsertUrl { url, .. } | BrowserStep::InsertReferrerUrl { url, .. } => {
                urls.push(url.clone());
                Reply::Inserted(urls.len() as i64 - 1)
            }
            BrowserStep::SetFavIcon { .. } | BrowserStep::TouchUrl { .. } => Reply::Updated,
            BrowserStep::Finished(id) => return *id,
        };
        let (n, st) = s.next(reply).unwrap();
        s = n;
        step = st;
    }
}

#[test]
fn storing_browser_logs_reuses_origins_and_urls() {
    let mut origins = Vec::new();
    let mut urls = Vec::new();
    store_browser(browser_log("https://a.org/x?q=1", Some("https://a.org/y"), None), &mut origins, &mut urls);
    store_browser(browser_log("https://a.org/y", Some("https://b.org/x"), None), &mut origins, &mut urls);
    store_browser(browser_log("https://a.org/x?q=2", Some("https://a.org/y"), None), &mut origins, &mut urls);
    assert_eq!(origins, vec!["https://a.org".to_string(), "https://b.org".to_string()]);
    assert_eq!(urls, vec!["https://a.org/x".to_string(), "https://a.org/y".to_string(), "https://b.org/x".to_string()]);
}
