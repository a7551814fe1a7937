use immic_app::application::{
    check_new_log, check_reference_log, is_ignored_app, last_path_component, logs_from_rows,
    AppTracker, ApplicationLog, ApplicationRow, LogError, TrackerAction, WinInfo,
};

fn win(path: &str, title: &str) -> WinInfo {
    WinInfo {
        process_id: 42,
        path: path.to_string(),
        name: "App".to_string(),
        title: title.to_string(),
        x: 1,
        y: 2,
        width: 300,
        height: 200,
    }
}

#[test]
fn tracker_records_new_then_references_repeats() {
    let mut t = AppTracker::new();
    assert_eq!((t.last_id, t.last_info_id), (-1, -1));
    assert!(matches!(t.observe_with(None, '/'), TrackerAction::Skip));
    let w = win("/usr/bin/app", "doc");
    match t.observe_with(Some(w.duplicate()), '/') {
        TrackerAction::InsertNew(x) => assert!(x.same_as(&w)),
        _ => panic!("expected a new log"),
    }
    t.record_inserted(w.duplicate(), 7, 3);
    match t.observe_with(Some(w.duplicate()), '/') {
        TrackerAction::InsertRef { ref_id, info_id } => assert_eq!((ref_id, info_id), (7, 3)),
        _ => panic!("expected a reference"),
    }
    match t.observe_with(Some(win("/usr/bin/app", "other")), '/') {
        TrackerAction::InsertNew(_) => {}
        _ => panic!("a changed title is a new log"),
    }
}

#[test]
fn windows_lock_screen_is_ignored() {
    let mut t = AppTracker::new();
    let lock = win("C:\\Windows\\SystemApps\\LockApp.exe", "");
    assert!(matches!(t.observe_with(Some(lock.duplicate()), '\\'), TrackerAction::Skip));
    assert!(matches!(t.observe_with(Some(lock.duplicate()), '/'), TrackerAction::InsertNew(_)));
    assert!(is_ignored_app("C:\\x\\scrnsave.scr", '\\'));
    assert!(!is_ignored_app("C:\\x\\notepad.exe", '\\'));
    t.record_inserted(win("/a", "b"), 1, 1);
    assert!(matches!(t.observe(None), TrackerAction::Skip));
}

#[test]
fn last_component_follows_split() {
    assert_eq!(last_path_component("/usr/bin/app", '/'), vec!['a', 'p', 'p']);
    assert_eq!(last_path_component("app", '/'), vec!['a', 'p', 'p']);
    assert_eq!(last_path_component("/usr/bin/", '/'), Vec::<char>::new());
}

#[test]
fn logs_from_windows_and_checks() {
    let log = ApplicationLog::from_window(win("/bin/x", "t"), 1700000000);
    assert_eq!(log.id, 0);
    assert_eq!(log.timestamp, 1700000000);
    assert_eq!(log.date, "");
    assert_eq!(log.title.as_deref(), Some("t"));
    assert_eq!(log.width, Some(300));
    assert!(log.info_id.is_none() && log.ref_id.is_none());
    assert_eq!(check_new_log(&log), Ok(()));
    let mut bad = log.clone();
    bad.timestamp = i64::MAX;
    assert_eq!(check_new_log(&bad), Err(LogError::InvalidTimestamp));
    let mut with_ref = log.clone();
    with_ref.ref_id = Some(5);
    assert_eq!(check_new_log(&with_ref), Err(LogError::RefIdMustBeNone));
    assert_eq!(check_reference_log(&log, Some((1, 2))), Err(LogError::RefIdMustBeSome));
    assert_eq!(check_reference_log(&with_ref, None), Err(LogError::LastIdsMustBeSome));
    assert_eq!(check_reference_log(&with_ref, Some((1, 2))), Ok((1, 2)));
    assert_eq!(LogError::RefIdMustBeNone.message(), "ref_id must be None");
    let stored = log.stored_as(9, "20231114".to_string(), 4);
    assert_eq!((stored.id, stored.info_id, stored.date.as_str()), (9, Some(4), "20231114"));
}

#[test]
fn rows_become_logs_in_order() {
    let rows = vec![
        ApplicationRow {
            timestamp: 10,
            id: 1,
            process_id: Some(2),
            title: Some("a".to_string()),
            x: None,
            y: None,
            width: None,
            height: None,
            ref_id: None,
            info_id: 5,
            path: "/p".to_string(),
            name: None,
        },
        ApplicationRow {
            timestamp: 20,
            id: 2,
            process_id: None,
            title: None,
            x: Some(1),
            y: Some(1),
            width: Some(1),
            height: Some(1),
            ref_id: Some(1),
            info_id: 5,
            path: "/p".to_string(),
            name: Some("n".to_string()),
        },
    ];
    let logs = logs_from_rows(rows, "20240101");
    assert_eq!(logs.len(), 2);
    assert_eq!((logs[0].id, logs[0].timestamp, logs[0].info_id), (1, 10, Some(5)));
    assert_eq!(logs[1].ref_id, Some(1));
    assert_eq!(logs[1].date, "20240101");
}
