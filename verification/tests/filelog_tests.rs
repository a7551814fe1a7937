use immic_app::filelog::{
    check_ignore, check_ignore_with, file_logs_from_rows, split_pathset, watch_pathset, FileEventInfo,
    FileKind, FileLog, FileRow,
};

fn ev(kind: FileKind, path: &str) -> FileEventInfo {
    FileEventInfo { kind, path: path.to_string(), watch_dir: None }
}

fn ignored(kind: FileKind, path: &str) -> bool {
    let name = std::path::Path::new(path).file_name().map(|n| n.to_string_lossy().to_string());
    check_ignore_with(&ev(kind, path), name, '/')
}

#[test]
fn ignore_rules() {
    assert!(!ignored(FileKind::Create, "/home/u/doc/report.txt"));
    assert!(ignored(FileKind::Other, "/home/u/doc/report.txt"));
    assert!(ignored(FileKind::Modify, "/home/u/doc/.hidden"));
    assert!(ignored(FileKind::Modify, "/home/u/doc/report.txt~"));
    assert!(ignored(FileKind::Modify, "/home/u/doc/a.pyc"));
    assert!(ignored(FileKind::Modify, "/home/u/doc/immic.db-wal"));
    assert!(!ignored(FileKind::Modify, "/home/u/doc/a.dbx"));
    assert!(ignored(FileKind::Remove, "/home/u/proj/.git/index"));
    assert!(ignored(FileKind::Remove, "/home/u/proj/node_modules/x/y.js"));
    assert!(ignored(FileKind::Remove, "/home/u/proj/target/debug/app"));
    assert!(!ignored(FileKind::Remove, "/home/u/proj/targets/app"));
    assert!(!ignored(FileKind::Remove, "/home/u/proj/git/app"));
    assert!(ignored(FileKind::Create, "/home/u/.."));
    assert!(ignored(FileKind::Create, "/"));
    assert!(check_ignore_with(&ev(FileKind::Create, "C:\\p\\.git\\x"), Some("x".to_string()), '\\'));
    assert!(!check_ignore_with(&ev(FileKind::Create, "C:\\p\\.git\\x"), Some("x".to_string()), '/'));
}

#[test]
fn check_ignore_uses_the_platform() {
    assert!(check_ignore(&ev(FileKind::Other, "/a/b")));
    assert!(!check_ignore(&ev(FileKind::Create, "/a/b.txt")));
    assert!(check_ignore(&ev(FileKind::Create, "/a/b.lock")));
}

#[test]
fn pathsets_split_at_bars() {
    assert_eq!(split_pathset("/a|/b"), vec!["/a".to_string(), "/b".to_string()]);
    assert_eq!(split_pathset(""), vec![String::new()]);
    assert_eq!(split_pathset("|x|"), vec![String::new(), "x".to_string(), String::new()]);
    assert_eq!(watch_pathset(None), Vec::<String>::new());
    assert_eq!(watch_pathset(Some("/a")), vec!["/a".to_string()]);
    for s in ["", "a", "a|b", "||", "x||y|"] {
        let expected: Vec<String> = s.split('|').map(|p| p.to_string()).collect();
        assert_eq!(split_pathset(s), expected);
    }
}

#[test]
fn file_logs_from_events_and_rows() {
    let info = FileEventInfo { kind: FileKind::Modify, path: "/a/b".to_string(), watch_dir: Some("/a".to_string()) };
    let log = FileLog::from_event(info, 99);
    assert_eq!((log.id, log.timestamp, log.kind.as_deref()), (0, 99, Some("modify")));
    assert_eq!(log.watch_dir.as_deref(), Some("/a"));
    assert_eq!(FileKind::Create.as_str(), "create");
    assert_eq!(FileKind::Remove.as_str(), "remove");
    assert_eq!(FileKind::Other.as_str(), "other");
    let rows = vec![FileRow { timestamp: 1, id: 2, kind: None, path: "/x".to_string(), watch_dir: None }];
    let logs = file_logs_from_rows(rows, "20240101");
    assert_eq!((logs[0].id, logs[0].path.as_str(), logs[0].date.as_str()), (2, "/x", "20240101"));
}

#[test]
fn ignoring_reads_only_the_path_once_the_kind_counts() {
    for path in ["/home/u/doc/report.txt", "/home/u/.git/config", "/home/u/a.log", "/home/u/b~"] {
        let a = FileEventInfo { kind: FileKind::Create, path: path.to_string(), watch_dir: Some("/home".to_string()) };
        let b = FileEventInfo { kind: FileKind::Remove, path: path.to_string(), watch_dir: None };
        let c = FileEventInfo { kind: FileKind::Modify, path: path.to_string(), watch_dir: Some("/x".to_string()) };
        assert_eq!(check_ignore(&a), check_ignore(&b));
        assert_eq!(check_ignore(&a), check_ignore(&c));
    }
}
