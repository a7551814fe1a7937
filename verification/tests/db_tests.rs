use immic_app::application::ApplicationLog;
use immic_app::db::{
    database_path, event_log_from_row, event_stamp, int_to_text, is_debounced, partition_by_hour,
    partition_logs, timeframe_of, two_digit_label, DbError, Interval, Timestamp,
};
use immic_app::filelog::FileLog;

fn file_log(ts: i64) -> FileLog {
    FileLog { id: ts, timestamp: ts, date: String::new(), path: String::new(), kind: None, watch_dir: None }
}

#[test]
fn timeframes_round_toward_zero() {
    assert_eq!(timeframe_of(125), 2);
    assert_eq!(timeframe_of(-125), -2);
    assert_eq!(timeframe_of(-59), 0);
    assert_eq!(timeframe_of(i64::MIN), i64::MIN / 60);
    let s = event_stamp(1_700_000_000).unwrap();
    assert_eq!((s.timestamp, s.timeframe), (1_700_000_000, 28_333_333));
    assert_eq!(s.date.len(), 8);
    assert!(event_stamp(i64::MAX).is_none());
}

#[test]
fn debouncing_within_a_minute() {
    assert!(is_debounced(100, Some(41)));
    assert!(!is_debounced(100, Some(40)));
    assert!(!is_debounced(100, None));
    assert!(!is_debounced(i64::MAX, Some(i64::MIN)));
    assert!(is_debounced(i64::MIN, Some(i64::MAX)));
}

#[test]
fn database_lives_in_the_data_dir() {
    assert_eq!(database_path(None), Err(DbError::DataDirNotSet));
    assert_eq!(database_path(Some("/data")).unwrap(), "/data/immic.db");
    assert_eq!(DbError::DataDirNotSet.message(), "data-dir is not set");
    let e = event_log_from_row(1, 2, "d".to_string(), "k".to_string());
    assert_eq!((e.id, e.timestamp, e.date.as_str(), e.kind.as_str()), (1, 2, "d", "k"));
}

#[test]
fn hourly_groups_follow_the_hour_starts() {
    // hour h of the day starts at 1000 + 3600 h
    let starts: Vec<Option<i64>> = (0..24).map(|h| Some(1000 + 3600 * h)).collect();
    let logs = vec![file_log(1000), file_log(4599), file_log(8300), file_log(8400), file_log(20000)];
    let hours = vec![Some(0), Some(0), Some(2), Some(2), Some(5)];
    let groups = partition_by_hour(logs, &hours, &starts).unwrap();
    let shape: Vec<(String, Vec<i64>)> =
        groups.iter().map(|(l, g)| (l.clone(), g.iter().map(|x| x.timestamp()).collect())).collect();
    assert_eq!(
        shape,
        vec![
            ("00".to_string(), vec![1000, 4599]),
            ("02".to_string(), vec![8300, 8400]),
            ("05".to_string(), vec![20000]),
        ]
    );
    let missing: Vec<Option<i64>> = (0..24).map(|h| if h == 2 { None } else { Some(1000 + 3600 * h) }).collect();
    let logs = vec![file_log(1000), file_log(8300)];
    assert_eq!(partition_by_hour(logs, &vec![Some(0), Some(2)], &missing).err(), Some(DbError::InvalidTime));
    assert!(partition_by_hour(Vec::<FileLog>::new(), &vec![], &starts).unwrap().is_empty());
    assert_eq!(two_digit_label(7), "07");
    assert_eq!(two_digit_label(23), "23");
}

#[test]
fn partition_logs_keeps_every_log() {
    let logs = vec![file_log(1_700_000_000), file_log(1_700_000_100), file_log(1_700_010_000)];
    match partition_logs(logs, 1_700_000_000, Interval::Hourly) {
        Ok(groups) => {
            let all: Vec<i64> = groups.iter().flat_map(|(_, g)| g.iter().map(|x| x.timestamp())).collect();
            assert_eq!(all, vec![1_700_000_000, 1_700_000_100, 1_700_010_000]);
            assert!(groups.iter().all(|(l, g)| !g.is_empty() && l.len() == 2));
        }
        Err(e) => assert_eq!(e, DbError::InvalidTime),
    }
    assert_eq!(
        partition_logs(Vec::<ApplicationLog>::new(), 0, Interval::Daily).err(),
        Some(DbError::NotImplemented)
    );
}

#[test]
fn integers_print_in_decimal() {
    assert_eq!(int_to_text(0), vec!['0']);
    assert_eq!(int_to_text(-305), vec!['-', '3', '0', '5']);
    assert_eq!(int_to_text(i64::MIN).iter().collect::<String>(), i64::MIN.to_string());
}
