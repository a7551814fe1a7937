use immic_app::browser::{tab_seconds, TabInfo};
use immic_app::time::{utc_timestamp_in_range, FIRST_4_DIGIT_YEAR_SECS, LAST_4_DIGIT_YEAR_SECS, MAX_UTC_SECS, MIN_UTC_SECS};

fn tab(ms: i64) -> TabInfo {
    TabInfo {
        tab_id: None,
        url: None,
        title: None,
        fav_icon_url: None,
        referrer: None,
        opener_tab_id: None,
        window_id: None,
        timestamp_ms: ms,
    }
}

#[test]
fn calendar_range_ends_where_stated() {
    assert!(utc_timestamp_in_range(MIN_UTC_SECS));
    assert!(!utc_timestamp_in_range(MIN_UTC_SECS - 1));
    assert!(utc_timestamp_in_range(MAX_UTC_SECS));
    assert!(!utc_timestamp_in_range(MAX_UTC_SECS + 1));
    assert!(utc_timestamp_in_range(0));
    assert!(FIRST_4_DIGIT_YEAR_SECS > MIN_UTC_SECS && LAST_4_DIGIT_YEAR_SECS < MAX_UTC_SECS);
}

#[test]
fn milliseconds_are_in_range_by_their_whole_seconds() {
    assert_eq!(tab_seconds(&tab(MAX_UTC_SECS * 1000 + 999)), Some(MAX_UTC_SECS));
    assert_eq!(tab_seconds(&tab((MAX_UTC_SECS + 1) * 1000)), None);
    assert_eq!(tab_seconds(&tab(MIN_UTC_SECS * 1000)), Some(MIN_UTC_SECS));
    assert_eq!(tab_seconds(&tab(MIN_UTC_SECS * 1000 - 1)), None);
}
