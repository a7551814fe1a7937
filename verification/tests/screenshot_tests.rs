use immic_app::screenshot::{
    check_iss_uri, is_blank, iss_image_target, screenshot_file_names, screenshot_name,
    screenshot_names, thumbnail_size, ScreenshotLog,
};

#[test]
fn screen_test_check_iss_uri() {
    assert!(check_iss_uri("iss://localhost/20210901/123456-abcdef"));
    assert!(check_iss_uri("iss://localhost/20210901/123456-abcdef-t"));
    assert!(!check_iss_uri("iss://localhost/20210901/123456-abcdef-t-t"));
    assert!(!check_iss_uri("iss://localhost/20210901/123456-abcdef.png"));
    assert!(!check_iss_uri("iss://localhost/20210901/123456-abcdef/"));
    assert!(!check_iss_uri("iss://localhost/20210901/123456-abcdef/abc"));
    assert!(!check_iss_uri("iss://localhost/20210901/123456-abcdef/.."));
    assert!(!check_iss_uri("iss://localhost//20210901/123456-abcdef"));
    assert!(!check_iss_uri("iss://localhost/../20210901/123456-abcdef"));
}

#[test]
fn screenshot_test_check_iss_uri() {
    assert!(check_iss_uri("iss://localhost/20210901/123456-abcdef"));
    assert!(check_iss_uri("iss://localhost/20210901/123456-abcdef-t"));
    assert!(!check_iss_uri("iss://localhost/20210901/123456-abcdef-t-t"));
    assert!(!check_iss_uri("iss://localhost/20210901/123456-abcdef.png"));
    assert!(!check_iss_uri("iss://localhost/20210901/123456-abcdef/"));
    assert!(!check_iss_uri("iss://localhost/20210901/123456-abcdef/abc"));
    assert!(!check_iss_uri("iss://localhost/20210901/123456-abcdef/.."));
    assert!(!check_iss_uri("iss://localhost//20210901/123456-abcdef"));
    assert!(!check_iss_uri("iss://localhost/../20210901/123456-abcdef"));
}

#[test]
fn check_iss_uri_edges() {
    assert!(check_iss_uri("iss://localhost/20210901/123456-"));
    assert!(check_iss_uri("iss://localhost/20210901/123456--t"));
    assert!(!check_iss_uri("iss://localhost/2021090/123456-abc"));
    assert!(!check_iss_uri("iss://localhost/20210901/12345-abc"));
    assert!(!check_iss_uri("iss://otherhost/20210901/123456-abc"));
    assert!(!check_iss_uri(""));
    // `\d` is Unicode's decimal digit class
    assert!(check_iss_uri("iss://localhost/٢٠٢١٠٩٠١/123456-a"));
    assert!(!check_iss_uri("iss://localhost/20210901/123456-é"));
}

#[test]
fn iss_image_target_splits_date_and_file() {
    assert_eq!(
        iss_image_target("iss://localhost/20210901/123456-1-t"),
        Some(("20210901".to_string(), "123456-1-t.jpg".to_string()))
    );
    assert_eq!(iss_image_target("iss://localhost/../20210901/123456-1"), None);
}

#[test]
fn screenshot_names_are_utc() {
    // 2021-09-01 12:34:56 UTC
    let ts = 1630499696;
    assert_eq!(screenshot_name(ts, 3), Some("20210901/123456-3".to_string()));
    assert_eq!(
        screenshot_file_names(ts, 3),
        Some(("20210901".to_string(), "123456-3.jpg".to_string(), "123456-3-t.jpg".to_string()))
    );
    assert_eq!(screenshot_name(ts, -12), Some("20210901/123456--12".to_string()));
    assert_eq!(screenshot_name(i64::MAX, 1), None);
    let logs = vec![ScreenshotLog { id: 1, event_id: 2, timestamp: ts, date: "20210901".to_string(), monitor_id: 0 }];
    assert_eq!(screenshot_names(&logs), Some(vec!["20210901/123456-0".to_string()]));
}

#[test]
fn blank_screens_have_few_bright_samples() {
    let black = vec![0u8; 4 * 120 * 500];
    assert!(is_blank(&black));
    let mut bright = black.clone();
    for s in 0..401 {
        bright[4 * 120 * s] = 255;
    }
    assert!(!is_blank(&bright));
    let mut nearly = black.clone();
    for s in 0..400 {
        nearly[4 * 120 * s + 2] = 21;
    }
    assert!(is_blank(&nearly));
    // samples only every 120th pixel
    let mut between = black.clone();
    for p in 0..(120 * 500) {
        if p % 120 != 0 {
            between[4 * p] = 255;
        }
    }
    assert!(is_blank(&between));
    assert!(is_blank(&[]));
}

#[test]
fn thumbnails_are_an_eighth() {
    assert_eq!(thumbnail_size(1920, 1080), (240, 135));
    assert_eq!(thumbnail_size(7, 15), (0, 1));
}

#[test]
fn named_screenshots_can_be_asked_for_back() {
    for (ts, monitor) in [(1630499696i64, 3i64), (0, 0), (-62167219200, 12), (253402300799, 65537)] {
        let name = screenshot_name(ts, monitor).unwrap();
        let uri = format!("iss://localhost/{}", name);
        assert!(check_iss_uri(&uri), "{}", uri);
        let (date, file) = iss_image_target(&uri).unwrap();
        assert_eq!(format!("{}/{}", date, file), format!("{}.jpg", name));
    }
}
