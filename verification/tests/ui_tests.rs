use immic_app::db::DbError;
use immic_app::plugins::Plugin;
use immic_app::screen::ScreenshotPlugin;
use immic_app::screenshot::image_dir_path;
use immic_app::ui::{
    info_window, main_window, show_step_minimized, show_step_visible, tray_action, ShowStep,
    TrayAction, TRAY_INFO, TRAY_QUIT, TRAY_SHOW,
};

#[test]
fn tray_items_map_to_their_actions() {
    assert_eq!(tray_action(TRAY_QUIT.0), TrayAction::Quit);
    assert_eq!(tray_action(TRAY_SHOW.0), TrayAction::ShowMain);
    assert_eq!(tray_action(TRAY_INFO.0), TrayAction::ShowInfo);
    assert_eq!(tray_action("hide"), TrayAction::Nothing);
    assert_eq!(tray_action(""), TrayAction::Nothing);
    assert_eq!(TRAY_QUIT.1, "Quit");
}

#[test]
fn windows_have_their_labels_and_pages() {
    let m = main_window();
    assert_eq!((m.label, m.url), ("main", "index.html"));
    let i = info_window();
    assert_eq!((i.label, i.url), ("info", "info.html"));
}

#[test]
fn showing_a_window_restores_shows_or_focuses_it() {
    assert_eq!(show_step_minimized(true), ShowStep::Unminimize);
    assert_eq!(show_step_minimized(false), ShowStep::AskVisible);
    assert_eq!(show_step_visible(true), ShowStep::Focus);
    assert_eq!(show_step_visible(false), ShowStep::Show);
}

#[test]
fn screenshot_dir_lies_in_the_data_dir() {
    let d = image_dir_path(Some("/data")).unwrap();
    assert!(d.starts_with("/data"));
    assert!(d.ends_with("screenshot"));
    assert_ne!(d, "/data");
    assert!(matches!(image_dir_path(None), Err(DbError::DataDirNotSet)));
}

#[test]
fn screenshot_plugin_starts_and_stops() {
    let mut p = ScreenshotPlugin::new();
    assert!(!p.running);
    p.start();
    assert!(p.running);
    p.stop();
    assert!(!p.running);
}
