use report_manager::schema::is_duplicate_column_error;
use report_manager::window::{
    centred_position, position_is_visible, report_window_label, restored_position, tray_menu_action,
    tray_pointer_shows_window, window_event_reaction, MonitorArea, TrayMenuAction, TrayPointerEvent,
    WindowConfigStore, WindowEventKind, WindowReaction,
};
use std::path::Path;

fn screens() -> Vec<MonitorArea> {
    vec![
        MonitorArea { x: 0, y: 0, width: 1920, height: 1080 },
        MonitorArea { x: 1920, y: 0, width: 1280, height: 1024 },
    ]
}

#[test]
fn config_files_live_in_the_data_directory() {
    let store = WindowConfigStore::new(Path::new("/data"));
    assert_eq!(store.path, Path::new("/data").join("config.json"));
    assert_eq!(store.legacy_path, Path::new("/data").join("window-size.json"));
}

#[test]
fn visibility_of_saved_positions() {
    assert!(position_is_visible(&screens(), 100, 100));
    assert!(position_is_visible(&screens(), 1920, 1023));
    assert!(!position_is_visible(&screens(), 1920, 1024));
    assert!(!position_is_visible(&screens(), -1, 5));
    assert!(!position_is_visible(&Vec::new(), 0, 0));
    let edge = vec![MonitorArea { x: i32::MAX - 5, y: 0, width: 100, height: 100 }];
    assert!(position_is_visible(&edge, i32::MAX - 1, 0));
}

#[test]
fn centring_and_restoring() {
    assert_eq!(centred_position(Some(screens()[0]), 1180, 760), (370, 160));
    assert_eq!(centred_position(Some(screens()[0]), 4000, 760), (0, 160));
    assert_eq!(centred_position(None, 1180, 760), (0, 0));
    assert_eq!(restored_position(Some(10), Some(20), &screens(), (370, 160)), (10, 20));
    assert_eq!(restored_position(Some(-500), Some(20), &screens(), (370, 160)), (370, 160));
    assert_eq!(restored_position(Some(10), None, &screens(), (370, 160)), (370, 160));
}

#[test]
fn report_windows_and_tray() {
    assert_eq!(report_window_label("weekly"), "report-window-weekly");
    assert_eq!(tray_menu_action("show-main-window"), TrayMenuAction::ShowMainWindow);
    assert_eq!(tray_menu_action("quit-application"), TrayMenuAction::SaveGeometryAndQuit);
    assert_eq!(tray_menu_action("other"), TrayMenuAction::Ignore);
    assert!(tray_pointer_shows_window(TrayPointerEvent::Click { left_button: true, released: true }));
    assert!(!tray_pointer_shows_window(TrayPointerEvent::Click { left_button: true, released: false }));
    assert!(tray_pointer_shows_window(TrayPointerEvent::DoubleClick { left_button: true }));
    assert!(!tray_pointer_shows_window(TrayPointerEvent::DoubleClick { left_button: false }));
    assert!(!tray_pointer_shows_window(TrayPointerEvent::Other));
}

#[test]
fn window_events() {
    assert_eq!(window_event_reaction(WindowEventKind::Resized, "main", false, true), WindowReaction::SaveGeometry);
    assert_eq!(window_event_reaction(WindowEventKind::Resized, "main", true, true), WindowReaction::Nothing);
    assert_eq!(window_event_reaction(WindowEventKind::Resized, "report-window-daily", false, true), WindowReaction::Nothing);
    assert_eq!(window_event_reaction(WindowEventKind::CloseRequested, "report-window-daily", false, true), WindowReaction::Nothing);
    assert_eq!(window_event_reaction(WindowEventKind::CloseRequested, "main", true, true), WindowReaction::SaveGeometryAndHide);
    assert_eq!(window_event_reaction(WindowEventKind::CloseRequested, "main", false, false), WindowReaction::SaveGeometryAndExit);
    assert_eq!(window_event_reaction(WindowEventKind::Other, "main", false, false), WindowReaction::Nothing);
}

#[test]
fn duplicate_column_failures_are_expected() {
    assert!(is_duplicate_column_error("duplicate column name: menu_id in \"ALTER TABLE records ADD COLUMN menu_id TEXT\""));
    assert!(!is_duplicate_column_error("no such table: records"));
}
