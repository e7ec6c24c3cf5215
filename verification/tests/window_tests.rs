//! Window metadata, filtering, and the generic capture path's matching.

use deskcap::window::{
    WindowCaptureError, WindowInfo, capture_window_by_id, capture_window_by_index,
    list_capturable_windows, select_window_match,
};

fn window(id: u32, app: &str, title: &str) -> WindowInfo {
    WindowInfo {
        id,
        pid: 0,
        app_name: app.to_string(),
        title: title.to_string(),
        x: 0,
        y: 0,
        z: 0,
        width: 800,
        height: 600,
        is_minimized: false,
        is_maximized: false,
        is_focused: false,
    }
}

#[test]
fn test_window_info_display_label() {
    let info = WindowInfo {
        id: 1,
        pid: 0,
        app_name: "firefox".to_string(),
        title: "Mozilla Firefox".to_string(),
        x: 0,
        y: 0,
        z: 0,
        width: 800,
        height: 600,
        is_minimized: false,
        is_maximized: false,
        is_focused: false,
    };

    assert_eq!(info.display_label(), "Mozilla Firefox \u{2014} firefox");
}

#[test]
fn test_window_info_display_label_no_title() {
    let info = WindowInfo {
        id: 1,
        pid: 0,
        app_name: "firefox".to_string(),
        title: "".to_string(),
        x: 0,
        y: 0,
        z: 0,
        width: 800,
        height: 600,
        is_minimized: false,
        is_maximized: false,
        is_focused: false,
    };

    assert_eq!(info.display_label(), "firefox (ID: 1)");
}

#[test]
fn test_icon_name_hint() {
    let info = WindowInfo {
        id: 1,
        pid: 0,
        app_name: "Firefox".to_string(),
        title: "".to_string(),
        x: 0,
        y: 0,
        z: 0,
        width: 800,
        height: 600,
        is_minimized: false,
        is_maximized: false,
        is_focused: false,
    };

    assert_eq!(info.icon_name_hint(), "Firefox");
}

#[test]
fn test_icon_name_hint_empty() {
    let info = WindowInfo {
        id: 1,
        pid: 0,
        app_name: "".to_string(),
        title: "".to_string(),
        x: 0,
        y: 0,
        z: 0,
        width: 800,
        height: 600,
        is_minimized: false,
        is_maximized: false,
        is_focused: false,
    };

    assert_eq!(info.icon_name_hint(), "application-x-executable-symbolic");
}

#[test]
fn test_list_capturable_windows_filters_minimized() {
    let mut hidden = window(2, "editor", "notes");
    hidden.is_minimized = true;
    let all = vec![window(1, "firefox", "web"), hidden, window(3, "term", "shell")];
    let capturable = list_capturable_windows(&all);
    assert_eq!(capturable.len(), 2);
    assert_eq!(capturable[0].id, 1);
    assert_eq!(capturable[1].id, 3);
}

#[test]
fn test_select_window_match_by_id() {
    let ws = vec![window(1, "a", "t1"), window(2, "b", "t2")];
    let target = window(2, "other", "other");
    assert_eq!(select_window_match(&ws, &target), Ok(1));
}

#[test]
fn test_select_window_match_by_title_and_app() {
    let ws = vec![window(1, "a", "t1"), window(2, "b", "t2")];
    let mut target = window(99, "b", "t2");
    target.x = 1000;
    assert_eq!(select_window_match(&ws, &target), Ok(1));
}

#[test]
fn test_select_window_match_by_geometry() {
    let mut w1 = window(1, "a", "t1");
    w1.x = 10;
    let mut w2 = window(2, "b", "t2");
    w2.x = 50;
    let ws = vec![w1, w2];
    let mut target = window(99, "zz", "zz");
    target.x = 50;
    assert_eq!(select_window_match(&ws, &target), Ok(1));
}

#[test]
fn test_select_window_match_not_found() {
    let ws = vec![window(1, "a", "t1")];
    let mut target = window(99, "zz", "zz");
    target.x = 12345;
    assert_eq!(select_window_match(&ws, &target), Err(WindowCaptureError::WindowNotFound));
}

#[test]
fn test_select_window_match_minimized() {
    // The matched window is minimized: refuse, do not capture garbage
    let mut hidden = window(7, "a", "t");
    hidden.is_minimized = true;
    let ws = vec![hidden];
    let target = window(7, "a", "t");
    assert_eq!(select_window_match(&ws, &target), Err(WindowCaptureError::WindowMinimized));
}

#[test]
fn test_capture_window_by_id_cases() {
    let mut hidden = window(5, "x", "y");
    hidden.is_minimized = true;
    let ws = vec![window(1, "a", "t"), hidden];
    assert_eq!(capture_window_by_id(&ws, 1), Ok(0));
    assert_eq!(capture_window_by_id(&ws, 5), Err(WindowCaptureError::WindowMinimized));
    assert_eq!(capture_window_by_id(&ws, 9), Err(WindowCaptureError::WindowNotFound));
}

#[test]
fn test_capture_window_by_index_skips_minimized() {
    let mut hidden = window(2, "x", "y");
    hidden.is_minimized = true;
    let ws = vec![window(1, "a", "t"), hidden, window(3, "b", "u")];
    // index 1 of the capturable listing is the third window overall
    assert_eq!(capture_window_by_index(&ws, 0), Ok(0));
    assert_eq!(capture_window_by_index(&ws, 1), Ok(2));
    assert_eq!(capture_window_by_index(&ws, 2), Err(WindowCaptureError::WindowNotFound));
}

#[test]
fn test_error_labels() {
    assert_eq!(
        WindowCaptureError::EnumerationFailed("boom".to_string()).label(),
        "Failed to enumerate windows: boom"
    );
    assert_eq!(WindowCaptureError::WindowNotFound.label(), "Window not found");
    assert_eq!(
        WindowCaptureError::CaptureFailed("no tool".to_string()).label(),
        "Failed to capture window: no tool"
    );
    assert_eq!(
        WindowCaptureError::ConversionFailed("bad png".to_string()).label(),
        "Failed to convert image: bad png"
    );
    assert_eq!(
        WindowCaptureError::WindowMinimized.label(),
        "Cannot capture minimized window"
    );
    assert_eq!(
        WindowCaptureError::InfoFailed("no metadata".to_string()).label(),
        "Failed to retrieve window info: no metadata"
    );
}
