//! Monitor selection logic.

use deskcap::screen::{
    MonitorInfo, find_monitor_by_id, find_monitor_by_name, monitor_at_point, pick_primary_monitor,
};

fn monitor(id: u32, name: &str, x: i32, primary: bool) -> MonitorInfo {
    MonitorInfo {
        id,
        name: name.to_string(),
        x,
        y: 0,
        width: 1920,
        height: 1080,
        is_primary: primary,
        is_builtin: false,
    }
}

#[test]
fn test_pick_primary_monitor() {
    let ms = vec![monitor(1, "DP-1", 0, false), monitor(2, "DP-2", 1920, true)];
    assert_eq!(pick_primary_monitor(&ms), Some(1));
    // no monitor marked primary: the first one stands in
    let ms = vec![monitor(1, "DP-1", 0, false), monitor(2, "DP-2", 1920, false)];
    assert_eq!(pick_primary_monitor(&ms), Some(0));
    assert_eq!(pick_primary_monitor(&Vec::new()), None);
}

#[test]
fn test_monitor_at_point() {
    let ms = vec![monitor(1, "DP-1", 0, true), monitor(2, "DP-2", 1920, false)];
    assert_eq!(monitor_at_point(&ms, 100, 100), Some(0));
    assert_eq!(monitor_at_point(&ms, 2000, 100), Some(1));
    assert_eq!(monitor_at_point(&ms, -1, 0), None);
    assert_eq!(monitor_at_point(&ms, 4000, 0), None);
}

#[test]
fn test_find_monitor() {
    let ms = vec![monitor(7, "eDP-1", 0, true), monitor(9, "HDMI-1", 1920, false)];
    assert_eq!(find_monitor_by_id(&ms, 9), Some(1));
    assert_eq!(find_monitor_by_id(&ms, 8), None);
    assert_eq!(find_monitor_by_name(&ms, "eDP-1"), Some(0));
    assert_eq!(find_monitor_by_name(&ms, "DP-3"), None);
}

#[test]
fn test_monitor_placeholder() {
    let m = MonitorInfo::placeholder(1280, 720);
    assert_eq!(m.name, "unknown");
    assert_eq!((m.width, m.height), (1280, 720));
    assert!(!m.is_primary);
}
