//! Fallback plans and the listing dispatcher.

use deskcap::desktop::{DesktopEnvironment, DesktopSession, DisplayServer, WindowListBackend};
use deskcap::window::{WindowCaptureError, WindowInfo};
use deskcap::window_backends::{
    CaptureStep, ListingIo, ToolOutcome, capture_window_plan, list_windows_for_session,
    list_windows_with_backend, listing_plan, screen_capture_plan,
};

fn window(id: u32) -> WindowInfo {
    WindowInfo {
        id,
        pid: 0,
        app_name: "firefox".to_string(),
        title: "web".to_string(),
        x: 100,
        y: 200,
        z: 0,
        width: 800,
        height: 600,
        is_minimized: false,
        is_maximized: false,
        is_focused: false,
    }
}

fn outcome(launched: bool, success: bool, stdout: &str) -> ToolOutcome {
    ToolOutcome {
        launched,
        success,
        stdout: stdout.to_string(),
        detail: "spawn error".to_string(),
    }
}

fn io_with(primary: ToolOutcome) -> ListingIo {
    ListingIo {
        primary,
        kde_fallback: outcome(false, false, ""),
        kde_titles: Vec::new(),
        generic: None,
    }
}

fn step_program(step: &CaptureStep) -> String {
    match step {
        CaptureStep::RunToFile(c) => c.program.clone(),
        CaptureStep::RunFullScreenThenCrop(c, _) => c.program.clone(),
        CaptureStep::Generic => "<generic>".to_string(),
    }
}

#[test]
fn test_listing_plan_orders() {
    let p = listing_plan(WindowListBackend::Hyprland);
    assert_eq!(p.len(), 1);
    assert_eq!(p[0].program, "hyprctl");
    assert_eq!(p[0].args, vec!["clients".to_string(), "-j".to_string()]);

    let p = listing_plan(WindowListBackend::Sway);
    assert_eq!(p[0].program, "swaymsg");

    let p = listing_plan(WindowListBackend::GnomeWayland);
    assert_eq!(p[0].program, "gdbus");
    assert_eq!(p[0].args[3], "org.gnome.Shell.Introspect");

    let p = listing_plan(WindowListBackend::KdeWayland);
    assert_eq!(p.len(), 2);
    assert_eq!(p[0].program, "kdotool");
    assert_eq!(p[1].program, "gdbus");

    assert_eq!(listing_plan(WindowListBackend::X11).len(), 0);
    assert_eq!(listing_plan(WindowListBackend::Xcap).len(), 0);
}

#[test]
fn test_capture_plan_minimized_refused() {
    // A minimized window is refused before any tool would run
    let mut w = window(1);
    w.is_minimized = true;
    for backend in [
        WindowListBackend::Hyprland,
        WindowListBackend::Sway,
        WindowListBackend::GnomeWayland,
        WindowListBackend::KdeWayland,
        WindowListBackend::X11,
        WindowListBackend::Xcap,
    ] {
        assert!(matches!(
            capture_window_plan(backend, &w, 1),
            Err(WindowCaptureError::WindowMinimized)
        ));
    }
}

#[test]
fn test_capture_plan_gnome_order() {
    let steps = capture_window_plan(WindowListBackend::GnomeWayland, &window(1), 4242).unwrap();
    let programs: Vec<String> = steps.iter().map(step_program).collect();
    assert_eq!(programs, vec!["gdbus", "grim", "gnome-screenshot", "<generic>"]);
    match &steps[1] {
        CaptureStep::RunToFile(c) => {
            assert_eq!(c.args[0], "-g");
            assert_eq!(c.args[1], "100,200 800x600");
            assert_eq!(c.args[2], "/tmp/screenshot_gnome_4242.png");
        }
        _ => panic!("expected a tool step"),
    }
    match &steps[2] {
        CaptureStep::RunFullScreenThenCrop(_, rect) => {
            assert_eq!((rect.x, rect.y, rect.width, rect.height), (100, 200, 800, 600));
        }
        _ => panic!("expected a crop step"),
    }
}

#[test]
fn test_capture_plan_kde_order() {
    let steps = capture_window_plan(WindowListBackend::KdeWayland, &window(1), 7).unwrap();
    let programs: Vec<String> = steps.iter().map(step_program).collect();
    assert_eq!(programs, vec!["spectacle", "grim", "<generic>"]);
}

#[test]
fn test_capture_plan_ends_generic_everywhere() {
    // Whatever fails before it, the last resort is always the generic path
    for backend in [
        WindowListBackend::Hyprland,
        WindowListBackend::Sway,
        WindowListBackend::GnomeWayland,
        WindowListBackend::KdeWayland,
        WindowListBackend::X11,
        WindowListBackend::Xcap,
    ] {
        let steps = capture_window_plan(backend, &window(1), 1).unwrap();
        assert!(matches!(steps.last().unwrap(), CaptureStep::Generic));
    }
}

#[test]
fn test_geometry_string_negative_origin() {
    let mut w = window(1);
    w.x = -5;
    w.y = -12;
    let steps = capture_window_plan(WindowListBackend::Hyprland, &w, 1).unwrap();
    match &steps[0] {
        CaptureStep::RunToFile(c) => assert_eq!(c.args[1], "-5,-12 800x600"),
        _ => panic!("expected a tool step"),
    }
}

#[test]
fn test_screen_plan_orders() {
    let session = |ds, de| DesktopSession { display_server: ds, desktop_environment: de };
    let progs = |s: &DesktopSession| -> Vec<String> {
        screen_capture_plan(s, 1).iter().map(step_program).collect()
    };
    assert_eq!(
        progs(&session(DisplayServer::X11, DesktopEnvironment::Gnome)),
        vec!["<generic>"]
    );
    assert_eq!(
        progs(&session(DisplayServer::Wayland, DesktopEnvironment::Hyprland)),
        vec!["grim"]
    );
    assert_eq!(
        progs(&session(DisplayServer::Wayland, DesktopEnvironment::Gnome)),
        vec!["gnome-screenshot", "grim"]
    );
    assert_eq!(
        progs(&session(DisplayServer::Wayland, DesktopEnvironment::Kde)),
        vec!["spectacle", "grim"]
    );
    assert_eq!(
        progs(&session(DisplayServer::Wayland, DesktopEnvironment::Other(None))),
        vec!["gnome-screenshot", "spectacle", "grim"]
    );
    assert_eq!(
        progs(&session(DisplayServer::Unknown, DesktopEnvironment::Other(None))),
        vec!["gnome-screenshot", "spectacle", "grim", "<generic>"]
    );
}

#[test]
fn test_dispatch_hyprland_success() {
    let json = r#"[{"address":"0x10","pid":1,"class":"a","title":"b","at":[0,0],"size":[10,10],"hidden":false,"fullscreen":false,"focusHistoryID":0}]"#;
    let io = io_with(outcome(true, true, json));
    let ws = list_windows_with_backend(WindowListBackend::Hyprland, &io).unwrap();
    assert_eq!(ws.len(), 1);
    assert_eq!(ws[0].id, 16);
}

#[test]
fn test_dispatch_hyprland_failures() {
    let io = io_with(outcome(false, false, ""));
    match list_windows_with_backend(WindowListBackend::Hyprland, &io) {
        Err(WindowCaptureError::EnumerationFailed(m)) => {
            assert_eq!(m, "Failed to run hyprctl: spawn error")
        }
        other => panic!("unexpected: {:?}", other),
    }
    let io = io_with(outcome(true, false, ""));
    match list_windows_with_backend(WindowListBackend::Hyprland, &io) {
        Err(WindowCaptureError::EnumerationFailed(m)) => {
            assert_eq!(m, "hyprctl returned non-zero exit code")
        }
        other => panic!("unexpected: {:?}", other),
    }
}

#[test]
fn test_dispatch_gnome_falls_through_to_generic() {
    // The introspection tool failed: the generic enumeration's windows surface
    let mut io = io_with(outcome(false, false, ""));
    io.generic = Some(Ok(vec![window(9)]));
    let ws = list_windows_with_backend(WindowListBackend::GnomeWayland, &io).unwrap();
    assert_eq!(ws.len(), 1);
    assert_eq!(ws[0].id, 9);
    // An empty parse falls through too
    let mut io = io_with(outcome(true, true, "no markers here"));
    io.generic = Some(Ok(vec![window(3)]));
    let ws = list_windows_with_backend(WindowListBackend::GnomeWayland, &io).unwrap();
    assert_eq!(ws[0].id, 3);
}

#[test]
fn test_dispatch_all_failed_surfaces_generic_error() {
    // Every subprocess failed: the surfaced error is the generic backend's,
    // not a raw subprocess error
    let mut io = io_with(outcome(false, false, ""));
    io.generic = Some(Err("screen grab failed".to_string()));
    match list_windows_with_backend(WindowListBackend::GnomeWayland, &io) {
        Err(WindowCaptureError::EnumerationFailed(m)) => {
            assert_eq!(m, "generic enumeration failed: screen grab failed")
        }
        other => panic!("unexpected: {:?}", other),
    }
}

#[test]
fn test_dispatch_kde_uses_titles() {
    let mut io = io_with(outcome(true, true, "11\n22\n"));
    io.kde_titles = vec![Some("first".to_string()), None];
    let ws = list_windows_with_backend(WindowListBackend::KdeWayland, &io).unwrap();
    assert_eq!(ws.len(), 2);
    assert_eq!(ws[0].id, 11);
    assert_eq!(ws[0].title, "first");
    assert_eq!(ws[1].id, 22);
    assert_eq!(ws[1].title, "");
}

#[test]
fn test_list_windows_for_current_session() {
    // Detect a session from an empty snapshot and list through it; without a
    // generic enumeration the fallback reports its absence
    let session = DesktopSession::detect(&deskcap::desktop::EnvSnapshot::default(), false);
    println!("Testing window list for: {}", session.label());
    println!("Using backend: {}", session.window_list_backend().label());
    let io = io_with(outcome(false, false, ""));
    let result = list_windows_for_session(&session, &io);
    match result {
        Ok(windows) => {
            println!("Found {} windows", windows.len());
            for window in &windows {
                println!("  - {} ({})", window.title, window.app_name);
            }
        }
        Err(e) => {
            println!("Error listing windows: {}", e.label());
        }
    }
}
