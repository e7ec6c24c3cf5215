//! Session detection and backend selection.

use deskcap::desktop::{
    DesktopEnvironment, DesktopSession, DisplayServer, EnvSnapshot, WindowListBackend,
    needs_hyprland_probe,
};

fn env_with(f: impl FnOnce(&mut EnvSnapshot)) -> EnvSnapshot {
    let mut e = EnvSnapshot::default();
    f(&mut e);
    e
}

#[test]
fn test_display_server_display() {
    assert_eq!(DisplayServer::Wayland.label(), "Wayland");
    assert_eq!(DisplayServer::X11.label(), "X11");
    assert_eq!(DisplayServer::Unknown.label(), "Unknown");
}

#[test]
fn test_desktop_environment_display() {
    assert_eq!(DesktopEnvironment::Gnome.label(), "GNOME");
    assert_eq!(DesktopEnvironment::Kde.label(), "KDE Plasma");
    assert_eq!(DesktopEnvironment::Hyprland.label(), "Hyprland");
    assert_eq!(DesktopEnvironment::Other(Some("Custom".to_string())).label(), "Custom");
    assert_eq!(DesktopEnvironment::Other(None).label(), "Unknown");
}

#[test]
fn test_desktop_session_detect() {
    // This test will pass regardless of the actual environment
    let session = DesktopSession::detect(&EnvSnapshot::default(), false);
    println!("Detected session: {}", session.label());
    println!("Backend: {}", session.window_list_backend().label());
}

#[test]
fn test_window_list_backend_selection() {
    let session = DesktopSession {
        display_server: DisplayServer::Wayland,
        desktop_environment: DesktopEnvironment::Hyprland,
    };
    assert_eq!(session.window_list_backend(), WindowListBackend::Hyprland);

    let session = DesktopSession {
        display_server: DisplayServer::Wayland,
        desktop_environment: DesktopEnvironment::Gnome,
    };
    assert_eq!(session.window_list_backend(), WindowListBackend::GnomeWayland);

    let session = DesktopSession {
        display_server: DisplayServer::X11,
        desktop_environment: DesktopEnvironment::Gnome,
    };
    assert_eq!(session.window_list_backend(), WindowListBackend::X11);
}

#[test]
fn test_display_server_from_session_type() {
    let e = env_with(|e| e.session_type = Some("wayland".to_string()));
    assert!(DesktopSession::detect(&e, false).is_wayland());
    let e = env_with(|e| e.session_type = Some("X11".to_string()));
    assert!(DesktopSession::detect(&e, false).is_x11());
    let e = env_with(|e| e.session_type = Some("tty".to_string()));
    let s = DesktopSession::detect(&e, false);
    assert_eq!(s.display_server, DisplayServer::Unknown);
}

#[test]
fn test_display_server_fallback_variables() {
    let e = env_with(|e| e.wayland_display = Some("wayland-1".to_string()));
    assert!(DesktopSession::detect(&e, false).is_wayland());
    let e = env_with(|e| e.display = Some(":0".to_string()));
    assert!(DesktopSession::detect(&e, false).is_x11());
    // DISPLAY is also set under XWayland, so WAYLAND_DISPLAY wins
    let e = env_with(|e| {
        e.wayland_display = Some("wayland-1".to_string());
        e.display = Some(":0".to_string());
    });
    assert!(DesktopSession::detect(&e, false).is_wayland());
}

#[test]
fn test_hyprland_signature_takes_priority() {
    // Compositor signature variables win over XDG_CURRENT_DESKTOP contents
    let e = env_with(|e| {
        e.hyprland_signature = Some("sig".to_string());
        e.current_desktop = Some("KDE".to_string());
        e.desktop_session = Some("gnome".to_string());
    });
    let s = DesktopSession::detect(&e, false);
    assert!(s.is_hyprland());
    let s = DesktopSession::detect(&e, true);
    assert!(s.is_hyprland());
}

#[test]
fn test_sway_socket_takes_priority() {
    let e = env_with(|e| {
        e.sway_socket = Some("/run/sway.sock".to_string());
        e.current_desktop = Some("GNOME".to_string());
    });
    assert!(DesktopSession::detect(&e, false).is_sway());
}

#[test]
fn test_current_desktop_tokens() {
    let e = env_with(|e| e.current_desktop = Some("ubuntu:GNOME".to_string()));
    assert!(DesktopSession::detect(&e, false).is_gnome());
    let e = env_with(|e| e.current_desktop = Some("kde-plasma".to_string()));
    assert!(DesktopSession::detect(&e, false).is_kde());
    let e = env_with(|e| e.current_desktop = Some("X-Cinnamon".to_string()));
    assert_eq!(
        DesktopSession::detect(&e, false).desktop_environment,
        DesktopEnvironment::Cinnamon
    );
    let e = env_with(|e| e.current_desktop = Some("weird:stuff".to_string()));
    assert_eq!(
        DesktopSession::detect(&e, false).desktop_environment,
        DesktopEnvironment::Other(Some("weird:stuff".to_string()))
    );
}

#[test]
fn test_desktop_session_substrings() {
    let e = env_with(|e| e.desktop_session = Some("ubuntu-xorg-gnome".to_string()));
    assert!(DesktopSession::detect(&e, false).is_gnome());
    let e = env_with(|e| e.desktop_session = Some("plasmawayland".to_string()));
    assert!(DesktopSession::detect(&e, false).is_kde());
    let e = env_with(|e| e.desktop_session = Some("xfce-session".to_string()));
    assert_eq!(
        DesktopSession::detect(&e, false).desktop_environment,
        DesktopEnvironment::Xfce
    );
}

#[test]
fn test_legacy_markers() {
    let e = env_with(|e| e.kde_full_session = Some("true".to_string()));
    assert!(DesktopSession::detect(&e, false).is_kde());
    let e = env_with(|e| e.gnome_session_id = Some("this-is-deprecated".to_string()));
    assert!(DesktopSession::detect(&e, false).is_gnome());
}

#[test]
fn test_probe_is_last_resort() {
    // Nothing identifies the desktop, the server is Wayland: the probe decides
    let e = env_with(|e| e.session_type = Some("wayland".to_string()));
    assert!(needs_hyprland_probe(&e));
    assert!(DesktopSession::detect(&e, true).is_hyprland());
    assert_eq!(
        DesktopSession::detect(&e, false).desktop_environment,
        DesktopEnvironment::Other(None)
    );
    // On X11 the probe is never consulted
    let e = env_with(|e| e.session_type = Some("x11".to_string()));
    assert!(!needs_hyprland_probe(&e));
    assert_eq!(
        DesktopSession::detect(&e, true).desktop_environment,
        DesktopEnvironment::Other(None)
    );
}

#[test]
fn test_end_to_end_hyprland_session() {
    // HYPRLAND_INSTANCE_SIGNATURE set and XDG_SESSION_TYPE=wayland
    let e = env_with(|e| {
        e.hyprland_signature = Some("0123abcd".to_string());
        e.session_type = Some("wayland".to_string());
    });
    let session = DesktopSession::detect(&e, false);
    assert_eq!(session.display_server, DisplayServer::Wayland);
    assert_eq!(session.desktop_environment, DesktopEnvironment::Hyprland);
    assert_eq!(session.window_list_backend(), WindowListBackend::Hyprland);
}

#[test]
fn test_backend_selection_total() {
    // Every (environment, server) combination maps to exactly one backend.
    let environments = vec![
        DesktopEnvironment::Gnome,
        DesktopEnvironment::Kde,
        DesktopEnvironment::Hyprland,
        DesktopEnvironment::Sway,
        DesktopEnvironment::Cinnamon,
        DesktopEnvironment::Xfce,
        DesktopEnvironment::Mate,
        DesktopEnvironment::Other(None),
        DesktopEnvironment::Other(Some("Custom".to_string())),
    ];
    let servers = vec![DisplayServer::Wayland, DisplayServer::X11, DisplayServer::Unknown];
    for de in &environments {
        for ds in &servers {
            let session = DesktopSession {
                display_server: *ds,
                desktop_environment: de.clone(),
            };
            let b = session.window_list_backend();
            let expected = match (de, ds) {
                (DesktopEnvironment::Hyprland, DisplayServer::Wayland) => {
                    WindowListBackend::Hyprland
                }
                (DesktopEnvironment::Sway, DisplayServer::Wayland) => WindowListBackend::Sway,
                (DesktopEnvironment::Gnome, DisplayServer::Wayland) => {
                    WindowListBackend::GnomeWayland
                }
                (DesktopEnvironment::Kde, DisplayServer::Wayland) => {
                    WindowListBackend::KdeWayland
                }
                (_, DisplayServer::X11) => WindowListBackend::X11,
                _ => WindowListBackend::Xcap,
            };
            assert_eq!(b, expected);
        }
    }
}

#[test]
fn test_session_label() {
    let session = DesktopSession {
        display_server: DisplayServer::Wayland,
        desktop_environment: DesktopEnvironment::Gnome,
    };
    assert_eq!(session.label(), "GNOME on Wayland");
}

#[test]
fn test_backend_labels() {
    assert_eq!(WindowListBackend::Hyprland.label(), "Hyprland (hyprctl)");
    assert_eq!(WindowListBackend::Sway.label(), "Sway (swaymsg)");
    assert_eq!(WindowListBackend::GnomeWayland.label(), "GNOME Wayland (D-Bus)");
    assert_eq!(WindowListBackend::KdeWayland.label(), "KDE Wayland (D-Bus)");
    assert_eq!(WindowListBackend::X11.label(), "X11");
    assert_eq!(WindowListBackend::Xcap.label(), "generic (fallback)");
}
