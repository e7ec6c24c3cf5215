//! Desktop session detection and capture-backend selection.
//!
//! Detection is a pure function of the process environment. The embedding
//! application reads the relevant variables into an [`EnvSnapshot`] and, only
//! when [`needs_hyprland_probe`] says the snapshot is ambiguous, runs the
//! compositor probe and feeds its outcome in. Everything after that point is
//! verified against the specification functions in this module.

use vstd::prelude::*;
use crate::text::{
    colon_end, contains_ci, contains_ci_scan, eq_ci, eq_ci_range, scan_to_colon, str_chars,
    trim_range, trim_ws,
};

verus! {

use vstd::string::StringExecFns;

/// The display server protocol in use.
#[derive(Debug, Clone, Copy, PartialEq, Eq, Structural)]
pub enum DisplayServer {
    /// Wayland display server
    Wayland,
    /// X11/Xorg display server
    X11,
    /// Unknown or unsupported display server
    Unknown,
}

/// The desktop environment in use.
#[derive(Debug, Clone, PartialEq, Eq)]
pub enum DesktopEnvironment {
    /// GNOME desktop environment
    Gnome,
    /// KDE Plasma desktop environment
    Kde,
    /// Hyprland compositor (Wayland-only)
    Hyprland,
    /// Sway compositor (Wayland-only)
    Sway,
    /// Cinnamon desktop environment
    Cinnamon,
    /// XFCE desktop environment
    Xfce,
    /// MATE desktop environment
    Mate,
    /// Other or unknown desktop environment, with the raw name when one was
    /// reported
    Other(Option<String>),
}

/// Combined desktop session information.
#[derive(Debug, Clone)]
pub struct DesktopSession {
    /// The display server protocol
    pub display_server: DisplayServer,
    /// The desktop environment
    pub desktop_environment: DesktopEnvironment,
}

/// The backend to use for listing windows.
#[derive(Debug, Clone, Copy, PartialEq, Eq, Structural)]
pub enum WindowListBackend {
    /// Use hyprctl for Hyprland
    Hyprland,
    /// Use swaymsg for Sway
    Sway,
    /// Use GNOME Shell D-Bus introspection
    GnomeWayland,
    /// Use KWin D-Bus interface
    KdeWayland,
    /// Use X11 APIs
    X11,
    /// Use the generic in-process capture library (fallback)
    Xcap,
}

/// The environment variables that session detection reads, captured by the
/// embedding application. A `None` field means the variable is unset.
#[derive(Debug, Clone, Default)]
pub struct EnvSnapshot {
    /// `XDG_SESSION_TYPE`
    pub session_type: Option<String>,
    /// `WAYLAND_DISPLAY`
    pub wayland_display: Option<String>,
    /// `DISPLAY`
    pub display: Option<String>,
    /// `HYPRLAND_INSTANCE_SIGNATURE`
    pub hyprland_signature: Option<String>,
    /// `SWAYSOCK`
    pub sway_socket: Option<String>,
    /// `XDG_CURRENT_DESKTOP`
    pub current_desktop: Option<String>,
    /// `DESKTOP_SESSION`
    pub desktop_session: Option<String>,
    /// `KDE_FULL_SESSION`
    pub kde_full_session: Option<String>,
    /// `GNOME_DESKTOP_SESSION_ID`
    pub gnome_session_id: Option<String>,
}

/// Display server classification: the session-type variable wins, then the
/// presence of a Wayland display, then the presence of a generic display
/// (which XWayland also sets, so it is checked last).
pub open spec fn spec_display_server(env: &EnvSnapshot) -> DisplayServer {
    if env.session_type matches Some(st) && eq_ci(st@, "wayland"@) {
        DisplayServer::Wayland
    } else if env.session_type matches Some(st) && eq_ci(st@, "x11"@) {
        DisplayServer::X11
    } else if env.wayland_display is Some {
        DisplayServer::Wayland
    } else if env.display is Some {
        DisplayServer::X11
    } else {
        DisplayServer::Unknown
    }
}

/// The desktop environment a single (already trimmed) desktop-name token
/// names, if any.
pub open spec fn spec_alias(t: Seq<char>) -> Option<DesktopEnvironment> {
    if eq_ci(t, "gnome"@) || eq_ci(t, "unity"@) || eq_ci(t, "ubuntu"@) || eq_ci(t, "pop"@) {
        Some(DesktopEnvironment::Gnome)
    } else if eq_ci(t, "kde"@) || eq_ci(t, "plasma"@) || eq_ci(t, "kde-plasma"@) {
        Some(DesktopEnvironment::Kde)
    } else if eq_ci(t, "hyprland"@) {
        Some(DesktopEnvironment::Hyprland)
    } else if eq_ci(t, "sway"@) {
        Some(DesktopEnvironment::Sway)
    } else if eq_ci(t, "cinnamon"@) || eq_ci(t, "x-cinnamon"@) {
        Some(DesktopEnvironment::Cinnamon)
    } else if eq_ci(t, "xfce"@) || eq_ci(t, "xfce4"@) {
        Some(DesktopEnvironment::Xfce)
    } else if eq_ci(t, "mate"@) {
        Some(DesktopEnvironment::Mate)
    } else {
        None
    }
}

/// Scans the colon-separated desktop-name tokens starting at `i`: the first
/// token whose trimmed form names a known environment decides.
pub open spec fn spec_scan_desktop_tokens(s: Seq<char>, i: int) -> Option<DesktopEnvironment>
    recommends
        0 <= i <= s.len(),
    decreases s.len() - i,
        when 0 <= i <= s.len()
        via spec_scan_desktop_tokens_dec
{
    let e = colon_end(s, i);
    let m = spec_alias(trim_ws(s.subrange(i, e)));
    if m is Some {
        m
    } else if e < s.len() {
        spec_scan_desktop_tokens(s, e + 1)
    } else {
        None
    }
}

#[via_fn]
proof fn spec_scan_desktop_tokens_dec(s: Seq<char>, i: int) {
    crate::text::lemma_colon_end_bounds(s, i);
}

/// The markers consulted when every richer source of desktop information has
/// run out: KDE and legacy GNOME session variables, then, on Wayland only,
/// the live compositor probe.
pub open spec fn spec_desktop_markers(
    env: &EnvSnapshot,
    server: DisplayServer,
    probe: bool,
) -> DesktopEnvironment {
    if env.kde_full_session is Some {
        DesktopEnvironment::Kde
    } else if env.gnome_session_id is Some {
        DesktopEnvironment::Gnome
    } else if server is Wayland && probe {
        DesktopEnvironment::Hyprland
    } else {
        DesktopEnvironment::Other(None)
    }
}

/// Substring matching on the legacy desktop-session variable, then the
/// markers.
pub open spec fn spec_desktop_fallback(
    env: &EnvSnapshot,
    server: DisplayServer,
    probe: bool,
) -> DesktopEnvironment {
    match env.desktop_session {
        Some(ds) => {
            if contains_ci(ds@, "gnome"@) {
                DesktopEnvironment::Gnome
            } else if contains_ci(ds@, "plasma"@) || contains_ci(ds@, "kde"@) {
                DesktopEnvironment::Kde
            } else if contains_ci(ds@, "cinnamon"@) {
                DesktopEnvironment::Cinnamon
            } else if contains_ci(ds@, "xfce"@) {
                DesktopEnvironment::Xfce
            } else if contains_ci(ds@, "mate"@) {
                DesktopEnvironment::Mate
            } else {
                spec_desktop_markers(env, server, probe)
            }
        },
        None => spec_desktop_markers(env, server, probe),
    }
}

/// Desktop environment classification, in priority order: compositor
/// signature variables first, then the current-desktop token list, then the
/// raw current-desktop value, then the legacy fallbacks.
pub open spec fn spec_desktop_environment(
    env: &EnvSnapshot,
    server: DisplayServer,
    probe: bool,
) -> DesktopEnvironment {
    if env.hyprland_signature is Some {
        DesktopEnvironment::Hyprland
    } else if env.sway_socket is Some {
        DesktopEnvironment::Sway
    } else {
        match env.current_desktop {
            Some(cd) => match spec_scan_desktop_tokens(cd@, 0) {
                Some(e) => e,
                None => {
                    if cd@.len() > 0 {
                        DesktopEnvironment::Other(Some(cd))
                    } else {
                        spec_desktop_fallback(env, server, probe)
                    }
                },
            },
            None => spec_desktop_fallback(env, server, probe),
        }
    }
}

/// The detection would fall through to the live compositor probe: every
/// environment variable came up empty and the display server is Wayland.
pub open spec fn spec_probe_reached(env: &EnvSnapshot, server: DisplayServer) -> bool {
    server is Wayland && spec_desktop_environment(env, server, false) matches DesktopEnvironment::Other(None)
}

/// The session the snapshot (plus probe outcome) describes.
pub open spec fn spec_detect(env: &EnvSnapshot, probe: bool) -> DesktopSession {
    DesktopSession {
        display_server: spec_display_server(env),
        desktop_environment: spec_desktop_environment(env, spec_display_server(env), probe),
    }
}

/// Classifies the display server from the snapshot.
pub fn detect_display_server(env: &EnvSnapshot) -> (r: DisplayServer)
    ensures
        r == spec_display_server(env),
{
    match &env.session_type {
        Some(st) => {
            let cs = str_chars(st.as_str());
            let wl = str_chars("wayland");
            let x11 = str_chars("x11");
            proof {
                assert(cs@.subrange(0, cs@.len() as int) =~= cs@);
            }
            if eq_ci_range(&cs, 0, cs.len(), &wl) {
                return DisplayServer::Wayland;
            }
            if eq_ci_range(&cs, 0, cs.len(), &x11) {
                return DisplayServer::X11;
            }
        },
        None => {},
    }
    if env.wayland_display.is_some() {
        return DisplayServer::Wayland;
    }
    if env.display.is_some() {
        return DisplayServer::X11;
    }
    DisplayServer::Unknown
}

/// Checks the trimmed token `cs[a..b]` against the alias table.
fn match_alias(cs: &[char], a: usize, b: usize) -> (r: Option<DesktopEnvironment>)
    requires
        a <= b <= cs.len(),
    ensures
        r == spec_alias(cs@.subrange(a as int, b as int)),
{
    let gnome = str_chars("gnome");
    let unity = str_chars("unity");
    let ubuntu = str_chars("ubuntu");
    let pop = str_chars("pop");
    let kde = str_chars("kde");
    let plasma = str_chars("plasma");
    let kde_plasma = str_chars("kde-plasma");
    let hyprland = str_chars("hyprland");
    let sway = str_chars("sway");
    let cinnamon = str_chars("cinnamon");
    let x_cinnamon = str_chars("x-cinnamon");
    let xfce = str_chars("xfce");
    let xfce4 = str_chars("xfce4");
    let mate = str_chars("mate");
    if eq_ci_range(cs, a, b, &gnome) || eq_ci_range(cs, a, b, &unity) || eq_ci_range(
        cs,
        a,
        b,
        &ubuntu,
    ) || eq_ci_range(cs, a, b, &pop) {
        Some(DesktopEnvironment::Gnome)
    } else if eq_ci_range(cs, a, b, &kde) || eq_ci_range(cs, a, b, &plasma) || eq_ci_range(
        cs,
        a,
        b,
        &kde_plasma,
    ) {
        Some(DesktopEnvironment::Kde)
    } else if eq_ci_range(cs, a, b, &hyprland) {
        Some(DesktopEnvironment::Hyprland)
    } else if eq_ci_range(cs, a, b, &sway) {
        Some(DesktopEnvironment::Sway)
    } else if eq_ci_range(cs, a, b, &cinnamon) || eq_ci_range(cs, a, b, &x_cinnamon) {
        Some(DesktopEnvironment::Cinnamon)
    } else if eq_ci_range(cs, a, b, &xfce) || eq_ci_range(cs, a, b, &xfce4) {
        Some(DesktopEnvironment::Xfce)
    } else if eq_ci_range(cs, a, b, &mate) {
        Some(DesktopEnvironment::Mate)
    } else {
        None
    }
}

/// Scans the colon-separated token list, mirroring
/// `spec_scan_desktop_tokens`.
fn scan_desktop_tokens(cs: &[char]) -> (r: Option<DesktopEnvironment>)
    ensures
        r == spec_scan_desktop_tokens(cs@, 0),
{
    let mut i: usize = 0;
    loop
        invariant
            0 <= i <= cs.len(),
            spec_scan_desktop_tokens(cs@, 0) == spec_scan_desktop_tokens(cs@, i as int),
        decreases cs.len() - i,
    {
        let e = scan_to_colon(cs, i);
        let (a, b) = trim_range(cs, i, e);
        let m = match_alias(cs, a, b);
        proof {
            assert(trim_ws(cs@.subrange(i as int, e as int)) == cs@.subrange(a as int, b as int));
        }
        if m.is_some() {
            return m;
        }
        if e == cs.len() {
            return None;
        }
        i = e + 1;
    }
}

/// Classifies the desktop environment from the snapshot. `probe` is the
/// outcome of the live compositor probe; it is consulted only on the very
/// last branch, as `spec_desktop_environment` shows.
pub fn detect_desktop_environment(env: &EnvSnapshot, server: DisplayServer, probe: bool) -> (r:
    DesktopEnvironment)
    ensures
        r == spec_desktop_environment(env, server, probe),
{
    if env.hyprland_signature.is_some() {
        return DesktopEnvironment::Hyprland;
    }
    if env.sway_socket.is_some() {
        return DesktopEnvironment::Sway;
    }
    match &env.current_desktop {
        Some(cd) => {
            let cs = str_chars(cd.as_str());
            match scan_desktop_tokens(&cs) {
                Some(e) => e,
                None => {
                    if cs.len() > 0 {
                        DesktopEnvironment::Other(Some(cd.clone()))
                    } else {
                        detect_desktop_fallback(env, server, probe)
                    }
                },
            }
        },
        None => detect_desktop_fallback(env, server, probe),
    }
}

/// The legacy desktop-session fallback, mirroring `spec_desktop_fallback`.
fn detect_desktop_fallback(env: &EnvSnapshot, server: DisplayServer, probe: bool) -> (r:
    DesktopEnvironment)
    ensures
        r == spec_desktop_fallback(env, server, probe),
{
    match &env.desktop_session {
        Some(ds) => {
            let cs = str_chars(ds.as_str());
            let gnome = str_chars("gnome");
            let plasma = str_chars("plasma");
            let kde = str_chars("kde");
            let cinnamon = str_chars("cinnamon");
            let xfce = str_chars("xfce");
            let mate = str_chars("mate");
            if contains_ci_scan(&cs, &gnome) {
                DesktopEnvironment::Gnome
            } else if contains_ci_scan(&cs, &plasma) || contains_ci_scan(&cs, &kde) {
                DesktopEnvironment::Kde
            } else if contains_ci_scan(&cs, &cinnamon) {
                DesktopEnvironment::Cinnamon
            } else if contains_ci_scan(&cs, &xfce) {
                DesktopEnvironment::Xfce
            } else if contains_ci_scan(&cs, &mate) {
                DesktopEnvironment::Mate
            } else {
                detect_desktop_markers(env, server, probe)
            }
        },
        None => detect_desktop_markers(env, server, probe),
    }
}

/// The last-resort markers, mirroring `spec_desktop_markers`.
fn detect_desktop_markers(env: &EnvSnapshot, server: DisplayServer, probe: bool) -> (r:
    DesktopEnvironment)
    ensures
        r == spec_desktop_markers(env, server, probe),
{
    if env.kde_full_session.is_some() {
        return DesktopEnvironment::Kde;
    }
    if env.gnome_session_id.is_some() {
        return DesktopEnvironment::Gnome;
    }
    if matches!(server, DisplayServer::Wayland) && probe {
        return DesktopEnvironment::Hyprland;
    }
    DesktopEnvironment::Other(None)
}

/// Whether detection on this snapshot would fall through to the live
/// compositor probe. The embedding application runs the probe only when this
/// holds; otherwise the probe outcome cannot change the result (see
/// [`lemma_probe_is_last_resort`]).
pub fn needs_hyprland_probe(env: &EnvSnapshot) -> (r: bool)
    ensures
        r == spec_probe_reached(env, spec_display_server(env)),
{
    let server = detect_display_server(env);
    if !matches!(server, DisplayServer::Wayland) {
        return false;
    }
    let de = detect_desktop_environment(env, server, false);
    matches!(de, DesktopEnvironment::Other(None))
}

impl DesktopSession {
    /// Detects the desktop session described by the environment snapshot.
    /// `hyprland_probe` is the outcome of running the compositor probe; it
    /// matters only when [`needs_hyprland_probe`] holds of the snapshot.
    pub fn detect(env: &EnvSnapshot, hyprland_probe: bool) -> (s: Self)
        ensures
            s == spec_detect(env, hyprland_probe),
    {
        let display_server = detect_display_server(env);
        let desktop_environment = detect_desktop_environment(env, display_server, hyprland_probe);
        Self { display_server, desktop_environment }
    }

    /// Returns true if running on Wayland.
    pub fn is_wayland(&self) -> (r: bool)
        ensures
            r == (self.display_server is Wayland),
    {
        matches!(self.display_server, DisplayServer::Wayland)
    }

    /// Returns true if running on X11.
    pub fn is_x11(&self) -> (r: bool)
        ensures
            r == (self.display_server is X11),
    {
        matches!(self.display_server, DisplayServer::X11)
    }

    /// Returns true if running on GNOME.
    pub fn is_gnome(&self) -> (r: bool)
        ensures
            r == (self.desktop_environment is Gnome),
    {
        matches!(self.desktop_environment, DesktopEnvironment::Gnome)
    }

    /// Returns true if running on KDE Plasma.
    pub fn is_kde(&self) -> (r: bool)
        ensures
            r == (self.desktop_environment is Kde),
    {
        matches!(self.desktop_environment, DesktopEnvironment::Kde)
    }

    /// Returns true if running on Hyprland.
    pub fn is_hyprland(&self) -> (r: bool)
        ensures
            r == (self.desktop_environment is Hyprland),
    {
        matches!(self.desktop_environment, DesktopEnvironment::Hyprland)
    }

    /// Returns true if running on Sway.
    pub fn is_sway(&self) -> (r: bool)
        ensures
            r == (self.desktop_environment is Sway),
    {
        matches!(self.desktop_environment, DesktopEnvironment::Sway)
    }

    /// Returns the recommended window listing backend for this session.
    pub fn window_list_backend(&self) -> (b: WindowListBackend)
        ensures
            b == spec_window_list_backend(self),
    {
        match (&self.desktop_environment, &self.display_server) {
            (DesktopEnvironment::Hyprland, DisplayServer::Wayland) => WindowListBackend::Hyprland,
            (DesktopEnvironment::Sway, DisplayServer::Wayland) => WindowListBackend::Sway,
            (DesktopEnvironment::Gnome, DisplayServer::Wayland) => WindowListBackend::GnomeWayland,
            (DesktopEnvironment::Kde, DisplayServer::Wayland) => WindowListBackend::KdeWayland,
            (_, DisplayServer::X11) => WindowListBackend::X11,
            _ => WindowListBackend::Xcap,
        }
    }

    /// A human-readable description of the session.
    pub fn label(&self) -> (r: String)
        ensures
            r@ == spec_environment_label(&self.desktop_environment) + " on "@
                + spec_display_server_label(self.display_server),
    {
        let mut s = self.desktop_environment.label();
        let ghost first = s@;
        s.append(" on ");
        let ghost mid = s@;
        s.append(self.display_server.label());
        proof {
            assert(first + " on "@ + spec_display_server_label(self.display_server) =~= mid
                + spec_display_server_label(self.display_server));
        }
        s
    }
}

/// The backend each session maps to. First match wins: the four dedicated
/// Wayland pairings, then the general X11 path, then the generic fallback.
pub open spec fn spec_window_list_backend(s: &DesktopSession) -> WindowListBackend {
    if s.desktop_environment is Hyprland && s.display_server is Wayland {
        WindowListBackend::Hyprland
    } else if s.desktop_environment is Sway && s.display_server is Wayland {
        WindowListBackend::Sway
    } else if s.desktop_environment is Gnome && s.display_server is Wayland {
        WindowListBackend::GnomeWayland
    } else if s.desktop_environment is Kde && s.display_server is Wayland {
        WindowListBackend::KdeWayland
    } else if s.display_server is X11 {
        WindowListBackend::X11
    } else {
        WindowListBackend::Xcap
    }
}

pub open spec fn spec_display_server_label(s: DisplayServer) -> Seq<char> {
    match s {
        DisplayServer::Wayland => "Wayland"@,
        DisplayServer::X11 => "X11"@,
        DisplayServer::Unknown => "Unknown"@,
    }
}

impl DisplayServer {
    /// The display name of the protocol.
    pub fn label(&self) -> (r: &'static str)
        ensures
            r@ == spec_display_server_label(*self),
    {
        match self {
            DisplayServer::Wayland => "Wayland",
            DisplayServer::X11 => "X11",
            DisplayServer::Unknown => "Unknown",
        }
    }
}

pub open spec fn spec_environment_label(e: &DesktopEnvironment) -> Seq<char> {
    match e {
        DesktopEnvironment::Gnome => "GNOME"@,
        DesktopEnvironment::Kde => "KDE Plasma"@,
        DesktopEnvironment::Hyprland => "Hyprland"@,
        DesktopEnvironment::Sway => "Sway"@,
        DesktopEnvironment::Cinnamon => "Cinnamon"@,
        DesktopEnvironment::Xfce => "XFCE"@,
        DesktopEnvironment::Mate => "MATE"@,
        DesktopEnvironment::Other(Some(name)) => name@,
        DesktopEnvironment::Other(None) => "Unknown"@,
    }
}

impl DesktopEnvironment {
    /// The display name of the environment.
    pub fn label(&self) -> (r: String)
        ensures
            r@ == spec_environment_label(self),
    {
        match self {
            DesktopEnvironment::Gnome => String::from_str("GNOME"),
            DesktopEnvironment::Kde => String::from_str("KDE Plasma"),
            DesktopEnvironment::Hyprland => String::from_str("Hyprland"),
            DesktopEnvironment::Sway => String::from_str("Sway"),
            DesktopEnvironment::Cinnamon => String::from_str("Cinnamon"),
            DesktopEnvironment::Xfce => String::from_str("XFCE"),
            DesktopEnvironment::Mate => String::from_str("MATE"),
            DesktopEnvironment::Other(Some(name)) => name.clone(),
            DesktopEnvironment::Other(None) => String::from_str("Unknown"),
        }
    }
}

pub open spec fn spec_backend_label(b: WindowListBackend) -> Seq<char> {
    match b {
        WindowListBackend::Hyprland => "Hyprland (hyprctl)"@,
        WindowListBackend::Sway => "Sway (swaymsg)"@,
        WindowListBackend::GnomeWayland => "GNOME Wayland (D-Bus)"@,
        WindowListBackend::KdeWayland => "KDE Wayland (D-Bus)"@,
        WindowListBackend::X11 => "X11"@,
        WindowListBackend::Xcap => "generic (fallback)"@,
    }
}

impl WindowListBackend {
    /// The display name of the backend.
    pub fn label(&self) -> (r: &'static str)
        ensures
            r@ == spec_backend_label(*self),
    {
        match self {
            WindowListBackend::Hyprland => "Hyprland (hyprctl)",
            WindowListBackend::Sway => "Sway (swaymsg)",
            WindowListBackend::GnomeWayland => "GNOME Wayland (D-Bus)",
            WindowListBackend::KdeWayland => "KDE Wayland (D-Bus)",
            WindowListBackend::X11 => "X11",
            WindowListBackend::Xcap => "generic (fallback)",
        }
    }
}

/// The compositor signature variables take precedence over every other
/// source: a Hyprland instance signature forces Hyprland, and a Sway socket
/// forces Sway, whatever the other variables and the probe say.
pub proof fn lemma_signature_priority(env: &EnvSnapshot, probe: bool)
    ensures
        env.hyprland_signature is Some ==> spec_detect(env, probe).desktop_environment
            is Hyprland,
        env.hyprland_signature is None && env.sway_socket is Some ==> spec_detect(
            env,
            probe,
        ).desktop_environment is Sway,
{
}

/// The live compositor probe is truly a last resort: unless detection with a
/// failed probe ends at `Other(None)` on Wayland, the probe outcome cannot
/// change the detected session.
pub proof fn lemma_probe_is_last_resort(env: &EnvSnapshot)
    ensures
        !spec_probe_reached(env, spec_display_server(env)) ==> spec_detect(env, true)
            == spec_detect(env, false),
{
    let server = spec_display_server(env);
    if !spec_probe_reached(env, server) {
        assert(spec_desktop_environment(env, server, true) == spec_desktop_environment(
            env,
            server,
            false,
        ));
    }
}

/// Backend selection is total and deterministic: every session maps to
/// exactly one backend, following the documented priority order, with X11
/// sessions degrading to the general X11 path and everything unrecognized to
/// the generic fallback.
pub proof fn lemma_backend_selection_total(s: DesktopSession)
    ensures
        s.desktop_environment is Hyprland && s.display_server is Wayland ==> spec_window_list_backend(&s) is Hyprland,
        s.desktop_environment is Sway && s.display_server is Wayland ==> spec_window_list_backend(&s) is Sway,
        s.desktop_environment is Gnome && s.display_server is Wayland ==> spec_window_list_backend(&s) is GnomeWayland,
        s.desktop_environment is Kde && s.display_server is Wayland ==> spec_window_list_backend(&s) is KdeWayland,
        s.display_server is X11 ==> spec_window_list_backend(&s) is X11,
        s.display_server is Unknown ==> spec_window_list_backend(&s) is Xcap,
        !(s.display_server is Wayland) || !(s.desktop_environment is Hyprland
            || s.desktop_environment is Sway || s.desktop_environment is Gnome
            || s.desktop_environment is Kde) ==> !(s.display_server is X11)
            ==> spec_window_list_backend(&s) is Xcap,
{
}

} // verus!
