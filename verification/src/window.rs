//! Window metadata and the decisions made over it: labels for pickers,
//! filtering of minimized windows, and the match-and-check logic the generic
//! capture path runs over a fresh enumeration.

use vstd::prelude::*;
use crate::pixels::RgbaBuffer;
use crate::text::{dec_rep, push_u32_dec};

verus! {

use vstd::string::StringExecFns;

/// Information about a capturable window.
#[derive(Debug, PartialEq, Eq)]
pub struct WindowInfo {
    /// Window ID (backend-specific encoding)
    pub id: u32,
    /// Owning process ID
    pub pid: u32,
    /// Application name
    pub app_name: String,
    /// Window title
    pub title: String,
    /// Window X position
    pub x: i32,
    /// Window Y position
    pub y: i32,
    /// Stacking index (best effort, 0 if unavailable)
    pub z: i32,
    /// Window width
    pub width: u32,
    /// Window height
    pub height: u32,
    /// Whether the window is minimized
    pub is_minimized: bool,
    /// Whether the window is maximized
    pub is_maximized: bool,
    /// Whether the window is focused
    pub is_focused: bool,
}

/// The label a window picker shows: the title with the application name, or
/// the application name with the id when the title is empty.
pub open spec fn spec_display_label(w: &WindowInfo) -> Seq<char> {
    if w.title@.len() == 0 {
        w.app_name@ + " (ID: "@ + dec_rep(w.id as int) + ")"@
    } else {
        w.title@ + " \u{2014} "@ + w.app_name@
    }
}

/// The icon hint: the application name, or a generic icon name when it is
/// empty.
pub open spec fn spec_icon_name_hint(w: &WindowInfo) -> Seq<char> {
    if w.app_name@.len() == 0 {
        "application-x-executable-symbolic"@
    } else {
        w.app_name@
    }
}

/// The mathematical view of a window record: the string fields as character
/// sequences.
#[verifier::ext_equal]
pub ghost struct WindowFields {
    pub id: u32,
    pub pid: u32,
    pub app_name: Seq<char>,
    pub title: Seq<char>,
    pub x: i32,
    pub y: i32,
    pub z: i32,
    pub width: u32,
    pub height: u32,
    pub is_minimized: bool,
    pub is_maximized: bool,
    pub is_focused: bool,
}

impl View for WindowInfo {
    type V = WindowFields;

    open spec fn view(&self) -> WindowFields {
        WindowFields {
            id: self.id,
            pid: self.pid,
            app_name: self.app_name@,
            title: self.title@,
            x: self.x,
            y: self.y,
            z: self.z,
            width: self.width,
            height: self.height,
            is_minimized: self.is_minimized,
            is_maximized: self.is_maximized,
            is_focused: self.is_focused,
        }
    }
}

/// The views of a window list, in order.
pub open spec fn views_of(ws: Seq<WindowInfo>) -> Seq<WindowFields> {
    ws.map_values(|w: WindowInfo| w@)
}

pub proof fn lemma_views_push(ws: Seq<WindowInfo>, w: WindowInfo)
    ensures
        views_of(ws.push(w)) == views_of(ws).push(w@),
{
    assert(views_of(ws.push(w)) =~= views_of(ws).push(w@));
}

impl Clone for WindowInfo {
    /// A clone carries every field over unchanged.
    fn clone(&self) -> (r: Self)
        ensures
            r == *self,
    {
        WindowInfo {
            id: self.id,
            pid: self.pid,
            app_name: self.app_name.clone(),
            title: self.title.clone(),
            x: self.x,
            y: self.y,
            z: self.z,
            width: self.width,
            height: self.height,
            is_minimized: self.is_minimized,
            is_maximized: self.is_maximized,
            is_focused: self.is_focused,
        }
    }
}

impl WindowInfo {
    /// Get a display label for this window.
    pub fn display_label(&self) -> (r: String)
        ensures
            r@ == spec_display_label(self),
    {
        if self.title.as_str().is_empty() {
            let mut s = self.app_name.clone();
            let ghost s0 = s@;
            s.append(" (ID: ");
            let ghost s1 = s@;
            push_u32_dec(&mut s, self.id);
            let ghost s2 = s@;
            s.append(")");
            proof {
                assert(s2 =~= s0 + " (ID: "@ + dec_rep(self.id as int));
                assert(s@ =~= spec_display_label(self));
            }
            s
        } else {
            let mut s = self.title.clone();
            let ghost s0 = s@;
            s.append(" \u{2014} ");
            s.append(self.app_name.as_str());
            proof {
                assert(s@ =~= spec_display_label(self));
            }
            s
        }
    }

    /// Get an icon name hint based on the application name.
    pub fn icon_name_hint(&self) -> (r: &str)
        ensures
            r@ == spec_icon_name_hint(self),
    {
        if self.app_name.as_str().is_empty() {
            "application-x-executable-symbolic"
        } else {
            self.app_name.as_str()
        }
    }
}

/// Result of a window capture operation.
#[derive(Debug, Clone)]
pub struct WindowCaptureResult {
    /// The captured image
    pub image: RgbaBuffer,
    /// Information about the captured window
    pub window_info: WindowInfo,
}

/// Error type for window capture operations.
#[derive(Debug, Clone, PartialEq, Eq)]
pub enum WindowCaptureError {
    /// Failed to enumerate windows
    EnumerationFailed(String),
    /// Window not found
    WindowNotFound,
    /// Failed to capture window
    CaptureFailed(String),
    /// Failed to convert or decode the captured image
    ConversionFailed(String),
    /// Window is minimized and cannot be captured
    WindowMinimized,
    /// Metadata retrieval for a matched window failed
    InfoFailed(String),
}

pub open spec fn spec_error_label(e: &WindowCaptureError) -> Seq<char> {
    match e {
        WindowCaptureError::EnumerationFailed(msg) => "Failed to enumerate windows: "@ + msg@,
        WindowCaptureError::WindowNotFound => "Window not found"@,
        WindowCaptureError::CaptureFailed(msg) => "Failed to capture window: "@ + msg@,
        WindowCaptureError::ConversionFailed(msg) => "Failed to convert image: "@ + msg@,
        WindowCaptureError::WindowMinimized => "Cannot capture minimized window"@,
        WindowCaptureError::InfoFailed(msg) => "Failed to retrieve window info: "@ + msg@,
    }
}

impl WindowCaptureError {
    /// A human-readable description of the error.
    pub fn label(&self) -> (r: String)
        ensures
            r@ == spec_error_label(self),
    {
        match self {
            WindowCaptureError::EnumerationFailed(msg) => {
                let mut s = String::from_str("Failed to enumerate windows: ");
                s.append(msg.as_str());
                s
            },
            WindowCaptureError::WindowNotFound => String::from_str("Window not found"),
            WindowCaptureError::CaptureFailed(msg) => {
                let mut s = String::from_str("Failed to capture window: ");
                s.append(msg.as_str());
                s
            },
            WindowCaptureError::ConversionFailed(msg) => {
                let mut s = String::from_str("Failed to convert image: ");
                s.append(msg.as_str());
                s
            },
            WindowCaptureError::WindowMinimized => String::from_str(
                "Cannot capture minimized window",
            ),
            WindowCaptureError::InfoFailed(msg) => {
                let mut s = String::from_str("Failed to retrieve window info: ");
                s.append(msg.as_str());
                s
            },
        }
    }
}

/// The sub-list of windows that are not minimized, in order.
pub open spec fn spec_capturable(ws: Seq<WindowInfo>) -> Seq<WindowInfo>
    decreases ws.len(),
{
    if ws.len() == 0 {
        Seq::empty()
    } else {
        spec_capturable(ws.drop_last()) + (if !ws.last().is_minimized {
            seq![ws.last()]
        } else {
            Seq::empty()
        })
    }
}

pub proof fn lemma_capturable_take_step(ws: Seq<WindowInfo>, i: int)
    requires
        0 <= i < ws.len(),
    ensures
        spec_capturable(ws.take(i + 1)) == spec_capturable(ws.take(i)) + (if !ws[i].is_minimized {
            seq![ws[i]]
        } else {
            Seq::empty()
        }),
{
    assert(ws.take(i + 1).drop_last() =~= ws.take(i));
    assert(ws.take(i + 1).last() == ws[i]);
}

/// Keeps the windows a "pick something to capture" view offers: the ones
/// that are not minimized.
pub fn list_capturable_windows(windows: &Vec<WindowInfo>) -> (r: Vec<WindowInfo>)
    ensures
        r@ == spec_capturable(windows@),
{
    let mut r: Vec<WindowInfo> = Vec::new();
    let mut i: usize = 0;
    while i < windows.len()
        invariant
            0 <= i <= windows.len(),
            r@ == spec_capturable(windows@.take(i as int)),
        decreases windows.len() - i,
    {
        proof {
            lemma_capturable_take_step(windows@, i as int);
        }
        if !windows[i].is_minimized {
            r.push(windows[i].clone());
        }
        i = i + 1;
        proof {
            assert(r@ =~= spec_capturable(windows@.take(i as int)));
        }
    }
    proof {
        assert(windows@.take(windows@.len() as int) =~= windows@);
    }
    r
}

pub open spec fn id_match(w: &WindowInfo, t: &WindowInfo) -> bool {
    w.id == t.id
}

pub open spec fn title_app_match(w: &WindowInfo, t: &WindowInfo) -> bool {
    w.title@ == t.title@ && w.app_name@ == t.app_name@
}

pub open spec fn geom_match(w: &WindowInfo, t: &WindowInfo) -> bool {
    w.x == t.x && w.y == t.y && w.width == t.width && w.height == t.height
}

/// The window at index `i` is the one the generic capture path would pick
/// for `t`: the first id match, else (when no id matches) the first match on
/// title and application name, else (when neither matches anywhere) the
/// first match on position and size.
pub open spec fn spec_selects(ws: Seq<WindowInfo>, i: int, t: &WindowInfo) -> bool {
    ||| (0 <= i < ws.len() && id_match(&ws[i], t) && forall|j: int|
        0 <= j < i ==> !id_match(&ws[j], t))
    ||| ((forall|j: int| 0 <= j < ws.len() ==> !id_match(&ws[j], t)) && 0 <= i < ws.len()
        && title_app_match(&ws[i], t) && forall|j: int| 0 <= j < i ==> !title_app_match(&ws[j], t))
    ||| ((forall|j: int| 0 <= j < ws.len() ==> !id_match(&ws[j], t)) && (forall|j: int|
        0 <= j < ws.len() ==> !title_app_match(&ws[j], t)) && 0 <= i < ws.len() && geom_match(
        &ws[i],
        t,
    ) && forall|j: int| 0 <= j < i ==> !geom_match(&ws[j], t))
}

/// No window matches the target under any of the three rules.
pub open spec fn spec_no_match(ws: Seq<WindowInfo>, t: &WindowInfo) -> bool {
    forall|j: int|
        0 <= j < ws.len() ==> !id_match(&ws[j], t) && !title_app_match(&ws[j], t) && !geom_match(
            &ws[j],
            t,
        )
}

/// Picks the window to capture for `target` out of a fresh enumeration,
/// matching by id, then by title and application name, then by geometry, in
/// decreasing specificity; refuses a minimized match rather than capturing
/// garbage.
pub fn select_window_match(windows: &Vec<WindowInfo>, target: &WindowInfo) -> (r: Result<
    usize,
    WindowCaptureError,
>)
    ensures
        match r {
            Ok(i) => i < windows.len() && spec_selects(windows@, i as int, target) && !windows@[
                i as int
            ].is_minimized,
            Err(WindowCaptureError::WindowMinimized) => exists|i: int|
                spec_selects(windows@, i, target) && windows@[i].is_minimized,
            Err(WindowCaptureError::WindowNotFound) => spec_no_match(windows@, target),
            Err(_) => false,
        },
{
    let sel = find_id_match(windows, target);
    let sel = match sel {
        Some(i) => Some(i),
        None => find_title_app_match(windows, target),
    };
    let sel = match sel {
        Some(i) => Some(i),
        None => find_geom_match(windows, target),
    };
    match sel {
        None => Err(WindowCaptureError::WindowNotFound),
        Some(i) => {
            if windows[i].is_minimized {
                proof {
                    assert(spec_selects(windows@, i as int, target) && windows@[
                        i as int
                    ].is_minimized);
                }
                Err(WindowCaptureError::WindowMinimized)
            } else {
                Ok(i)
            }
        },
    }
}

/// First index whose window has the target's id.
fn find_id_match(windows: &Vec<WindowInfo>, target: &WindowInfo) -> (r: Option<usize>)
    ensures
        match r {
            Some(i) => i < windows.len() && id_match(&windows@[i as int], target) && forall|j: int|
                0 <= j < i ==> !id_match(&windows@[j], target),
            None => forall|j: int| 0 <= j < windows@.len() ==> !id_match(&windows@[j], target),
        },
{
    let mut i: usize = 0;
    while i < windows.len()
        invariant
            0 <= i <= windows.len(),
            forall|j: int| 0 <= j < i ==> !id_match(&windows@[j], target),
        decreases windows.len() - i,
    {
        if windows[i].id == target.id {
            return Some(i);
        }
        i = i + 1;
    }
    None
}

/// First index whose window has the target's title and application name.
fn find_title_app_match(windows: &Vec<WindowInfo>, target: &WindowInfo) -> (r: Option<usize>)
    ensures
        match r {
            Some(i) => i < windows.len() && title_app_match(&windows@[i as int], target) && forall|
                j: int,
            | 0 <= j < i ==> !title_app_match(&windows@[j], target),
            None => forall|j: int|
                0 <= j < windows@.len() ==> !title_app_match(&windows@[j], target),
        },
{
    let mut i: usize = 0;
    while i < windows.len()
        invariant
            0 <= i <= windows.len(),
            forall|j: int| 0 <= j < i ==> !title_app_match(&windows@[j], target),
        decreases windows.len() - i,
    {
        if windows[i].title.eq(&target.title) && windows[i].app_name.eq(&target.app_name) {
            return Some(i);
        }
        i = i + 1;
    }
    None
}

/// First index whose window has the target's position and size.
fn find_geom_match(windows: &Vec<WindowInfo>, target: &WindowInfo) -> (r: Option<usize>)
    ensures
        match r {
            Some(i) => i < windows.len() && geom_match(&windows@[i as int], target) && forall|
                j: int,
            | 0 <= j < i ==> !geom_match(&windows@[j], target),
            None => forall|j: int| 0 <= j < windows@.len() ==> !geom_match(&windows@[j], target),
        },
{
    let mut i: usize = 0;
    while i < windows.len()
        invariant
            0 <= i <= windows.len(),
            forall|j: int| 0 <= j < i ==> !geom_match(&windows@[j], target),
        decreases windows.len() - i,
    {
        if windows[i].x == target.x && windows[i].y == target.y && windows[i].width == target.width
            && windows[i].height == target.height {
            return Some(i);
        }
        i = i + 1;
    }
    None
}

/// Finds the window with the given id in a fresh enumeration and refuses a
/// minimized one: the by-id capture path's decision.
pub fn capture_window_by_id(windows: &Vec<WindowInfo>, window_id: u32) -> (r: Result<
    usize,
    WindowCaptureError,
>)
    ensures
        match r {
            Ok(i) => i < windows.len() && windows@[i as int].id == window_id && !windows@[
                i as int
            ].is_minimized && forall|j: int| 0 <= j < i ==> windows@[j].id != window_id,
            Err(WindowCaptureError::WindowNotFound) => forall|j: int|
                0 <= j < windows@.len() ==> windows@[j].id != window_id,
            Err(WindowCaptureError::WindowMinimized) => exists|i: int|
                0 <= i < windows@.len() && windows@[i].id == window_id && windows@[i].is_minimized
                    && forall|j: int| 0 <= j < i ==> windows@[j].id != window_id,
            Err(_) => false,
        },
{
    let mut i: usize = 0;
    while i < windows.len()
        invariant
            0 <= i <= windows.len(),
            forall|j: int| 0 <= j < i ==> windows@[j].id != window_id,
        decreases windows.len() - i,
    {
        if windows[i].id == window_id {
            if windows[i].is_minimized {
                proof {
                    let ghost w = i as int;
                    assert(0 <= w < windows@.len() && windows@[w].id == window_id && windows@[
                        w
                    ].is_minimized && forall|j: int| 0 <= j < w ==> windows@[j].id != window_id);
                }
                return Err(WindowCaptureError::WindowMinimized);
            }
            return Ok(i);
        }
        i = i + 1;
    }
    Err(WindowCaptureError::WindowNotFound)
}

/// Resolves an index into the capturable (non-minimized) listing back to an
/// index into the full enumeration: the by-index capture path's decision.
pub fn capture_window_by_index(windows: &Vec<WindowInfo>, index: usize) -> (r: Result<
    usize,
    WindowCaptureError,
>)
    ensures
        match r {
            Ok(g) => {
                &&& g < windows.len()
                &&& index < spec_capturable(windows@).len()
                &&& windows@[g as int] == spec_capturable(windows@)[index as int]
                &&& !windows@[g as int].is_minimized
            },
            Err(WindowCaptureError::WindowNotFound) => index >= spec_capturable(windows@).len(),
            Err(_) => false,
        },
{
    let mut i: usize = 0;
    let mut seen: usize = 0;
    while i < windows.len()
        invariant
            0 <= i <= windows.len(),
            seen == spec_capturable(windows@.take(i as int)).len(),
            seen <= index,
        decreases windows.len() - i,
    {
        proof {
            lemma_capturable_take_step(windows@, i as int);
        }
        if !windows[i].is_minimized {
            if seen == index {
                proof {
                    lemma_capturable_prefix_index(windows@, i as int + 1);
                    assert(spec_capturable(windows@.take(i as int + 1)).last() == windows@[
                        i as int
                    ]);
                }
                return Ok(i);
            }
            seen = seen + 1;
        }
        i = i + 1;
    }
    proof {
        assert(windows@.take(windows@.len() as int) =~= windows@);
    }
    Err(WindowCaptureError::WindowNotFound)
}

/// A prefix of the enumeration yields a prefix of the capturable listing.
proof fn lemma_capturable_prefix_index(ws: Seq<WindowInfo>, i: int)
    requires
        0 <= i <= ws.len(),
    ensures
        spec_capturable(ws.take(i)).len() <= spec_capturable(ws).len(),
        forall|k: int|
            0 <= k < spec_capturable(ws.take(i)).len() ==> #[trigger] spec_capturable(ws)[k]
                == spec_capturable(ws.take(i))[k],
    decreases ws.len() - i,
{
    if i < ws.len() {
        lemma_capturable_take_step(ws, i);
        lemma_capturable_prefix_index(ws, i + 1);
    } else {
        assert(ws.take(i) =~= ws);
    }
}

} // verus!
