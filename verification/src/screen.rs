//! Monitor metadata and the choices made over it: which monitor a capture
//! targets. The pixel grab itself is the in-process capture library's
//! (or a capture tool's) job; the geometry decisions are verified here.

use vstd::prelude::*;
use crate::pixels::RgbaBuffer;

verus! {

use vstd::string::StringExecFns;

/// Information about a monitor. Scale factor, rotation and refresh rate are
/// fractional values owned by the platform library and are not carried
/// here.
#[derive(Debug, PartialEq, Eq)]
pub struct MonitorInfo {
    pub id: u32,
    pub name: String,
    pub x: i32,
    pub y: i32,
    pub width: u32,
    pub height: u32,
    pub is_primary: bool,
    pub is_builtin: bool,
}

impl Clone for MonitorInfo {
    /// A clone carries every field over unchanged.
    fn clone(&self) -> (r: Self)
        ensures
            r == *self,
    {
        MonitorInfo {
            id: self.id,
            name: self.name.clone(),
            x: self.x,
            y: self.y,
            width: self.width,
            height: self.height,
            is_primary: self.is_primary,
            is_builtin: self.is_builtin,
        }
    }
}

impl MonitorInfo {
    /// A best-effort stand-in for capture paths where per-monitor metadata
    /// is unavailable (a compositor tool wrote a file and said no more):
    /// explicitly a placeholder, not measured data.
    pub fn placeholder(width: u32, height: u32) -> (r: MonitorInfo)
        ensures
            r.id == 0,
            r.name@ == "unknown"@,
            r.x == 0 && r.y == 0,
            r.width == width && r.height == height,
            !r.is_primary && !r.is_builtin,
    {
        MonitorInfo {
            id: 0,
            name: String::from_str("unknown"),
            x: 0,
            y: 0,
            width,
            height,
            is_primary: false,
            is_builtin: false,
        }
    }
}

/// Result of a screen capture operation.
#[derive(Debug, Clone)]
pub struct CaptureResult {
    pub image: RgbaBuffer,
    pub monitor_info: MonitorInfo,
}

/// Picks the monitor a whole-screen capture targets: the first marked
/// primary, else the first listed, else nothing.
pub fn pick_primary_monitor(monitors: &Vec<MonitorInfo>) -> (r: Option<usize>)
    ensures
        match r {
            Some(i) => {
                &&& i < monitors@.len()
                &&& (monitors@[i as int].is_primary || (i == 0 && forall|j: int|
                    0 <= j < monitors@.len() ==> !(#[trigger] monitors@[j].is_primary)))
                &&& forall|j: int| 0 <= j < i ==> !(#[trigger] monitors@[j].is_primary)
            },
            None => monitors@.len() == 0,
        },
{
    let mut i: usize = 0;
    while i < monitors.len()
        invariant
            0 <= i <= monitors@.len(),
            forall|j: int| 0 <= j < i ==> !(#[trigger] monitors@[j].is_primary),
        decreases monitors@.len() - i,
    {
        if monitors[i].is_primary {
            return Some(i);
        }
        i = i + 1;
    }
    if monitors.len() > 0 {
        Some(0)
    } else {
        None
    }
}

/// The monitor's rectangle contains the point.
pub open spec fn spec_monitor_contains(m: &MonitorInfo, x: int, y: int) -> bool {
    m.x <= x < m.x + m.width && m.y <= y < m.y + m.height
}

/// Picks the first monitor whose bounds contain the point, if any.
pub fn monitor_at_point(monitors: &Vec<MonitorInfo>, x: i32, y: i32) -> (r: Option<usize>)
    ensures
        match r {
            Some(i) => i < monitors@.len() && spec_monitor_contains(
                &monitors@[i as int],
                x as int,
                y as int,
            ) && forall|j: int|
                0 <= j < i ==> !spec_monitor_contains(&(#[trigger] monitors@[j]), x as int, y as int),
            None => forall|j: int|
                0 <= j < monitors@.len() ==> !spec_monitor_contains(
                    &(#[trigger] monitors@[j]),
                    x as int,
                    y as int,
                ),
        },
{
    let mut i: usize = 0;
    while i < monitors.len()
        invariant
            0 <= i <= monitors@.len(),
            forall|j: int|
                0 <= j < i ==> !spec_monitor_contains(
                    &(#[trigger] monitors@[j]),
                    x as int,
                    y as int,
                ),
        decreases monitors@.len() - i,
    {
        let m = &monitors[i];
        let inside_x = m.x as i64 <= x as i64 && (x as i64) < m.x as i64 + m.width as i64;
        let inside_y = m.y as i64 <= y as i64 && (y as i64) < m.y as i64 + m.height as i64;
        if inside_x && inside_y {
            return Some(i);
        }
        i = i + 1;
    }
    None
}

/// Finds the monitor with the given id.
pub fn find_monitor_by_id(monitors: &Vec<MonitorInfo>, id: u32) -> (r: Option<usize>)
    ensures
        match r {
            Some(i) => i < monitors@.len() && monitors@[i as int].id == id && forall|j: int|
                0 <= j < i ==> (#[trigger] monitors@[j]).id != id,
            None => forall|j: int| 0 <= j < monitors@.len() ==> (#[trigger] monitors@[j]).id != id,
        },
{
    let mut i: usize = 0;
    while i < monitors.len()
        invariant
            0 <= i <= monitors@.len(),
            forall|j: int| 0 <= j < i ==> (#[trigger] monitors@[j]).id != id,
        decreases monitors@.len() - i,
    {
        if monitors[i].id == id {
            return Some(i);
        }
        i = i + 1;
    }
    None
}

/// Finds the monitor with the given name.
pub fn find_monitor_by_name(monitors: &Vec<MonitorInfo>, name: &str) -> (r: Option<usize>)
    ensures
        match r {
            Some(i) => i < monitors@.len() && monitors@[i as int].name@ == name@ && forall|j: int|
                0 <= j < i ==> (#[trigger] monitors@[j]).name@ != name@,
            None => forall|j: int|
                0 <= j < monitors@.len() ==> (#[trigger] monitors@[j]).name@ != name@,
        },
{
    let name_s = String::from_str(name);
    let mut i: usize = 0;
    while i < monitors.len()
        invariant
            0 <= i <= monitors@.len(),
            name_s@ == name@,
            forall|j: int| 0 <= j < i ==> (#[trigger] monitors@[j]).name@ != name@,
        decreases monitors@.len() - i,
    {
        if monitors[i].name.eq(&name_s) {
            return Some(i);
        }
        i = i + 1;
    }
    None
}

} // verus!
