//! The capture modes the application can be in. The rest of the
//! application's state carries widgets and fractional selection
//! coordinates, which belong to the shell around the library.

use vstd::prelude::*;

verus! {

/// The capture mode: how to capture the screenshot.
#[derive(Clone, Copy, Debug, PartialEq, Eq, Structural)]
pub enum CaptureMode {
    /// Capture a rectangular selection
    Selection,
    /// Capture a specific window
    Window,
    /// Capture the entire screen
    Screen,
}

impl Default for CaptureMode {
    /// A fresh session starts in selection mode.
    fn default() -> (r: Self)
        ensures
            r is Selection,
    {
        CaptureMode::Selection
    }
}

} // verus!
