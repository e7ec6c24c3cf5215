//! The application's command set: every action a shortcut can trigger.
//! The key bindings themselves belong to the shell around the library.

use vstd::prelude::*;

verus! {

/// An action a keyboard shortcut can trigger.
#[derive(Debug, Clone, Copy, PartialEq, Eq, Hash, Structural)]
pub enum Action {
    Copy,
    Save,
    Undo,
    Cancel,
    Confirm,
    ToolPointer,
    ToolPencil,
    ToolRectangle,
    ToolText,
    ToolCrop,
    SwitchToSelection,
    SwitchToWindow,
    SwitchToScreen,
}

pub open spec fn spec_action_label(a: Action) -> Seq<char> {
    match a {
        Action::Copy => "Copy to Clipboard"@,
        Action::Save => "Save to File"@,
        Action::Undo => "Undo"@,
        Action::Cancel => "Cancel / Exit"@,
        Action::Confirm => "Confirm Selection"@,
        Action::ToolPointer => "Select Pointer Tool"@,
        Action::ToolPencil => "Select Pencil Tool"@,
        Action::ToolRectangle => "Select Rectangle Tool"@,
        Action::ToolText => "Select Text Tool"@,
        Action::ToolCrop => "Select Crop Tool"@,
        Action::SwitchToSelection => "Switch to Selection Mode"@,
        Action::SwitchToWindow => "Switch to Window Mode"@,
        Action::SwitchToScreen => "Switch to Screen Mode"@,
    }
}

impl Action {
    /// The label shown for this action in the shortcuts dialog.
    pub fn label(&self) -> (r: &'static str)
        ensures
            r@ == spec_action_label(*self),
    {
        match self {
            Action::Copy => "Copy to Clipboard",
            Action::Save => "Save to File",
            Action::Undo => "Undo",
            Action::Cancel => "Cancel / Exit",
            Action::Confirm => "Confirm Selection",
            Action::ToolPointer => "Select Pointer Tool",
            Action::ToolPencil => "Select Pencil Tool",
            Action::ToolRectangle => "Select Rectangle Tool",
            Action::ToolText => "Select Text Tool",
            Action::ToolCrop => "Select Crop Tool",
            Action::SwitchToSelection => "Switch to Selection Mode",
            Action::SwitchToWindow => "Switch to Window Mode",
            Action::SwitchToScreen => "Switch to Screen Mode",
        }
    }
}

} // verus!
