//! The editor's tool palette: the fixed set of annotation tools and their
//! presentation hints.

use vstd::prelude::*;

verus! {

/// The active editing tool.
#[derive(Clone, Copy, Debug, PartialEq, Eq, Structural)]
pub enum EditorTool {
    Pointer,
    Pencil,
    Rectangle,
    Crop,
    Text,
    ColorPicker,
}

impl Default for EditorTool {
    /// The pointer is the initial tool.
    fn default() -> (r: Self)
        ensures
            r is Pointer,
    {
        EditorTool::Pointer
    }
}

pub open spec fn spec_tool_icon(t: EditorTool) -> Seq<char> {
    match t {
        EditorTool::Pointer => "input-mouse-symbolic"@,
        EditorTool::Pencil => "document-edit-symbolic"@,
        EditorTool::Rectangle => "media-playback-stop-symbolic"@,
        EditorTool::Crop => "crop-symbolic"@,
        EditorTool::Text => "insert-text-symbolic"@,
        EditorTool::ColorPicker => "color-select-symbolic"@,
    }
}

pub open spec fn spec_tool_tooltip(t: EditorTool) -> Seq<char> {
    match t {
        EditorTool::Pointer => "Pointer"@,
        EditorTool::Pencil => "Free Draw"@,
        EditorTool::Rectangle => "Rectangle"@,
        EditorTool::Crop => "Crop"@,
        EditorTool::Text => "Add Text"@,
        EditorTool::ColorPicker => "Pick Color"@,
    }
}

impl EditorTool {
    /// Get the icon name for this tool.
    pub fn icon_name(&self) -> (r: &'static str)
        ensures
            r@ == spec_tool_icon(*self),
    {
        match self {
            EditorTool::Pointer => "input-mouse-symbolic",
            EditorTool::Pencil => "document-edit-symbolic",
            EditorTool::Rectangle => "media-playback-stop-symbolic",
            EditorTool::Crop => "crop-symbolic",
            EditorTool::Text => "insert-text-symbolic",
            EditorTool::ColorPicker => "color-select-symbolic",
        }
    }

    /// Get the tooltip text for this tool.
    pub fn tooltip(&self) -> (r: &'static str)
        ensures
            r@ == spec_tool_tooltip(*self),
    {
        match self {
            EditorTool::Pointer => "Pointer",
            EditorTool::Pencil => "Free Draw",
            EditorTool::Rectangle => "Rectangle",
            EditorTool::Crop => "Crop",
            EditorTool::Text => "Add Text",
            EditorTool::ColorPicker => "Pick Color",
        }
    }

    /// Get all available tools in order.
    pub fn all() -> (r: Vec<EditorTool>)
        ensures
            r@ == seq![
                EditorTool::Pointer,
                EditorTool::Pencil,
                EditorTool::Rectangle,
                EditorTool::Crop,
                EditorTool::Text,
                EditorTool::ColorPicker,
            ],
    {
        let mut r: Vec<EditorTool> = Vec::new();
        r.push(EditorTool::Pointer);
        r.push(EditorTool::Pencil);
        r.push(EditorTool::Rectangle);
        r.push(EditorTool::Crop);
        r.push(EditorTool::Text);
        r.push(EditorTool::ColorPicker);
        proof {
            assert(r@ =~= seq![
                EditorTool::Pointer,
                EditorTool::Pencil,
                EditorTool::Rectangle,
                EditorTool::Crop,
                EditorTool::Text,
                EditorTool::ColorPicker,
            ]);
        }
        r
    }
}

} // verus!
