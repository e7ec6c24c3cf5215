//! The error surface of the color-picking path. The picking itself reads
//! fractional channel values from the toolkit's pixel buffers and belongs
//! to the shell around the library.

use vstd::prelude::*;

verus! {

use vstd::string::StringExecFns;

/// Error type for color picking operations.
#[derive(Debug, Clone, Copy, PartialEq, Eq, Structural)]
pub enum ColorPickError {
    /// The requested coordinates lie outside the image
    OutOfBounds,
    /// The pixel buffer could not be read
    InvalidPixbuf,
}

pub open spec fn spec_color_pick_error_label(e: ColorPickError) -> Seq<char> {
    match e {
        ColorPickError::OutOfBounds => "Coordinates are outside the image bounds"@,
        ColorPickError::InvalidPixbuf => "Invalid pixbuf data"@,
    }
}

impl ColorPickError {
    /// A human-readable description of the error.
    pub fn label(&self) -> (r: String)
        ensures
            r@ == spec_color_pick_error_label(*self),
    {
        match self {
            ColorPickError::OutOfBounds => String::from_str(
                "Coordinates are outside the image bounds",
            ),
            ColorPickError::InvalidPixbuf => String::from_str("Invalid pixbuf data"),
        }
    }
}

} // verus!
