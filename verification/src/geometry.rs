//! Screen rectangles: normalized construction and clamping to an image.

use vstd::prelude::*;

verus! {

/// A rectangle on the screen: origin at the top-left corner, non-negative
/// extent.
#[derive(Debug, Clone, Copy, PartialEq, Eq, Structural)]
pub struct Rect {
    pub x: i32,
    pub y: i32,
    pub width: u32,
    pub height: u32,
}

impl Rect {
    /// Builds the rectangle spanned by two opposite corners, given in either
    /// order: the width and height of the result are never negative.
    pub fn from_corners(x0: i32, y0: i32, x1: i32, y1: i32) -> (r: Rect)
        ensures
            r.x == if x0 <= x1 { x0 as int } else { x1 as int },
            r.y == if y0 <= y1 { y0 as int } else { y1 as int },
            r.width == if x0 <= x1 { x1 - x0 } else { x0 - x1 },
            r.height == if y0 <= y1 { y1 - y0 } else { y0 - y1 },
    {
        let x = if x0 <= x1 { x0 } else { x1 };
        let y = if y0 <= y1 { y0 } else { y1 };
        let width = ((if x0 <= x1 { x1 as i64 - x0 as i64 } else { x0 as i64 - x1 as i64 })) as u32;
        let height = ((if y0 <= y1 { y1 as i64 - y0 as i64 } else { y0 as i64 - y1 as i64 })) as u32;
        Rect { x, y, width, height }
    }
}

/// The region a requested rectangle occupies inside a source image of
/// `src_width` by `src_height` pixels, clamped the way the capture path crops
/// a full-screen grab down to one window: the origin is clamped into the
/// image, and the extent is cut at the image's edges. `None` when nothing of
/// the rectangle lies inside the image.
pub open spec fn spec_clamp_to_image(
    src_width: int,
    src_height: int,
    x: int,
    y: int,
    width: int,
    height: int,
) -> Option<(int, int, int, int)> {
    let cx = if x < 0 { 0 } else if x > src_width - 1 { src_width - 1 } else { x };
    let cy = if y < 0 { 0 } else if y > src_height - 1 { src_height - 1 } else { y };
    let cw = if width < src_width - cx { width } else { src_width - cx };
    let ch = if height < src_height - cy { height } else { src_height - cy };
    if cw <= 0 || ch <= 0 {
        None
    } else {
        Some((cx, cy, cw, ch))
    }
}

/// Clamps a requested crop region to a source image, mirroring
/// `spec_clamp_to_image`. A `None` means the region misses the image
/// entirely and the crop must be skipped.
pub fn clamp_to_image(src_width: u32, src_height: u32, x: i32, y: i32, width: i32, height: i32) -> (r:
    Option<(u32, u32, u32, u32)>)
    requires
        0 < src_width,
        0 < src_height,
    ensures
        match r {
            Some(q) => {
                &&& spec_clamp_to_image(
                    src_width as int,
                    src_height as int,
                    x as int,
                    y as int,
                    width as int,
                    height as int,
                ) == Some((q.0 as int, q.1 as int, q.2 as int, q.3 as int))
                &&& 0 <= q.0 < src_width
                &&& 0 <= q.1 < src_height
                &&& 0 < q.2 <= src_width - q.0
                &&& 0 < q.3 <= src_height - q.1
            },
            None => spec_clamp_to_image(
                src_width as int,
                src_height as int,
                x as int,
                y as int,
                width as int,
                height as int,
            ) is None,
        },
{
    let sw = src_width as i64;
    let sh = src_height as i64;
    let xl = x as i64;
    let yl = y as i64;
    let wl = width as i64;
    let hl = height as i64;
    let cx: i64 = if xl < 0 {
        0
    } else if xl > sw - 1 {
        sw - 1
    } else {
        xl
    };
    let cy: i64 = if yl < 0 {
        0
    } else if yl > sh - 1 {
        sh - 1
    } else {
        yl
    };
    let cw: i64 = if wl < sw - cx {
        wl
    } else {
        sw - cx
    };
    let ch: i64 = if hl < sh - cy {
        hl
    } else {
        sh - cy
    };
    if cw <= 0 || ch <= 0 {
        None
    } else {
        Some((cx as u32, cy as u32, cw as u32, ch as u32))
    }
}

} // verus!
