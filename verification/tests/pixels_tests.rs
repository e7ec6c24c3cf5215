//! Rectangles, cropping, image decoding, and the small UI-facing types.

use deskcap::color_picker::ColorPickError;
use deskcap::config::Action;
use deskcap::geometry::{Rect, clamp_to_image};
use deskcap::pixels::{RgbaBuffer, crop_rgba, decode_image};
use deskcap::state::CaptureMode;
use deskcap::tools::EditorTool;

#[test]
fn test_rect_from_corners_normalizes() {
    // Corners in either order give the same non-negative rectangle
    let r = Rect::from_corners(50, 80, 10, 20);
    assert_eq!((r.x, r.y, r.width, r.height), (10, 20, 40, 60));
    let r = Rect::from_corners(10, 20, 50, 80);
    assert_eq!((r.x, r.y, r.width, r.height), (10, 20, 40, 60));
    let r = Rect::from_corners(-5, 7, -5, 7);
    assert_eq!((r.x, r.y, r.width, r.height), (-5, 7, 0, 0));
}

#[test]
fn test_clamp_to_image() {
    // Fully inside
    assert_eq!(clamp_to_image(100, 50, 10, 5, 20, 30), Some((10, 5, 20, 30)));
    // Clamped at the origin and the far edges
    assert_eq!(clamp_to_image(100, 50, -10, -5, 20, 30), Some((0, 0, 20, 30)));
    assert_eq!(clamp_to_image(100, 50, 90, 40, 20, 30), Some((90, 40, 10, 10)));
    // Degenerate request
    assert_eq!(clamp_to_image(100, 50, 10, 5, 0, 30), None);
}

fn checkerboard(width: u32, height: u32) -> RgbaBuffer {
    let mut pixels = Vec::new();
    for j in 0..height {
        for i in 0..width {
            let v = (i + j * width) as u8;
            pixels.extend_from_slice(&[v, v.wrapping_add(1), v.wrapping_add(2), 255]);
        }
    }
    RgbaBuffer { width, height, pixels }
}

#[test]
fn test_crop_rgba_copies_pixels() {
    let src = checkerboard(4, 4);
    let c = crop_rgba(&src, 1, 1, 2, 2).unwrap();
    assert_eq!((c.width, c.height), (2, 2));
    assert_eq!(c.pixels.len(), 16);
    // pixel (0,0) of the crop is pixel (1,1) of the source: index 5
    assert_eq!(c.pixels[0], 5);
    // pixel (1,0) is source (2,1): index 6
    assert_eq!(c.pixels[4], 6);
    // pixel (0,1) is source (1,2): index 9
    assert_eq!(c.pixels[8], 9);
    assert_eq!(c.pixels[3], 255);
}

#[test]
fn test_crop_rgba_clamps_and_misses() {
    let src = checkerboard(4, 4);
    // Oversized request is clamped to the image
    let c = crop_rgba(&src, -2, -2, 100, 100).unwrap();
    assert_eq!((c.width, c.height), (4, 4));
    assert_eq!(c.pixels, src.pixels);
    // Request with nothing usable
    assert!(crop_rgba(&src, 2, 2, 0, 5).is_none());
}

#[test]
fn test_decode_image_round_trip() {
    // Encode a small image as PNG with the image crate, then decode through
    // the library: the buffer must come back pixel for pixel
    let mut img = image::RgbaImage::new(3, 2);
    for (x, y, p) in img.enumerate_pixels_mut() {
        *p = image::Rgba([x as u8 * 10, y as u8 * 20, 7, 255]);
    }
    let mut png: Vec<u8> = Vec::new();
    img.write_to(&mut std::io::Cursor::new(&mut png), image::ImageFormat::Png)
        .unwrap();

    let buf = decode_image(&png).unwrap();
    assert_eq!((buf.width, buf.height), (3, 2));
    assert_eq!(buf.pixels.len(), 24);
    assert_eq!(&buf.pixels[0..4], &[0, 0, 7, 255]);
    assert_eq!(&buf.pixels[4..8], &[10, 0, 7, 255]);
    assert_eq!(&buf.pixels[12..16], &[0, 20, 7, 255]);
}

#[test]
fn test_decode_image_rejects_garbage() {
    assert!(decode_image(&[1, 2, 3, 4]).is_err());
}

#[test]
fn test_editor_tool_metadata() {
    assert_eq!(EditorTool::Pointer.icon_name(), "input-mouse-symbolic");
    assert_eq!(EditorTool::Pencil.tooltip(), "Free Draw");
    assert_eq!(EditorTool::ColorPicker.icon_name(), "color-select-symbolic");
    let all = EditorTool::all();
    assert_eq!(all.len(), 6);
    assert_eq!(all[0], EditorTool::Pointer);
    assert_eq!(all[5], EditorTool::ColorPicker);
    assert_eq!(EditorTool::default(), EditorTool::Pointer);
}

#[test]
fn test_action_labels() {
    assert_eq!(Action::Copy.label(), "Copy to Clipboard");
    assert_eq!(Action::SwitchToScreen.label(), "Switch to Screen Mode");
}

#[test]
fn test_capture_mode_default() {
    assert_eq!(CaptureMode::default(), CaptureMode::Selection);
    assert!(CaptureMode::Window != CaptureMode::Screen);
}

#[test]
fn test_color_pick_error_labels() {
    assert_eq!(
        ColorPickError::OutOfBounds.label(),
        "Coordinates are outside the image bounds"
    );
    assert_eq!(ColorPickError::InvalidPixbuf.label(), "Invalid pixbuf data");
}
