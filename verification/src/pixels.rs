//! In-memory RGBA images: the value every capture path ultimately produces.
//!
//! External capture tools write PNG files; the embedding application reads
//! the bytes back and the library decodes and, when a tool cannot target a
//! sub-region, crops them here.

use vstd::prelude::*;
use crate::geometry::spec_clamp_to_image;
use crate::geometry::clamp_to_image;

verus! {

/// An RGBA image held in memory: four bytes per pixel, rows top to bottom.
#[derive(Debug, Clone, PartialEq, Eq)]
pub struct RgbaBuffer {
    pub width: u32,
    pub height: u32,
    pub pixels: Vec<u8>,
}

impl RgbaBuffer {
    /// The buffer holds exactly four bytes for every pixel.
    pub open spec fn wf(&self) -> bool {
        self.pixels@.len() == 4 * self.width * self.height
    }

    /// The byte `k` (0..4) of the pixel at column `i`, row `j`.
    pub open spec fn byte_at(&self, i: int, j: int, k: int) -> u8 {
        self.pixels@[4 * (j * self.width + i) + k]
    }
}

/// The width, height and RGBA bytes that decoding an encoded image yields,
/// when it decodes at all: a function of the input bytes alone.
pub uninterp spec fn decoded_rgba(bytes: Seq<u8>) -> Option<(u32, u32, Seq<u8>)>;

/// Relies on `image::load_from_memory` and `DynamicImage::to_rgba8`: decodes
/// an encoded image (the capture tools write PNG) into an RGBA pixel buffer
/// whose length is four bytes per pixel, or reports the decoder's error.
/// Decoding is deterministic in the bytes, which `decoded_rgba` names.
#[verifier::external_body]
pub fn decode_image(bytes: &[u8]) -> (r: Result<RgbaBuffer, String>)
    ensures
        r matches Ok(b) ==> b.wf() && decoded_rgba(bytes@) == Some((b.width, b.height, b.pixels@)),
        r is Err ==> decoded_rgba(bytes@) is None,
{
    match image::load_from_memory(bytes) {
        Ok(img) => {
            let rgba = img.to_rgba8();
            let width = rgba.width();
            let height = rgba.height();
            let pixels = rgba.into_raw();
            Ok(RgbaBuffer { width, height, pixels })
        },
        Err(e) => Err(e.to_string()),
    }
}

/// The `4*cw` bytes of the cropped row at source row `y`, starting at
/// source column `cx`: one contiguous run of the source buffer.
pub open spec fn spec_crop_row(src: &RgbaBuffer, cx: int, y: int, cw: int) -> Seq<u8> {
    Seq::new((4 * cw) as nat, |t: int| src.pixels@[4 * (y * src.width + cx) + t])
}

/// The first `n` cropped rows, concatenated.
pub open spec fn spec_crop_rows(src: &RgbaBuffer, cx: int, cy: int, cw: int, n: int) -> Seq<u8>
    decreases n,
{
    if n <= 0 {
        Seq::empty()
    } else {
        spec_crop_rows(src, cx, cy, cw, n - 1) + spec_crop_row(src, cx, cy + n - 1, cw)
    }
}

pub proof fn lemma_crop_rows_len(src: &RgbaBuffer, cx: int, cy: int, cw: int, n: int)
    requires
        cw >= 0,
        n >= 0,
    ensures
        spec_crop_rows(src, cx, cy, cw, n).len() == 4 * cw * n,
    decreases n,
{
    if n <= 0 {
        assert(4 * cw * n == 0) by (nonlinear_arith)
            requires
                n <= 0,
                n >= 0,
        ;
    } else {
        lemma_crop_rows_len(src, cx, cy, cw, n - 1);
        assert(4 * cw * (n - 1) + 4 * cw == 4 * cw * n) by (nonlinear_arith);
    }
}

/// Where each byte of the concatenated cropped rows comes from in the
/// source.
pub proof fn lemma_crop_rows_index(
    src: &RgbaBuffer,
    cx: int,
    cy: int,
    cw: int,
    n: int,
    j: int,
    i: int,
    k: int,
)
    requires
        cw > 0,
        0 <= j < n,
        0 <= i < cw,
        0 <= k < 4,
    ensures
        spec_crop_rows(src, cx, cy, cw, n).len() == 4 * cw * n,
        spec_crop_rows(src, cx, cy, cw, n)[4 * (j * cw + i) + k] == src.pixels@[4 * ((cy + j)
            * src.width + (cx + i)) + k],
    decreases n,
{
    lemma_crop_rows_len(src, cx, cy, cw, n);
    let idx = 4 * (j * cw + i) + k;
    if j == n - 1 {
        lemma_crop_rows_len(src, cx, cy, cw, n - 1);
        let off = idx - 4 * cw * (n - 1);
        assert(idx == 4 * cw * (n - 1) + 4 * i + k) by (nonlinear_arith)
            requires
                j == n - 1,
                idx == 4 * (j * cw + i) + k,
        ;
        assert(off == 4 * i + k);
        assert(off < 4 * cw);
        assert(spec_crop_rows(src, cx, cy, cw, n)[idx] == spec_crop_row(src, cx, cy + n - 1, cw)[
            off
        ]);
        assert(spec_crop_row(src, cx, cy + n - 1, cw)[off] == src.pixels@[4 * ((cy + n - 1)
            * src.width + cx) + off]);
        assert(4 * ((cy + j) * src.width + cx) + 4 * i + k == 4 * ((cy + j) * src.width + (cx + i))
            + k);
    } else {
        lemma_crop_rows_index(src, cx, cy, cw, n - 1, j, i, k);
        assert(idx < 4 * cw * (n - 1)) by (nonlinear_arith)
            requires
                0 <= j < n - 1,
                0 <= i < cw,
                0 <= k < 4,
                cw > 0,
                idx == 4 * (j * cw + i) + k,
        ;
        assert(spec_crop_rows(src, cx, cy, cw, n)[idx] == spec_crop_rows(src, cx, cy, cw, n - 1)[
            idx
        ]);
    }
}

/// Crops a buffer to the clamped region `spec_clamp_to_image` selects,
/// copying the pixels row by row; `None` when the requested region misses
/// the image (the caller then treats the crop as failed).
pub fn crop_rgba(src: &RgbaBuffer, x: i32, y: i32, width: i32, height: i32) -> (r: Option<
    RgbaBuffer,
>)
    requires
        src.wf(),
    ensures
        match r {
            Some(c) => {
                &&& c.wf()
                &&& spec_clamp_to_image(
                    src.width as int,
                    src.height as int,
                    x as int,
                    y as int,
                    width as int,
                    height as int,
                ) matches Some(q)
                &&& spec_clamp_to_image(
                    src.width as int,
                    src.height as int,
                    x as int,
                    y as int,
                    width as int,
                    height as int,
                ) == Some((q.0, q.1, c.width as int, c.height as int))
                &&& forall|i: int, j: int, k: int|
                    0 <= i < c.width && 0 <= j < c.height && 0 <= k < 4 ==> #[trigger] c.byte_at(
                        i,
                        j,
                        k,
                    ) == src.byte_at(q.0 + i, q.1 + j, k)
            },
            None => src.width == 0 || src.height == 0 || spec_clamp_to_image(
                src.width as int,
                src.height as int,
                x as int,
                y as int,
                width as int,
                height as int,
            ) is None,
        },
{
    let total: usize = src.pixels.len();
    proof {
        assert(4 * (src.width * src.height) <= usize::MAX) by {
            assert(4 * src.width * src.height == 4 * (src.width * src.height)) by (nonlinear_arith);
        }
    }
    if src.width == 0 || src.height == 0 {
        return None;
    }
    let clamped = clamp_to_image(src.width, src.height, x, y, width, height);
    match clamped {
        None => None,
        Some((cx, cy, cw, ch)) => {
            let ghost q = (cx as int, cy as int, cw as int, ch as int);
            let cxu = cx as usize;
            let cyu = cy as usize;
            let cwu = cw as usize;
            let chu = ch as usize;
            let sw = src.width as usize;
            proof {
                assert(4 * cw <= 4 * (src.width * src.height)) by (nonlinear_arith)
                    requires
                        0 < cw <= src.width,
                        src.height >= 1,
                ;
            }
            let row_bytes: usize = 4 * cwu;
            let mut pixels: Vec<u8> = Vec::new();
            let mut j: usize = 0;
            proof {
                lemma_crop_rows_len(src, q.0, q.1, q.2, 0);
            }
            while j < chu
                invariant
                    src.wf(),
                    4 * (src.width * src.height) <= usize::MAX,
                    sw == src.width,
                    total == src.pixels@.len(),
                    0 <= cx < src.width,
                    0 <= cy < src.height,
                    0 < cw <= src.width - cx,
                    0 < ch <= src.height - cy,
                    cxu == cx && cyu == cy && cwu == cw && chu == ch,
                    row_bytes == 4 * cw,
                    q == (cx as int, cy as int, cw as int, ch as int),
                    0 <= j <= chu,
                    pixels@ =~= spec_crop_rows(src, q.0, q.1, q.2, j as int),
                    pixels@.len() == 4 * cw * j,
                decreases chu - j,
            {
                proof {
                    assert((cy + j) * src.width + cx + cw <= src.width * src.height) by (nonlinear_arith)
                        requires
                            0 <= cy + j < src.height,
                            0 <= cx,
                            cx + cw <= src.width,
                    ;
                    assert(4 * ((cy + j) * src.width + cx) + 4 * cw <= 4 * src.width * src.height)
                        by (nonlinear_arith)
                        requires
                            (cy + j) * src.width + cx + cw <= src.width * src.height,
                    ;
                }
                let base: usize = 4 * ((cyu + j) * sw + cxu);
                let ghost row_start = pixels@.len();
                let mut t: usize = 0;
                while t < row_bytes
                    invariant
                        src.wf(),
                        total == src.pixels@.len(),
                        4 * (src.width * src.height) <= usize::MAX,
                        sw == src.width,
                        0 <= cx < src.width,
                        0 <= cy < src.height,
                        0 < cw <= src.width - cx,
                        0 < ch <= src.height - cy,
                        cxu == cx && cyu == cy && cwu == cw && chu == ch,
                        row_bytes == 4 * cw,
                        0 <= j < chu,
                        base == 4 * ((cy + j) * src.width + cx),
                        base + row_bytes <= total,
                        0 <= t <= row_bytes,
                        row_start == 4 * cw * j,
                        pixels@.len() == row_start + t,
                        pixels@ =~= spec_crop_rows(src, q.0, q.1, q.2, j as int) + Seq::new(
                            t as nat,
                            |u: int| src.pixels@[base + u],
                        ),
                    decreases row_bytes - t,
                {
                    pixels.push(src.pixels[base + t]);
                    proof {
                        assert(pixels@ =~= spec_crop_rows(src, q.0, q.1, q.2, j as int) + Seq::new(
                            (t + 1) as nat,
                            |u: int| src.pixels@[base + u],
                        ));
                    }
                    t = t + 1;
                }
                proof {
                    assert(Seq::new((4 * q.2) as nat, |u: int| src.pixels@[base + u])
                        =~= spec_crop_row(src, q.0, q.1 + j, q.2));
                    assert(pixels@ =~= spec_crop_rows(src, q.0, q.1, q.2, j + 1));
                    lemma_crop_rows_len(src, q.0, q.1, q.2, j + 1);
                }
                j = j + 1;
            }
            let out = RgbaBuffer { width: cw as u32, height: ch as u32, pixels };
            proof {
                assert(out.wf()) by {
                    assert(4 * cw * ch == 4 * ((cw as u32) * (ch as u32))) by (nonlinear_arith)
                        requires
                            0 < cw <= u32::MAX,
                            0 < ch <= u32::MAX,
                    ;
                }
                assert forall|i: int, j2: int, k: int|
                    0 <= i < out.width && 0 <= j2 < out.height && 0 <= k < 4 implies #[trigger] out
                    .byte_at(i, j2, k) == src.byte_at(q.0 + i, q.1 + j2, k) by {
                    lemma_crop_rows_index(src, q.0, q.1, q.2, q.3, j2, i, k);
                    assert(out.byte_at(i, j2, k) == out.pixels@[4 * (j2 * out.width + i) + k]);
                    assert(j2 * out.width == j2 * q.2) by (nonlinear_arith)
                        requires
                            out.width == q.2,
                    ;
                }
            }
            Some(out)
        },
    }
}

} // verus!
