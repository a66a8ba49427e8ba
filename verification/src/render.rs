//! Rendered pages, and the conversion of a drawing surface's pixels into
//! the RGBA rows that the viewer displays.
//!
//! A drawing surface stores each pixel as four bytes, blue, green, red and
//! alpha, in rows `stride` bytes apart; the viewer wants red, green, blue,
//! alpha with no gap between rows.
use vstd::prelude::*;

verus! {

/// Rendered page/frame data.
pub struct RenderedPage {
    /// RGBA pixel data.
    pub data: Vec<u8>,
    /// Width in pixels.
    pub width: u32,
    /// Height in pixels.
    pub height: u32,
    /// Page/frame index (for multi-page documents).
    pub index: usize,
}

/// Byte `b` (0..4) of pixel `p` of an RGBA image `width` pixels wide, taken
/// from a blue-green-red-alpha surface with rows `stride` bytes apart; 0
/// where the source pixel lies beyond the surface data.
pub open spec fn converted_byte(src: Seq<u8>, stride: int, width: int, p: int, b: int) -> u8 {
    let x = p % width;
    let y = p / width;
    let base = y * stride + x * 4;
    if base + 3 < src.len() {
        if b == 0 {
            src[base + 2]
        } else if b == 1 {
            src[base + 1]
        } else if b == 2 {
            src[base]
        } else {
            src[base + 3]
        }
    } else {
        0
    }
}

/// The RGBA image of `width` by `height` pixels taken from the surface data.
pub open spec fn surface_to_rgba(src: Seq<u8>, stride: int, width: int, height: int) -> Seq<u8> {
    Seq::new(
        (width * height * 4) as nat,
        |i: int| converted_byte(src, stride, width, i / 4, i % 4),
    )
}

/// Pixel `(x, y)` of the converted image sits at byte `4 * (y * width + x)`
/// and holds the red, green, blue and alpha bytes that the surface keeps at
/// `y * stride + 4 * x` plus 2, 1, 0 and 3; where those bytes run past the
/// surface data the pixel is zero.
pub proof fn lemma_pixel_channels(src: Seq<u8>, stride: int, width: int, height: int, x: int, y: int)
    requires
        0 <= x < width,
        0 <= y < height,
        stride >= 0,
    ensures
        ({
            let out = surface_to_rgba(src, stride, width, height);
            let i = 4 * (y * width + x);
            let base = y * stride + 4 * x;
            &&& i + 3 < out.len()
            &&& base + 3 < src.len() ==> out[i] == src[base + 2] && out[i + 1] == src[base + 1]
                && out[i + 2] == src[base] && out[i + 3] == src[base + 3]
            &&& base + 3 >= src.len() ==> out[i] == 0 && out[i + 1] == 0 && out[i + 2] == 0 && out[i
                + 3] == 0
        }),
{
    let p = y * width + x;
    assert(p + 1 <= width * height) by (nonlinear_arith)
        requires
            0 <= x < width,
            0 <= y < height,
            p == y * width + x,
    ;
    assert(p % width == x && p / width == y) by (nonlinear_arith)
        requires
            0 <= x < width,
            0 <= y,
            p == y * width + x,
    ;
    assert((4 * p + 0) / 4 == p && (4 * p + 0) % 4 == 0);
    assert((4 * p + 1) / 4 == p && (4 * p + 1) % 4 == 1);
    assert((4 * p + 2) / 4 == p && (4 * p + 2) % 4 == 2);
    assert((4 * p + 3) / 4 == p && (4 * p + 3) % 4 == 3);
    assert(p * 4 == 4 * p);
    assert(x * 4 == 4 * x);
}

/// Converts a blue-green-red-alpha surface (rows `stride` bytes apart) to
/// packed RGBA.  Pixels whose four source bytes are not all inside `src`
/// come out as zero bytes.
pub fn bgra_to_rgba(src: &[u8], stride: usize, width: u32, height: u32) -> (out: Vec<u8>)
    requires
        width as int * height as int * 4 <= usize::MAX,
        height as int * stride as int + width as int * 4 <= usize::MAX,
    ensures
        out@ == surface_to_rgba(src@, stride as int, width as int, height as int),
{
    let w = width as usize;
    let h = height as usize;
    let mut out: Vec<u8> = Vec::new();
    let mut y: usize = 0;
    proof {
        assert(0 * w * 4 == 0) by (nonlinear_arith);
    }
    while y < h
        invariant
            w == width,
            h == height,
            y <= h,
            width as int * height as int * 4 <= usize::MAX,
            height as int * stride as int + width as int * 4 <= usize::MAX,
            out@.len() == y * w * 4,
            forall|i: int|
                0 <= i < out@.len() ==> #[trigger] out@[i] == converted_byte(
                    src@,
                    stride as int,
                    w as int,
                    i / 4,
                    i % 4,
                ),
        decreases h - y,
    {
        let mut x: usize = 0;
        proof {
            assert(y * stride <= h * stride) by (nonlinear_arith)
                requires
                    y <= h,
            ;
        }
        let row = y * stride;
        while x < w
            invariant
                w == width,
                h == height,
                y < h,
                x <= w,
                row == y * stride,
                row + w * 4 <= usize::MAX,
                width as int * height as int * 4 <= usize::MAX,
                height as int * stride as int + width as int * 4 <= usize::MAX,
                out@.len() == (y * w + x) * 4,
                forall|i: int|
                    0 <= i < out@.len() ==> #[trigger] out@[i] == converted_byte(
                        src@,
                        stride as int,
                        w as int,
                        i / 4,
                        i % 4,
                    ),
            decreases w - x,
        {
            let base = row + x * 4;
            let ghost p = y * w + x;
            proof {
                assert((y * w + x) * 4 + 4 <= w * h * 4) by (nonlinear_arith)
                    requires
                        x < w,
                        y < h,
                ;
                assert(p % (w as int) == x && p / (w as int) == y) by (nonlinear_arith)
                    requires
                        p == y * w + x,
                        x < w,
                ;
            }
            let inside = base < src.len() && src.len() - base > 3;
            let ghost start = out@.len();
            if inside {
                out.push(src[base + 2]);
                out.push(src[base + 1]);
                out.push(src[base]);
                out.push(src[base + 3]);
            } else {
                out.push(0);
                out.push(0);
                out.push(0);
                out.push(0);
            }
            proof {
                assert forall|i: int| 0 <= i < out@.len() implies #[trigger] out@[i]
                    == converted_byte(src@, stride as int, w as int, i / 4, i % 4) by {
                    if i >= start {
                        assert(start == p * 4);
                        assert(i / 4 == p && i % 4 == i - start) by (nonlinear_arith)
                            requires
                                start == p * 4,
                                start <= i < start + 4,
                        ;
                    }
                }
            }
            x = x + 1;
        }
        proof {
            assert((y * w + w) * 4 == (y + 1) * w * 4) by (nonlinear_arith);
        }
        y = y + 1;
    }
    proof {
        assert(h * w * 4 == width as int * height as int * 4) by (nonlinear_arith)
            requires
                w == width,
                h == height,
        ;
        assert(out@ =~= surface_to_rgba(src@, stride as int, width as int, height as int));
    }
    out
}

} // verus!
