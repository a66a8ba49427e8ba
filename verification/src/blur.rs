//! Box blur of RGBA pixel data, as used by the blur annotation tool.
use vstd::prelude::*;
use vstd::arithmetic::div_mod::{lemma_fundamental_div_mod, lemma_mod_pos_bound};

verus! {

/// Number of horizontal+vertical passes the blur makes.
pub open spec fn blur_pass_count() -> nat {
    3
}

/// The radius of one pass: a third of the requested radius, at least 1.
pub open spec fn pass_radius(radius: nat) -> nat {
    if radius / 3 >= 1 {
        radius / 3
    } else {
        1
    }
}

/// First index of the window around `x` (saturating at 0).
pub open spec fn window_lo(x: int, r: int) -> int {
    if x >= r {
        x - r
    } else {
        0
    }
}

/// One past the last index of the window around `x`, capped at `n`.
pub open spec fn window_hi(x: int, r: int, n: int) -> int {
    if x + r + 1 <= n {
        x + r + 1
    } else {
        n
    }
}

/// Sum of channel `c` of the pixels `lo..hi` of row `y`.
pub open spec fn row_sum(s: Seq<u8>, w: int, y: int, c: int, lo: int, hi: int) -> int
    decreases hi - lo,
{
    if hi <= lo {
        0
    } else {
        row_sum(s, w, y, c, lo, hi - 1) + s[(y * w + (hi - 1)) * 4 + c] as int
    }
}

/// Sum of channel `c` of the pixels of column `x` in rows `lo..hi`.
pub open spec fn col_sum(s: Seq<u8>, w: int, x: int, c: int, lo: int, hi: int) -> int
    decreases hi - lo,
{
    if hi <= lo {
        0
    } else {
        col_sum(s, w, x, c, lo, hi - 1) + s[((hi - 1) * w + x) * 4 + c] as int
    }
}

/// Channel `c` of pixel `(x, y)` after the horizontal averaging of one pass.
pub open spec fn h_value(s: Seq<u8>, w: int, r: int, y: int, x: int, c: int) -> u8 {
    let lo = window_lo(x, r);
    let hi = window_hi(x, r, w);
    (row_sum(s, w, y, c, lo, hi) / (hi - lo)) as u8
}

/// Channel `c` of pixel `(x, y)` after the vertical averaging of one pass.
pub open spec fn v_value(t: Seq<u8>, w: int, h: int, r: int, y: int, x: int, c: int) -> u8 {
    let lo = window_lo(y, r);
    let hi = window_hi(y, r, h);
    (col_sum(t, w, x, c, lo, hi) / (hi - lo)) as u8
}

/// The horizontal averaging of a `w` x `h` RGBA image; bytes past the
/// image are unchanged.
pub open spec fn horizontal_pass(s: Seq<u8>, w: int, h: int, r: int) -> Seq<u8> {
    Seq::new(
        s.len(),
        |i: int|
            if i < w * h * 4 {
                h_value(s, w, r, (i / 4) / w, (i / 4) % w, i % 4)
            } else {
                s[i]
            },
    )
}

/// The vertical averaging of a `w` x `h` RGBA image; bytes past the image
/// are unchanged.
pub open spec fn vertical_pass(t: Seq<u8>, w: int, h: int, r: int) -> Seq<u8> {
    Seq::new(
        t.len(),
        |i: int|
            if i < w * h * 4 {
                v_value(t, w, h, r, (i / 4) / w, (i / 4) % w, i % 4)
            } else {
                t[i]
            },
    )
}

/// `k` passes of horizontal then vertical averaging.
pub open spec fn blur_passes(s: Seq<u8>, w: int, h: int, r: int, k: nat) -> Seq<u8>
    decreases k,
{
    if k == 0 {
        s
    } else {
        vertical_pass(horizontal_pass(blur_passes(s, w, h, r, (k - 1) as nat), w, h, r), w, h, r)
    }
}

/// The result of `box_blur` on the bytes `s`.
pub open spec fn box_blur_result(s: Seq<u8>, width: nat, height: nat, radius: nat) -> Seq<u8> {
    if radius == 0 || width == 0 || height == 0 {
        s
    } else {
        blur_passes(s, width as int, height as int, pass_radius(radius) as int, blur_pass_count())
    }
}

/// A window of at most `n` pixels (and at most `2r + 1`) sums to a value that
/// fits in a `u32`.
pub open spec fn sums_fit(n: nat, r: nat) -> bool {
    255 * (if n < 2 * r + 1 {
        n
    } else {
        2 * r + 1
    }) <= u32::MAX
}

/// The inputs on which `box_blur` neither indexes out of bounds nor overflows.
pub open spec fn box_blur_accepts(len: nat, width: nat, height: nat, radius: nat) -> bool {
    radius == 0 || width == 0 || height == 0 || {
        &&& width * height * 4 <= len
        &&& sums_fit(width, pass_radius(radius))
        &&& sums_fit(height, pass_radius(radius))
    }
}

proof fn lemma_pixel_in_image(w: int, h: int, y: int, x: int)
    by (nonlinear_arith)
    requires
        0 <= y < h,
        0 <= x < w,
    ensures
        0 <= y * w,
        y * w + x < w * h,
        (y * w + x) * 4 + 3 < w * h * 4,
{
}

proof fn lemma_row_major_lt(w: int, yy: int, xx: int, y: int, x: int)
    by (nonlinear_arith)
    requires
        0 <= xx < w,
        0 <= x < w,
        0 <= yy,
        0 <= y,
        yy < y || (yy == y && xx < x),
    ensures
        yy * w + xx < y * w + x,
{
}

pub(crate) proof fn lemma_decompose(i: int, w: int, h: int)
    requires
        0 <= i < w * h * 4,
        w > 0,
        h > 0,
    ensures
        0 <= (i / 4) / w < h,
        0 <= (i / 4) % w < w,
        0 <= i % 4 < 4,
        i == (((i / 4) / w) * w + (i / 4) % w) * 4 + i % 4,
{
    let p = i / 4;
    lemma_fundamental_div_mod(i, 4);
    lemma_fundamental_div_mod(p, w);
    lemma_mod_pos_bound(i, 4);
    lemma_mod_pos_bound(p, w);
    assert(0 <= p < w * h);
    let y = p / w;
    assert(p == w * y + p % w);
    assert(0 <= y < h) by (nonlinear_arith)
        requires
            p == w * y + p % w,
            0 <= p % w < w,
            0 <= p < w * h,
            w > 0,
    ;
    assert(y * w == w * y) by (nonlinear_arith);
}

proof fn lemma_row_sum_bounds(s: Seq<u8>, w: int, y: int, c: int, lo: int, hi: int)
    requires
        lo <= hi,
    ensures
        0 <= row_sum(s, w, y, c, lo, hi) <= 255 * (hi - lo),
    decreases hi - lo,
{
    if hi > lo {
        lemma_row_sum_bounds(s, w, y, c, lo, hi - 1);
    }
}

proof fn lemma_col_sum_bounds(s: Seq<u8>, w: int, x: int, c: int, lo: int, hi: int)
    requires
        lo <= hi,
    ensures
        0 <= col_sum(s, w, x, c, lo, hi) <= 255 * (hi - lo),
    decreases hi - lo,
{
    if hi > lo {
        lemma_col_sum_bounds(s, w, x, c, lo, hi - 1);
    }
}

proof fn lemma_average_fits(sum: int, count: int)
    by (nonlinear_arith)
    requires
        count > 0,
        0 <= sum <= 255 * count,
    ensures
        0 <= sum / count <= 255,
{
}

/// Averages channel `c` of the horizontal window around `(x, y)`.
fn row_average(data: &[u8], w: usize, h: usize, y: usize, x: usize, r: usize, c: usize) -> (v: u8)
    requires
        0 < w,
        y < h,
        x < w,
        c < 4,
        w * h * 4 <= data@.len(),
        sums_fit(w as nat, r as nat),
        r <= usize::MAX / 3,
    ensures
        v == h_value(data@, w as int, r as int, y as int, x as int, c as int),
{
    let len = data.len();
    proof {
        lemma_pixel_in_image(w as int, h as int, y as int, (w - 1) as int);
        assert(w * 4 <= len) by (nonlinear_arith)
            requires
                w * h * 4 <= len,
                y < h,
        ;
    }
    let x_start = if x >= r { x - r } else { 0 };
    let x_end = if x + r + 1 <= w { x + r + 1 } else { w };
    let mut sum: u32 = 0;
    let mut sx = x_start;
    proof {
        assert(x_end - x_start <= 2 * r + 1);
        assert(255 * (x_end - x_start) <= u32::MAX);
    }
    while sx < x_end
        invariant
            x_start <= sx <= x_end <= w,
            255 * (x_end - x_start) <= u32::MAX,
            (y * w + (w - 1)) * 4 + 3 < w * h * 4,
            w * h * 4 <= data@.len(),
            data@.len() <= usize::MAX,
            c < 4,
            sum == row_sum(data@, w as int, y as int, c as int, x_start as int, sx as int),
        decreases x_end - sx,
    {
        proof {
            lemma_row_sum_bounds(data@, w as int, y as int, c as int, x_start as int, sx as int);
        }
        let idx = (y * w + sx) * 4 + c;
        sum = sum + data[idx] as u32;
        sx = sx + 1;
    }
    proof {
        lemma_row_sum_bounds(data@, w as int, y as int, c as int, x_start as int, x_end as int);
        lemma_average_fits(sum as int, (x_end - x_start) as int);
    }
    let count = (x_end - x_start) as u32;
    (sum / count) as u8
}

/// Averages channel `c` of the vertical window around `(x, y)`.
fn col_average(data: &[u8], w: usize, h: usize, y: usize, x: usize, r: usize, c: usize) -> (v: u8)
    requires
        0 < w,
        y < h,
        x < w,
        c < 4,
        w * h * 4 <= data@.len(),
        sums_fit(h as nat, r as nat),
        r <= usize::MAX / 3,
    ensures
        v == v_value(data@, w as int, h as int, r as int, y as int, x as int, c as int),
{
    let len = data.len();
    proof {
        assert(h * 4 <= len) by (nonlinear_arith)
            requires
                w * h * 4 <= len,
                0 < w,
        ;
    }
    let y_start = if y >= r { y - r } else { 0 };
    let y_end = if y + r + 1 <= h { y + r + 1 } else { h };
    let mut sum: u32 = 0;
    let mut sy = y_start;
    proof {
        assert(y_end - y_start <= 2 * r + 1);
        assert(255 * (y_end - y_start) <= u32::MAX);
    }
    while sy < y_end
        invariant
            y_start <= sy <= y_end <= h,
            x < w,
            255 * (y_end - y_start) <= u32::MAX,
            w * h * 4 <= data@.len(),
            data@.len() <= usize::MAX,
            c < 4,
            sum == col_sum(data@, w as int, x as int, c as int, y_start as int, sy as int),
        decreases y_end - sy,
    {
        proof {
            lemma_col_sum_bounds(data@, w as int, x as int, c as int, y_start as int, sy as int);
            lemma_pixel_in_image(w as int, h as int, sy as int, x as int);
        }
        let idx = (sy * w + x) * 4 + c;
        sum = sum + data[idx] as u32;
        sy = sy + 1;
    }
    proof {
        lemma_col_sum_bounds(data@, w as int, x as int, c as int, y_start as int, y_end as int);
        lemma_average_fits(sum as int, (y_end - y_start) as int);
    }
    let count = (y_end - y_start) as u32;
    (sum / count) as u8
}

/// One horizontal averaging pass: reads `src`, returns the averaged copy.
fn horizontal(src: &[u8], w: usize, h: usize, r: usize) -> (out: Vec<u8>)
    requires
        0 < w,
        0 < h,
        w * h * 4 <= src@.len(),
        sums_fit(w as nat, r as nat),
        r <= usize::MAX / 3,
    ensures
        out@ == horizontal_pass(src@, w as int, h as int, r as int),
{
    let mut temp = vstd::slice::slice_to_vec(src);
    let len = src.len();
    let ghost n = (w * h * 4) as int;
    let mut y: usize = 0;
    while y < h
        invariant
            0 < w,
            0 < h,
            y <= h,
            n == w * h * 4,
            n <= src@.len(),
            src@.len() == len,
            sums_fit(w as nat, r as nat),
            r <= usize::MAX / 3,
            temp@.len() == src@.len(),
            forall|i: int| n <= i < temp@.len() ==> temp@[i] == src@[i],
            forall|yy: int, xx: int, c: int|
                0 <= yy < y && 0 <= xx < w && 0 <= c < 4 ==> temp@[(yy * w + xx) * 4 + c]
                    == #[trigger] h_value(src@, w as int, r as int, yy, xx, c),
        decreases h - y,
    {
        let mut x: usize = 0;
        while x < w
            invariant
                0 < w,
                y < h,
                x <= w,
                n == w * h * 4,
                n <= src@.len(),
                src@.len() == len,
                sums_fit(w as nat, r as nat),
                r <= usize::MAX / 3,
                temp@.len() == src@.len(),
                forall|i: int| n <= i < temp@.len() ==> temp@[i] == src@[i],
                forall|yy: int, xx: int, c: int|
                    0 <= yy < h && 0 <= xx < w && 0 <= c < 4 && (yy < y || (yy == y && xx < x))
                        ==> temp@[(yy * w + xx) * 4 + c]
                        == #[trigger] h_value(src@, w as int, r as int, yy, xx, c),
            decreases w - x,
        {
            proof {
                lemma_pixel_in_image(w as int, h as int, y as int, x as int);
                lemma_pixel_in_image(w as int, h as int, y as int, (w - 1) as int);
            }
            let ghost before = temp@;
            let v0 = row_average(src, w, h, y, x, r, 0);
            let v1 = row_average(src, w, h, y, x, r, 1);
            let v2 = row_average(src, w, h, y, x, r, 2);
            let v3 = row_average(src, w, h, y, x, r, 3);
            let idx = (y * w + x) * 4;
            temp.set(idx, v0);
            temp.set(idx + 1, v1);
            temp.set(idx + 2, v2);
            temp.set(idx + 3, v3);
            proof {
                assert forall|yy: int, xx: int, c: int|
                    0 <= yy < h && 0 <= xx < w && 0 <= c < 4 && (yy < y || (yy == y && xx < x + 1))
                        implies temp@[(yy * w + xx) * 4 + c]
                        == #[trigger] h_value(src@, w as int, r as int, yy, xx, c) by {
                    if yy == y && xx == x {
                    } else {
                        lemma_row_major_lt(w as int, yy, xx, y as int, x as int);
                        assert(temp@[(yy * w + xx) * 4 + c] == before[(yy * w + xx) * 4 + c]);
                    }
                }
            }
            x = x + 1;
        }
        y = y + 1;
    }
    proof {
        let hp = horizontal_pass(src@, w as int, h as int, r as int);
        assert forall|i: int| 0 <= i < temp@.len() implies temp@[i] == hp[i] by {
            if i < n {
                lemma_decompose(i, w as int, h as int);
            }
        }
        assert(temp@ =~= hp);
    }
    temp
}

/// One vertical averaging pass: reads `temp`, writes the averages into `data`.
fn vertical(data: &mut [u8], temp: &[u8], w: usize, h: usize, r: usize)
    requires
        0 < w,
        0 < h,
        w * h * 4 <= temp@.len(),
        old(data)@.len() == temp@.len(),
        forall|i: int| w * h * 4 <= i < temp@.len() ==> old(data)@[i] == temp@[i],
        sums_fit(h as nat, r as nat),
        r <= usize::MAX / 3,
    ensures
        final(data)@ == vertical_pass(temp@, w as int, h as int, r as int),
{
    let len = temp.len();
    let ghost n = (w * h * 4) as int;
    let mut y: usize = 0;
    while y < h
        invariant
            0 < w,
            0 < h,
            y <= h,
            temp@.len() == len,
            n == w * h * 4,
            n <= temp@.len(),
            sums_fit(h as nat, r as nat),
            r <= usize::MAX / 3,
            data@.len() == temp@.len(),
            forall|i: int| n <= i < data@.len() ==> data@[i] == temp@[i],
            forall|yy: int, xx: int, c: int|
                0 <= yy < y && 0 <= xx < w && 0 <= c < 4 ==> data@[(yy * w + xx) * 4 + c]
                    == #[trigger] v_value(temp@, w as int, h as int, r as int, yy, xx, c),
        decreases h - y,
    {
        let mut x: usize = 0;
        while x < w
            invariant
                0 < w,
                y < h,
                x <= w,
                temp@.len() == len,
                n == w * h * 4,
                n <= temp@.len(),
                sums_fit(h as nat, r as nat),
                r <= usize::MAX / 3,
                data@.len() == temp@.len(),
                forall|i: int| n <= i < data@.len() ==> data@[i] == temp@[i],
                forall|yy: int, xx: int, c: int|
                    0 <= yy < h && 0 <= xx < w && 0 <= c < 4 && (yy < y || (yy == y && xx < x))
                        ==> data@[(yy * w + xx) * 4 + c]
                        == #[trigger] v_value(temp@, w as int, h as int, r as int, yy, xx, c),
            decreases w - x,
        {
            proof {
                lemma_pixel_in_image(w as int, h as int, y as int, x as int);
            }
            let ghost before = data@;
            let v0 = col_average(temp, w, h, y, x, r, 0);
            let v1 = col_average(temp, w, h, y, x, r, 1);
            let v2 = col_average(temp, w, h, y, x, r, 2);
            let v3 = col_average(temp, w, h, y, x, r, 3);
            let idx = (y * w + x) * 4;
            data[idx] = v0;
            data[idx + 1] = v1;
            data[idx + 2] = v2;
            data[idx + 3] = v3;
            proof {
                assert forall|yy: int, xx: int, c: int|
                    0 <= yy < h && 0 <= xx < w && 0 <= c < 4 && (yy < y || (yy == y && xx < x + 1))
                        implies data@[(yy * w + xx) * 4 + c]
                        == #[trigger] v_value(temp@, w as int, h as int, r as int, yy, xx, c) by {
                    if yy == y && xx == x {
                    } else {
                        lemma_row_major_lt(w as int, yy, xx, y as int, x as int);
                        assert(data@[(yy * w + xx) * 4 + c] == before[(yy * w + xx) * 4 + c]);
                    }
                }
            }
            x = x + 1;
        }
        y = y + 1;
    }
    proof {
        let vp = vertical_pass(temp@, w as int, h as int, r as int);
        assert forall|i: int| 0 <= i < data@.len() implies data@[i] == vp[i] by {
            if i < n {
                lemma_decompose(i, w as int, h as int);
            }
        }
        assert(data@ =~= vp);
    }
}

/// Apply a box blur to RGBA pixel data in-place.
///
/// This is a simple box blur that averages pixels within a radius.
/// Three passes of horizontal then vertical averaging, each with a third of
/// the radius (at least 1), approximate a Gaussian blur.
pub fn box_blur(data: &mut [u8], width: u32, height: u32, radius: usize)
    requires
        box_blur_accepts(old(data)@.len(), width as nat, height as nat, radius as nat),
    ensures
        final(data)@ == box_blur_result(old(data)@, width as nat, height as nat, radius as nat),
{
    if radius == 0 || width == 0 || height == 0 {
        return;
    }
    let w = width as usize;
    let h = height as usize;
    let passes: usize = 3;
    let pr = if radius / passes >= 1 { radius / passes } else { 1 };
    let ghost before = data@;
    let mut k: usize = 0;
    while k < passes
        invariant
            passes == 3,
            k <= passes,
            0 < w,
            0 < h,
            w == width,
            h == height,
            pr == pass_radius(radius as nat),
            pr <= usize::MAX / 3,
            w * h * 4 <= data@.len(),
            data@.len() == before.len(),
            sums_fit(w as nat, pr as nat),
            sums_fit(h as nat, pr as nat),
            data@ == blur_passes(before, w as int, h as int, pr as int, k as nat),
        decreases passes - k,
    {
        let temp = horizontal(data, w, h, pr);
        proof {
            let s = data@;
            let hp = horizontal_pass(s, w as int, h as int, pr as int);
            assert forall|i: int| w * h * 4 <= i < temp@.len() implies data@[i] == temp@[i] by {
                assert(hp[i] == s[i]);
            }
        }
        vertical(data, temp.as_slice(), w, h, pr);
        k = k + 1;
    }
}

/// Blurring with radius 0 (or an empty image) leaves the data unchanged.
pub proof fn lemma_blur_trivial(s: Seq<u8>, width: nat, height: nat, radius: nat)
    requires
        radius == 0 || width == 0 || height == 0,
    ensures
        box_blur_result(s, width, height, radius) == s,
{
}

/// Blurring keeps the length of the data and every byte past the image.
pub proof fn lemma_blur_keeps_tail(s: Seq<u8>, width: nat, height: nat, radius: nat, i: int)
    requires
        width * height * 4 <= i < s.len(),
    ensures
        box_blur_result(s, width, height, radius).len() == s.len(),
        box_blur_result(s, width, height, radius)[i] == s[i],
{
    if !(radius == 0 || width == 0 || height == 0) {
        lemma_passes_keep_tail(s, width as int, height as int, pass_radius(radius) as int, 3, i);
    }
}

proof fn lemma_passes_keep_tail(s: Seq<u8>, w: int, h: int, r: int, k: nat, i: int)
    requires
        0 <= w * h * 4 <= i < s.len(),
    ensures
        blur_passes(s, w, h, r, k).len() == s.len(),
        blur_passes(s, w, h, r, k)[i] == s[i],
    decreases k,
{
    if k > 0 {
        lemma_passes_keep_tail(s, w, h, r, (k - 1) as nat, i);
    }
}

/// Every pixel of the `w` x `h` RGBA image in `s` has the colour of the
/// first pixel.
pub open spec fn one_colour(s: Seq<u8>, w: int, h: int) -> bool {
    forall|i: int| 0 <= i < w * h * 4 ==> #[trigger] s[i] == s[i % 4]
}

/// Byte `c` of pixel `(x, y)` of a one-colour image is byte `c` of its
/// first pixel.
proof fn lemma_one_colour_pixel(s: Seq<u8>, w: int, h: int, y: int, x: int, c: int)
    requires
        one_colour(s, w, h),
        0 <= y < h,
        0 <= x < w,
        0 <= c < 4,
    ensures
        s[(y * w + x) * 4 + c] == s[c],
{
    lemma_pixel_in_image(w, h, y, x);
    let j = (y * w + x) * 4 + c;
    assert(j % 4 == c) by (nonlinear_arith)
        requires
            j == (y * w + x) * 4 + c,
            0 <= c < 4,
            0 <= y * w + x,
    ;
    assert(0 <= j < w * h * 4);
    assert(s[j] == s[j % 4]);
}

/// A window of a row of a one-colour image sums to the colour times its
/// width.
proof fn lemma_row_sum_one_colour(s: Seq<u8>, w: int, h: int, y: int, c: int, lo: int, hi: int)
    requires
        one_colour(s, w, h),
        0 <= y < h,
        0 <= c < 4,
        0 <= lo <= hi <= w,
    ensures
        row_sum(s, w, y, c, lo, hi) == (hi - lo) * s[c],
    decreases hi - lo,
{
    if hi > lo {
        lemma_row_sum_one_colour(s, w, h, y, c, lo, hi - 1);
        lemma_one_colour_pixel(s, w, h, y, hi - 1, c);
        assert((hi - 1 - lo) * s[c] + s[c] == (hi - lo) * s[c]) by (nonlinear_arith);
    } else {
        assert((hi - lo) * s[c] == 0) by (nonlinear_arith)
            requires
                hi == lo,
        ;
    }
}

/// A window of a column of a one-colour image sums to the colour times its
/// height.
proof fn lemma_col_sum_one_colour(s: Seq<u8>, w: int, h: int, x: int, c: int, lo: int, hi: int)
    requires
        one_colour(s, w, h),
        0 <= x < w,
        0 <= c < 4,
        0 <= lo <= hi <= h,
    ensures
        col_sum(s, w, x, c, lo, hi) == (hi - lo) * s[c],
    decreases hi - lo,
{
    if hi > lo {
        lemma_col_sum_one_colour(s, w, h, x, c, lo, hi - 1);
        lemma_one_colour_pixel(s, w, h, hi - 1, x, c);
        assert((hi - 1 - lo) * s[c] + s[c] == (hi - lo) * s[c]) by (nonlinear_arith);
    } else {
        assert((hi - lo) * s[c] == 0) by (nonlinear_arith)
            requires
                hi == lo,
        ;
    }
}

/// One horizontal and one vertical pass leave a one-colour image as it is.
proof fn lemma_passes_one_colour(s: Seq<u8>, w: int, h: int, r: int)
    requires
        one_colour(s, w, h),
        w > 0,
        h > 0,
        r >= 0,
        s.len() >= w * h * 4,
    ensures
        horizontal_pass(s, w, h, r) == s,
        vertical_pass(s, w, h, r) == s,
{
    let hp = horizontal_pass(s, w, h, r);
    assert forall|i: int| 0 <= i < s.len() implies #[trigger] hp[i] == s[i] by {
        if i < w * h * 4 {
            lemma_decompose(i, w, h);
            let y = (i / 4) / w;
            let x = (i / 4) % w;
            let c = i % 4;
            let lo = window_lo(x, r);
            let hi = window_hi(x, r, w);
            lemma_row_sum_one_colour(s, w, h, y, c, lo, hi);
            assert((hi - lo) * s[c] / (hi - lo) == s[c]) by (nonlinear_arith)
                requires
                    hi - lo > 0,
            ;
            assert(s[i] == s[i % 4]);
        }
    }
    assert(hp =~= s);
    let vp = vertical_pass(s, w, h, r);
    assert forall|i: int| 0 <= i < s.len() implies #[trigger] vp[i] == s[i] by {
        if i < w * h * 4 {
            lemma_decompose(i, w, h);
            let y = (i / 4) / w;
            let x = (i / 4) % w;
            let c = i % 4;
            let lo = window_lo(y, r);
            let hi = window_hi(y, r, h);
            lemma_col_sum_one_colour(s, w, h, x, c, lo, hi);
            assert((hi - lo) * s[c] / (hi - lo) == s[c]) by (nonlinear_arith)
                requires
                    hi - lo > 0,
            ;
            assert(s[i] == s[i % 4]);
        }
    }
    assert(vp =~= s);
}

proof fn lemma_blur_passes_one_colour(s: Seq<u8>, w: int, h: int, r: int, k: nat)
    requires
        one_colour(s, w, h),
        w > 0,
        h > 0,
        r >= 0,
        s.len() >= w * h * 4,
    ensures
        blur_passes(s, w, h, r, k) == s,
    decreases k,
{
    if k > 0 {
        lemma_blur_passes_one_colour(s, w, h, r, (k - 1) as nat);
        lemma_passes_one_colour(s, w, h, r);
    }
}

/// Blurring an image of one colour leaves it unchanged: every window
/// averages to that colour, whatever its size at the edges.
pub proof fn lemma_blur_one_colour(s: Seq<u8>, width: nat, height: nat, radius: nat)
    requires
        one_colour(s, width as int, height as int),
        s.len() >= width * height * 4,
    ensures
        box_blur_result(s, width, height, radius) == s,
{
    if !(radius == 0 || width == 0 || height == 0) {
        lemma_blur_passes_one_colour(
            s,
            width as int,
            height as int,
            pass_radius(radius) as int,
            blur_pass_count(),
        );
    }
}

} // verus!
