//! Turning a photo upright by its EXIF orientation.
//!
//! A JPEG file may say how the camera was held (EXIF tag 0x0112, values 1
//! to 8).  The viewer reads that value and then mirrors and turns the
//! decoded pixels so that the picture shows upright, as the `image` crate's
//! `fliph`, `flipv`, `rotate90`, `rotate180` and `rotate270` would.
use vstd::prelude::*;
use crate::blur::lemma_decompose;
use crate::imaging::RgbaPixels;
use crate::paths::{extension_of, path_extension};
use crate::text::{lowercase_of, str_eq, to_lowercase};

verus! {

/// The EXIF orientation that the `exif` crate reads from an image file's
/// bytes (`None` when there is no readable orientation).
pub uninterp spec fn exif_orientation_of(bytes: Seq<u8>) -> Option<u32>;

/// Reads the orientation from an image file held in memory.
///
/// Calls `exif::Reader::read_from_container` on the bytes, then
/// `Exif::get_field(Tag::Orientation, In::PRIMARY)` and `Value::get_uint(0)`.
/// The result is named, not described: the crate parses the JPEG, TIFF,
/// PNG, WebP or HEIF container and the EXIF structures in it.
#[verifier::external_body]
fn read_orientation(bytes: &[u8]) -> (r: Option<u32>)
    ensures
        r == exif_orientation_of(bytes@),
{
    let mut cursor = std::io::Cursor::new(bytes);
    match exif::Reader::new().read_from_container(&mut cursor) {
        Ok(e) => e.get_field(exif::Tag::Orientation, exif::In::PRIMARY).and_then(
            |f| f.value.get_uint(0),
        ),
        Err(_) => None,
    }
}

/// The orientation of a photo: its EXIF value, 1 (upright) when it has
/// none.
pub open spec fn orientation_of_bytes(bytes: Seq<u8>) -> u32 {
    match exif_orientation_of(bytes) {
        Some(o) => o,
        None => 1,
    }
}

/// The orientation in a file's bytes (see `orientation_of_bytes`).
pub fn exif_orientation(bytes: &[u8]) -> (o: u32)
    ensures
        o == orientation_of_bytes(bytes@),
{
    match read_orientation(bytes) {
        Some(o) => o,
        None => 1,
    }
}

/// Whether the path names a JPEG file (extension `jpg` or `jpeg`, in any
/// case): only those are turned by their orientation.
pub open spec fn is_jpeg_path(path: Seq<char>) -> bool {
    match path_extension(path) {
        Some(e) => lowercase_of(e) == "jpg"@ || lowercase_of(e) == "jpeg"@,
        None => false,
    }
}

/// The orientation the viewer applies to the file at `path` with contents
/// `bytes`: the EXIF value for a JPEG file, 1 for any other.
pub fn orientation_for_file(path: &str, bytes: &[u8]) -> (o: u32)
    ensures
        o == if is_jpeg_path(path@) {
            orientation_of_bytes(bytes@)
        } else {
            1
        },
{
    proof {
        reveal_strlit("jpg");
        reveal_strlit("jpeg");
    }
    let jpeg = match extension_of(path) {
        Some(e) => {
            let lower = to_lowercase(e);
            str_eq(lower.as_str(), "jpg") || str_eq(lower.as_str(), "jpeg")
        },
        None => false,
    };
    if jpeg {
        exif_orientation(bytes)
    } else {
        1
    }
}

/// The size of an image of `w` x `h` pixels once turned by orientation `o`:
/// the sides swap for 5 to 8, the quarter turns.
pub open spec fn oriented_size(o: u32, w: int, h: int) -> (int, int) {
    if 5 <= o && o <= 8 {
        (h, w)
    } else {
        (w, h)
    }
}

/// The source pixel of pixel `(x, y)` of the turned image.  2 mirrors left
/// to right (`fliph`), 3 turns half way (`rotate180`), 4 mirrors top to
/// bottom (`flipv`), 5 is `rotate90` then `fliph`, 6 is `rotate90` (a
/// quarter turn clockwise), 7 is `rotate270` then `fliph`, 8 is `rotate270`;
/// any other value leaves the image as it is.
pub open spec fn oriented_source(o: u32, w: int, h: int, x: int, y: int) -> (int, int) {
    if o == 2 {
        (w - 1 - x, y)
    } else if o == 3 {
        (w - 1 - x, h - 1 - y)
    } else if o == 4 {
        (x, h - 1 - y)
    } else if o == 5 {
        (y, x)
    } else if o == 6 {
        (y, h - 1 - x)
    } else if o == 7 {
        (w - 1 - y, h - 1 - x)
    } else if o == 8 {
        (w - 1 - y, x)
    } else {
        (x, y)
    }
}

/// Byte `i` of the turned RGBA image.
pub open spec fn oriented_byte(data: Seq<u8>, w: int, h: int, o: u32, i: int) -> u8 {
    let ow = oriented_size(o, w, h).0;
    let p = i / 4;
    let s = oriented_source(o, w, h, p % ow, p / ow);
    data[(s.1 * w + s.0) * 4 + i % 4]
}

/// The RGBA image `data` of `w` x `h` pixels turned by orientation `o`.
pub open spec fn oriented(data: Seq<u8>, w: int, h: int, o: u32) -> Seq<u8> {
    let (ow, oh) = oriented_size(o, w, h);
    Seq::new((ow * oh * 4) as nat, |i: int| oriented_byte(data, w, h, o, i))
}

/// The source pixel of `(x, y)` (see `oriented_source`).
fn source_of(o: u32, w: usize, h: usize, x: usize, y: usize) -> (r: (usize, usize))
    requires
        x < oriented_size(o, w as int, h as int).0,
        y < oriented_size(o, w as int, h as int).1,
    ensures
        (r.0 as int, r.1 as int) == oriented_source(o, w as int, h as int, x as int, y as int),
        r.0 < w,
        r.1 < h,
{
    if o == 2 {
        (w - 1 - x, y)
    } else if o == 3 {
        (w - 1 - x, h - 1 - y)
    } else if o == 4 {
        (x, h - 1 - y)
    } else if o == 5 {
        (y, x)
    } else if o == 6 {
        (y, h - 1 - x)
    } else if o == 7 {
        (w - 1 - y, h - 1 - x)
    } else if o == 8 {
        (w - 1 - y, x)
    } else {
        (x, y)
    }
}

/// The image turned upright by orientation `o` (see `oriented`).
pub fn orient(img: &RgbaPixels, o: u32) -> (r: RgbaPixels)
    requires
        img.data@.len() == img.width * img.height * 4,
    ensures
        (r.width as int, r.height as int) == oriented_size(o, img.width as int, img.height as int),
        r.data@ == oriented(img.data@, img.width as int, img.height as int, o),
        r.data@.len() == r.width * r.height * 4,
{
    let w = img.width as usize;
    let h = img.height as usize;
    let quarter = 5 <= o && o <= 8;
    let ow = if quarter {
        h
    } else {
        w
    };
    let oh = if quarter {
        w
    } else {
        h
    };
    let ghost data = img.data@;
    let dl = img.data.len();
    proof {
        assert(ow * oh == w * h) by (nonlinear_arith)
            requires
                (ow == w && oh == h) || (ow == h && oh == w),
        ;
    }
    let mut out: Vec<u8> = Vec::new();
    let mut y: usize = 0;
    proof {
        assert(0 * ow * 4 == 0) by (nonlinear_arith);
    }
    while y < oh
        invariant
            w == img.width,
            h == img.height,
            data == img.data@,
            data.len() == w * h * 4,
            dl == data.len(),
            (ow as int, oh as int) == oriented_size(o, w as int, h as int),
            ow * oh == w * h,
            y <= oh,
            out@.len() == y * ow * 4,
            forall|i: int|
                0 <= i < out@.len() ==> #[trigger] out@[i] == oriented_byte(
                    data,
                    w as int,
                    h as int,
                    o,
                    i,
                ),
        decreases oh - y,
    {
        let mut x: usize = 0;
        while x < ow
            invariant
                w == img.width,
                h == img.height,
                data == img.data@,
                data.len() == w * h * 4,
                dl == data.len(),
                (ow as int, oh as int) == oriented_size(o, w as int, h as int),
                ow * oh == w * h,
                y < oh,
                x <= ow,
                out@.len() == (y * ow + x) * 4,
                forall|i: int|
                    0 <= i < out@.len() ==> #[trigger] out@[i] == oriented_byte(
                        data,
                        w as int,
                        h as int,
                        o,
                        i,
                    ),
            decreases ow - x,
        {
            let (sx, sy) = source_of(o, w, h, x, y);
            let ghost p = y * ow + x;
            proof {
                assert((sy * w + sx) * 4 + 4 <= w * h * 4) by (nonlinear_arith)
                    requires
                        sx < w,
                        sy < h,
                ;
                assert(p % (ow as int) == x && p / (ow as int) == y) by (nonlinear_arith)
                    requires
                        p == y * ow + x,
                        x < ow,
                ;
                assert((y * ow + x) * 4 + 4 <= ow * oh * 4) by (nonlinear_arith)
                    requires
                        x < ow,
                        y < oh,
                ;
            }
            let base = (sy * w + sx) * 4;
            let ghost start = out@.len();
            out.push(img.data[base]);
            out.push(img.data[base + 1]);
            out.push(img.data[base + 2]);
            out.push(img.data[base + 3]);
            proof {
                assert forall|i: int| 0 <= i < out@.len() implies #[trigger] out@[i]
                    == oriented_byte(data, w as int, h as int, o, i) by {
                    if i >= start {
                        assert(start == p * 4);
                        assert(i / 4 == p && i % 4 == i - start) by (nonlinear_arith)
                            requires
                                start == p * 4,
                                start <= i < start + 4,
                        ;
                    }
                }
            }
            x = x + 1;
        }
        proof {
            assert((y * ow + ow) * 4 == (y + 1) * ow * 4) by (nonlinear_arith);
        }
        y = y + 1;
    }
    proof {
        assert(oh * ow * 4 == ow * oh * 4) by (nonlinear_arith);
        assert(out@ =~= oriented(data, w as int, h as int, o));
    }
    RgbaPixels { data: out, width: ow as u32, height: oh as u32 }
}


/// The orientation that undoes `o`: a quarter turn one way (6) is undone
/// by one the other way (8), and the rest undo themselves.
pub open spec fn undoing(o: u32) -> u32 {
    if o == 6 {
        8
    } else if o == 8 {
        6
    } else {
        o
    }
}

/// Pixel `(x, y)`, byte `c`, of an image `w` pixels wide sits at byte
/// `(y * w + x) * 4 + c`, and that position gives the pixel back.
proof fn lemma_join(x: int, y: int, c: int, w: int)
    requires
        0 <= x < w,
        0 <= y,
        0 <= c < 4,
    ensures
        ((y * w + x) * 4 + c) / 4 == y * w + x,
        ((y * w + x) * 4 + c) % 4 == c,
        (y * w + x) % w == x,
        (y * w + x) / w == y,
{
    assert(((y * w + x) * 4 + c) / 4 == y * w + x && ((y * w + x) * 4 + c) % 4 == c)
        by (nonlinear_arith)
        requires
            0 <= c < 4,
            0 <= y,
            0 <= x,
    ;
    assert((y * w + x) % w == x && (y * w + x) / w == y) by (nonlinear_arith)
        requires
            0 <= x < w,
            0 <= y,
    ;
}

/// Turning an image by an orientation and then by the one that undoes it
/// gives the image back.
pub proof fn lemma_orientation_round_trip(data: Seq<u8>, w: int, h: int, o: u32)
    requires
        w >= 0,
        h >= 0,
        data.len() == w * h * 4,
    ensures
        ({
            let (ow, oh) = oriented_size(o, w, h);
            oriented(oriented(data, w, h, o), ow, oh, undoing(o)) == data
        }),
{
    let (ow, oh) = oriented_size(o, w, h);
    let d1 = oriented(data, w, h, o);
    let d2 = oriented(d1, ow, oh, undoing(o));
    assert(oriented_size(undoing(o), ow, oh) == (w, h));
    assert(ow * oh == w * h) by (nonlinear_arith)
        requires
            (ow == w && oh == h) || (ow == h && oh == w),
    ;
    assert(d2.len() == data.len());
    assert forall|i: int| 0 <= i < data.len() implies #[trigger] d2[i] == data[i] by {
        assert(w > 0 && h > 0) by (nonlinear_arith)
            requires
                0 <= i < w * h * 4,
                w >= 0,
                h >= 0,
        ;
        lemma_decompose(i, w, h);
        let p = i / 4;
        let x = p % w;
        let y = p / w;
        let c = i % 4;
        let s = oriented_source(undoing(o), ow, oh, x, y);
        assert(0 <= s.0 < ow && 0 <= s.1 < oh);
        lemma_join(s.0, s.1, c, ow);
        let j = (s.1 * ow + s.0) * 4 + c;
        assert(0 <= j < ow * oh * 4) by (nonlinear_arith)
            requires
                j == (s.1 * ow + s.0) * 4 + c,
                0 <= s.0 < ow,
                0 <= s.1 < oh,
                0 <= c < 4,
        ;
        assert(d2[i] == d1[j]);
        assert(oriented_source(o, w, h, s.0, s.1) == (x, y));
        assert(d1[j] == data[(y * w + x) * 4 + c]);
    }
    assert(d2 =~= data);
}

/// Where the source's top corners end up: its top-left pixel stays put for
/// 1 and 5, goes to the top-right corner for 2 and 6 (6 turns the image a
/// quarter clockwise), to the bottom-right for 3 and 7 and to the
/// bottom-left for 4 and 8; its top-right pixel goes to the top-right for
/// 1 and 7, the top-left for 2 and 8, the bottom-left for 3 and 5, and the
/// bottom-right for 4 and 6.  Other values count as 1.
pub proof fn lemma_orientation_corners(data: Seq<u8>, w: int, h: int, o: u32, c: int)
    requires
        w > 0,
        h > 0,
        data.len() == w * h * 4,
        0 <= c < 4,
    ensures
        ({
            let out = oriented(data, w, h, o);
            let (ow, oh) = oriented_size(o, w, h);
            let k = if 1 <= o && o <= 8 { o } else { 1 };
            let tl = if k == 1 || k == 5 {
                (0, 0)
            } else if k == 2 || k == 6 {
                (ow - 1, 0)
            } else if k == 3 || k == 7 {
                (ow - 1, oh - 1)
            } else {
                (0, oh - 1)
            };
            let tr = if k == 1 || k == 7 {
                (ow - 1, 0)
            } else if k == 2 || k == 8 {
                (0, 0)
            } else if k == 3 || k == 5 {
                (0, oh - 1)
            } else {
                (ow - 1, oh - 1)
            };
            &&& out[(tl.1 * ow + tl.0) * 4 + c] == data[c]
            &&& out[(tr.1 * ow + tr.0) * 4 + c] == data[(w - 1) * 4 + c]
        }),
{
    let out = oriented(data, w, h, o);
    let (ow, oh) = oriented_size(o, w, h);
    assert(ow > 0 && oh > 0);
    assert(ow * oh * 4 == w * h * 4) by (nonlinear_arith)
        requires
            (ow == w && oh == h) || (ow == h && oh == w),
    ;
    let k = if 1 <= o && o <= 8 { o } else { 1 };
    let tl = if k == 1 || k == 5 {
        (0int, 0int)
    } else if k == 2 || k == 6 {
        (ow - 1, 0)
    } else if k == 3 || k == 7 {
        (ow - 1, oh - 1)
    } else {
        (0, oh - 1)
    };
    let tr = if k == 1 || k == 7 {
        (ow - 1, 0int)
    } else if k == 2 || k == 8 {
        (0int, 0int)
    } else if k == 3 || k == 5 {
        (0, oh - 1)
    } else {
        (ow - 1, oh - 1)
    };
    lemma_join(tl.0, tl.1, c, ow);
    lemma_join(tr.0, tr.1, c, ow);
    assert((tl.1 * ow + tl.0) * 4 + c < ow * oh * 4) by (nonlinear_arith)
        requires
            0 <= tl.0 < ow,
            0 <= tl.1 < oh,
            0 <= c < 4,
    ;
    assert((tr.1 * ow + tr.0) * 4 + c < ow * oh * 4) by (nonlinear_arith)
        requires
            0 <= tr.0 < ow,
            0 <= tr.1 < oh,
            0 <= c < 4,
    ;
    assert(oriented_source(o, w, h, tl.0, tl.1) == (0int, 0int));
    assert(oriented_source(o, w, h, tr.0, tr.1) == (w - 1, 0int));
    assert((0 * w + 0) * 4 + c == c);
    assert((0 * w + (w - 1)) * 4 + c == (w - 1) * 4 + c);
}

} // verus!
