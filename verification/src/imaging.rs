//! Decoding, scaling and encoding of RGBA images through the `image` crate,
//! and checks on raw RGBA buffers.
use vstd::prelude::*;
use image::AnimationDecoder;

verus! {

/// The RGBA8 pixels and size that `image::load_from_memory` followed by
/// `DynamicImage::to_rgba8` give for `bytes` (`None` when decoding fails).
pub uninterp spec fn decoded_rgba(bytes: Seq<u8>) -> Option<(Seq<u8>, u32, u32)>;

/// The RGBA8 pixels and size of `DynamicImage::thumbnail(size, size)` on the
/// RGBA8 image `data` of `width` x `height`.
pub uninterp spec fn thumbnail_pixels(data: Seq<u8>, width: u32, height: u32, size: u32) -> (Seq<u8>, u32, u32);

/// The PNG file that `RgbaImage::write_to(.., ImageFormat::Png)` writes for the
/// RGBA8 image `data` of `width` x `height` (`None` when encoding fails).
pub uninterp spec fn png_encoding(data: Seq<u8>, width: u32, height: u32) -> Option<Seq<u8>>;

/// The frames of a GIF file as the `image` crate's GIF decoder gives them:
/// for each, its RGBA8 pixels, width, height, and its delay as the
/// numerator and denominator of a number of milliseconds (`None` when the
/// file cannot be decoded as a GIF).
pub uninterp spec fn gif_frames_of(bytes: Seq<u8>) -> Option<Seq<(Seq<u8>, u32, u32, u32, u32)>>;

/// Decodes every frame of a GIF file held in memory.
///
/// Calls `image::codecs::gif::GifDecoder::new`, then
/// `AnimationDecoder::into_frames` and `Frames::collect_frames`; of each
/// `Frame`, `Delay::numer_denom_ms` and `Frame::into_buffer`.  The frames
/// are named, not described; stated is that each buffer holds four bytes
/// per pixel.
#[verifier::external_body]
pub(crate) fn decode_gif_frames(bytes: &[u8]) -> (r: Option<Vec<(Vec<u8>, u32, u32, u32, u32)>>)
    ensures
        match r {
            Some(v) => gif_frames_of(bytes@) == Some(
                v@.map_values(|f: (Vec<u8>, u32, u32, u32, u32)| (f.0@, f.1, f.2, f.3, f.4)),
            ) && forall|i: int| 0 <= i < v@.len() ==> #[trigger] v@[i].0@.len() == v@[i].1 * v@[i].2 * 4,
            None => gif_frames_of(bytes@) is None,
        },
{
    let decoder = image::codecs::gif::GifDecoder::new(std::io::Cursor::new(bytes)).ok()?;
    let frames = decoder.into_frames().collect_frames().ok()?;
    let mut out = Vec::new();
    for f in frames {
        let (n, d) = f.delay().numer_denom_ms();
        let buffer = f.into_buffer();
        let (w, h) = buffer.dimensions();
        out.push((buffer.into_raw(), w, h, n, d));
    }
    Some(out)
}

/// How long a GIF frame stays, in milliseconds: its delay rounded down to
/// whole milliseconds (100 when the delay has no denominator), at least 10.
pub open spec fn frame_delay_ms(numer: u32, denom: u32) -> u64 {
    let d = if denom > 0 {
        numer / denom
    } else {
        100
    };
    if d < 10 {
        10
    } else {
        d as u64
    }
}

/// A frame never stays under 10 ms; a frame with no denominator stays
/// 100 ms; otherwise a delay of at least 10 ms is the whole number of
/// milliseconds `ms` with `ms * denom <= numer < (ms + 1) * denom`.
pub proof fn lemma_frame_delay(numer: u32, denom: u32, ms: nat)
    ensures
        frame_delay_ms(numer, denom) >= 10,
        denom == 0 ==> frame_delay_ms(numer, denom) == 100,
        denom > 0 && numer < 10 * denom ==> frame_delay_ms(numer, denom) == 10,
        denom > 0 && ms >= 10 && ms * denom <= numer < (ms + 1) * denom ==> frame_delay_ms(
            numer,
            denom,
        ) == ms,
{
    if denom > 0 {
        let n = numer as nat;
        let d = denom as nat;
        if n < 10 * d {
            assert(n / d < 10) by (nonlinear_arith)
                requires
                    n < 10 * d,
                    d > 0,
            ;
        }
        if ms * d <= n < (ms + 1) * d {
            assert(n / d == ms) by (nonlinear_arith)
                requires
                    ms * d <= n < (ms + 1) * d,
                    d > 0,
            ;
        }
    }
}

/// One frame of an animation.
#[derive(Debug, Clone)]
pub struct AnimationFrame {
    pub pixels: RgbaPixels,
    /// How long the frame stays, in milliseconds.
    pub delay_ms: u64,
}

/// The frames of an animated GIF held in memory: `Some` only when the file
/// decodes as a GIF with more than one frame (a single frame is shown as a
/// still image); each frame keeps its pixels, with its delay as
/// `frame_delay_ms` gives it.
pub fn animation_frames(bytes: &[u8]) -> (r: Option<Vec<AnimationFrame>>)
    ensures
        match gif_frames_of(bytes@) {
            Some(fs) => if fs.len() > 1 {
                r matches Some(v) && v@.len() == fs.len() && forall|i: int|
                    0 <= i < fs.len() ==> {
                        let f = #[trigger] fs[i];
                        &&& v@[i].pixels.data@ == f.0
                        &&& v@[i].pixels.width == f.1
                        &&& v@[i].pixels.height == f.2
                        &&& v@[i].delay_ms == frame_delay_ms(f.3, f.4)
                    }
            } else {
                r is None
            },
            None => r is None,
        },
{
    let frames = match decode_gif_frames(bytes) {
        Some(f) => f,
        None => {
            return None;
        },
    };
    let ghost fs = frames@.map_values(
        |f: (Vec<u8>, u32, u32, u32, u32)| (f.0@, f.1, f.2, f.3, f.4),
    );
    if frames.len() <= 1 {
        return None;
    }
    let mut out: Vec<AnimationFrame> = Vec::new();
    let mut rest = frames;
    let n = rest.len();
    let mut i: usize = 0;
    while i < n
        invariant
            n == fs.len(),
            i <= n,
            rest@.len() == n,
            forall|j: int|
                i <= j < n ==> (#[trigger] rest@[j]).0@ == fs[j].0 && rest@[j].1 == fs[j].1
                    && rest@[j].2 == fs[j].2 && rest@[j].3 == fs[j].3 && rest@[j].4 == fs[j].4,
            out@.len() == i,
            forall|j: int|
                0 <= j < i ==> {
                    let f = #[trigger] fs[j];
                    &&& out@[j].pixels.data@ == f.0
                    &&& out@[j].pixels.width == f.1
                    &&& out@[j].pixels.height == f.2
                    &&& out@[j].delay_ms == frame_delay_ms(f.3, f.4)
                },
        decreases n - i,
    {
        let mut slot: (Vec<u8>, u32, u32, u32, u32) = (Vec::new(), 0, 0, 0, 0);
        std::mem::swap(&mut slot, &mut rest[i]);
        let (data, w, h, num, den) = slot;
        let d: u32 = if den > 0 {
            num / den
        } else {
            100
        };
        let delay: u64 = if d < 10 {
            10
        } else {
            d as u64
        };
        out.push(AnimationFrame { pixels: RgbaPixels { data, width: w, height: h }, delay_ms: delay });
        i = i + 1;
    }
    Some(out)
}

/// The RGBA8 pixels and size that `image::open` gives for a file at `path`
/// holding `bytes`: the format named by the path's extension, then
/// `DynamicImage::to_rgba8` (`None` when the extension names no format or
/// decoding fails).
pub uninterp spec fn decoded_file_rgba(path: Seq<char>, bytes: Seq<u8>) -> Option<(Seq<u8>, u32, u32)>;

/// Decodes the contents of an image file in the format its extension
/// names, as `image::open` does.
///
/// Calls `image::ImageFormat::from_path`, then
/// `image::load_from_memory_with_format`, `DynamicImage::to_rgba8` and
/// `ImageBuffer::into_raw`.  The result is named, not described; stated is
/// that the buffer holds four bytes per pixel.
#[verifier::external_body]
pub(crate) fn decode_rgba_by_extension(path: &str, bytes: &[u8]) -> (r: Option<(Vec<u8>, u32, u32)>)
    ensures
        match r {
            Some((d, w, h)) => decoded_file_rgba(path@, bytes@) == Some((d@, w, h)) && d@.len() == w * h * 4,
            None => decoded_file_rgba(path@, bytes@) is None,
        },
{
    let format = match image::ImageFormat::from_path(path) {
        Ok(f) => f,
        Err(_) => return None,
    };
    match image::load_from_memory_with_format(bytes, format) {
        Ok(img) => {
            let rgba = img.to_rgba8();
            let (w, h) = rgba.dimensions();
            Some((rgba.into_raw(), w, h))
        },
        Err(_) => None,
    }
}

/// Decodes the contents `bytes` of the image file at `path`, in the format
/// its extension names.
pub fn decode_image_file(path: &str, bytes: &[u8]) -> (r: Result<RgbaPixels, ImagingError>)
    ensures
        match decoded_file_rgba(path@, bytes@) {
            Some((d, w, h)) => r matches Ok(p) && p.data@ == d && p.width == w && p.height == h,
            None => r == Err::<RgbaPixels, ImagingError>(ImagingError::Decode),
        },
{
    match decode_rgba_by_extension(path, bytes) {
        Some((data, width, height)) => Ok(RgbaPixels { data, width, height }),
        None => Err(ImagingError::Decode),
    }
}

/// Decodes an image file held in memory into RGBA8 pixels.
///
/// Calls `image::load_from_memory` (format guessed from the content), then
/// `DynamicImage::to_rgba8` and `ImageBuffer::into_raw`.  The result is
/// named, not described; the one fact stated is that the buffer of an
/// `RgbaImage` holds exactly four bytes per pixel.
#[verifier::external_body]
pub(crate) fn decode_rgba(bytes: &[u8]) -> (r: Option<(Vec<u8>, u32, u32)>)
    ensures
        match r {
            Some((d, w, h)) => decoded_rgba(bytes@) == Some((d@, w, h)) && d@.len() == w * h * 4,
            None => decoded_rgba(bytes@) is None,
        },
{
    match image::load_from_memory(bytes) {
        Ok(img) => {
            let rgba = img.to_rgba8();
            let (w, h) = rgba.dimensions();
            Some((rgba.into_raw(), w, h))
        },
        Err(_) => None,
    }
}

/// Scales an RGBA8 image down to fit in a `size` x `size` square, keeping
/// its aspect ratio.
///
/// Calls `ImageBuffer::from_raw`, then `DynamicImage::thumbnail(size, size)`
/// and `DynamicImage::to_rgba8`.  The pixels are named; stated are the
/// buffer length (four bytes per pixel) and that each side is at least 1 and
/// at most `size` (or 1), which is how `thumbnail` sizes its result.
#[verifier::external_body]
pub(crate) fn thumbnail_rgba(data: &[u8], width: u32, height: u32, size: u32) -> (r: (Vec<u8>, u32, u32))
    requires
        data@.len() == width * height * 4,
    ensures
        thumbnail_pixels(data@, width, height, size) == (r.0@, r.1, r.2),
        r.0@.len() == r.1 * r.2 * 4,
        1 <= r.1 && (r.1 <= size || r.1 == 1),
        1 <= r.2 && (r.2 <= size || r.2 == 1),
{
    let img = image::RgbaImage::from_raw(width, height, data.to_vec()).unwrap();
    let thumb = image::DynamicImage::ImageRgba8(img).thumbnail(size, size).to_rgba8();
    let (w, h) = thumb.dimensions();
    (thumb.into_raw(), w, h)
}

/// Encodes an RGBA8 image as a PNG file.
///
/// Calls `ImageBuffer::from_raw` and `ImageBuffer::write_to` with
/// `ImageFormat::Png` into memory.  The bytes are named, not described.
#[verifier::external_body]
pub(crate) fn encode_png(data: &[u8], width: u32, height: u32) -> (r: Option<Vec<u8>>)
    requires
        data@.len() == width * height * 4,
    ensures
        match r {
            Some(p) => png_encoding(data@, width, height) == Some(p@),
            None => png_encoding(data@, width, height) is None,
        },
{
    let img = image::RgbaImage::from_raw(width, height, data.to_vec()).unwrap();
    let mut out: Vec<u8> = Vec::new();
    match img.write_to(&mut std::io::Cursor::new(&mut out), image::ImageFormat::Png) {
        Ok(()) => Some(out),
        Err(_) => None,
    }
}

/// Why an image could not be turned into what was asked.
#[derive(Debug, Clone, Copy, PartialEq, Eq, Structural)]
pub enum ImagingError {
    /// The bytes are not an image the decoder understands.
    Decode,
    /// The PNG encoder refused the image.
    Encode,
    /// The pixel buffer is smaller than the stated size needs.
    BufferTooSmall,
}

/// A decoded RGBA8 image.
#[derive(Debug, Clone)]
pub struct RgbaPixels {
    pub data: Vec<u8>,
    pub width: u32,
    pub height: u32,
}

/// Decodes an image file held in memory into RGBA8 pixels.
pub fn decode_image(bytes: &[u8]) -> (r: Result<RgbaPixels, ImagingError>)
    ensures
        match decoded_rgba(bytes@) {
            Some((d, w, h)) => r matches Ok(p) && p.data@ == d && p.width == w && p.height == h,
            None => r == Err::<RgbaPixels, ImagingError>(ImagingError::Decode),
        },
{
    match decode_rgba(bytes) {
        Some((data, width, height)) => Ok(RgbaPixels { data, width, height }),
        None => Err(ImagingError::Decode),
    }
}

/// Encodes an RGBA8 image as PNG.  Only the first `width * height` pixels of
/// `data` are used; a shorter buffer is refused.
pub fn rgba_to_png(data: &[u8], width: u32, height: u32) -> (r: Result<Vec<u8>, ImagingError>)
    ensures
        (data@.len() as int) < width as int * height as int * 4 ==> r == Err::<Vec<u8>, ImagingError>(
            ImagingError::BufferTooSmall,
        ),
        (data@.len() as int) >= width as int * height as int * 4 ==> match png_encoding(
            data@.take(width * height * 4),
            width,
            height,
        ) {
            Some(p) => r matches Ok(q) && q@ == p,
            None => r == Err::<Vec<u8>, ImagingError>(ImagingError::Encode),
        },
{
    proof {
        assert(width as int * height as int <= 0xffffffff * 0xffffffff) by (nonlinear_arith)
            requires
                width <= 0xffffffffu32,
                height <= 0xffffffffu32,
        ;
    }
    let needed: u128 = (width as u128) * (height as u128) * 4;
    if (data.len() as u128) < needed {
        return Err(ImagingError::BufferTooSmall);
    }
    let n = needed as usize;
    let (used, _) = data.split_at(n);
    match encode_png(used, width, height) {
        Some(p) => Ok(p),
        None => Err(ImagingError::Encode),
    }
}

/// Whether every complete pixel of an RGBA buffer has alpha 0.
pub open spec fn all_transparent(data: Seq<u8>) -> bool {
    forall|k: int| 0 <= k < data.len() / 4 ==> #[trigger] data[4 * k + 3] == 0
}

/// Whether an RGBA buffer is fully transparent (nothing was drawn).
///
/// A trailing partial pixel is only looked at when every complete pixel is
/// transparent, and then it has no alpha byte to read: such buffers are not
/// accepted.
pub fn is_fully_transparent(data: &[u8]) -> (b: bool)
    requires
        data@.len() % 4 == 0 || !all_transparent(data@),
    ensures
        b == all_transparent(data@),
{
    let len = data.len();
    let n = len / 4;
    let mut k: usize = 0;
    while k < n
        invariant
            n == data@.len() / 4,
            len == data@.len(),
            k <= n,
            forall|j: int| 0 <= j < k ==> #[trigger] data@[4 * j + 3] == 0,
        decreases n - k,
    {
        if data[4 * k + 3] != 0 {
            return false;
        }
        k = k + 1;
    }
    true
}

} // verus!
