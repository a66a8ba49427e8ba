//! Which backend opens a file, by its extension, and the image files of a
//! directory that the viewer steps through.
use vstd::prelude::*;
use crate::gallery::has_image_extension;
use crate::paths::{extension_of, path_extension};
use crate::sorting::{
    chars_le, is_sorted_by, lemma_chars_le_total, lemma_chars_le_transitive, lemma_sorted_by_sorts,
    sorted_by, stable_sort_by, str_le, total_preorder,
};
use crate::text::{lowercase_of, str_eq, to_lowercase};

verus! {

/// The format backends.
#[derive(Debug, Clone, Copy, PartialEq, Eq, Structural)]
pub enum BackendKind {
    /// PDF documents (rendered on the calling thread).
    Pdf,
    /// SVG drawings.
    Svg,
    /// Raster images.
    Image,
}

/// Whether a lower-case extension is one the raster image backend decodes.
pub open spec fn is_raster_extension(e: Seq<char>) -> bool {
    ||| e == "png"@
    ||| e == "jpg"@
    ||| e == "jpeg"@
    ||| e == "gif"@
    ||| e == "webp"@
    ||| e == "bmp"@
    ||| e == "tiff"@
    ||| e == "tif"@
    ||| e == "ico"@
    ||| e == "avif"@
    ||| e == "qoi"@
    ||| e == "ppm"@
    ||| e == "pgm"@
    ||| e == "pbm"@
    ||| e == "tga"@
    ||| e == "dds"@
    ||| e == "exr"@
    ||| e == "ff"@
    ||| e == "apng"@
}

/// The backend for a lower-case extension.
pub open spec fn kind_for_extension(e: Seq<char>) -> Option<BackendKind> {
    if e == "pdf"@ {
        Some(BackendKind::Pdf)
    } else if e == "svg"@ || e == "svgz"@ {
        Some(BackendKind::Svg)
    } else if is_raster_extension(e) {
        Some(BackendKind::Image)
    } else {
        None
    }
}

/// The backend for the file at `path`, by its extension in any case.
pub open spec fn kind_for_path(path: Seq<char>) -> Option<BackendKind> {
    match path_extension(path) {
        Some(e) => kind_for_extension(lowercase_of(e)),
        None => None,
    }
}

fn kind_of_extension(e: &str) -> (k: Option<BackendKind>)
    ensures
        k == kind_for_extension(e@),
{
    if str_eq(e, "pdf") {
        Some(BackendKind::Pdf)
    } else if str_eq(e, "svg") || str_eq(e, "svgz") {
        Some(BackendKind::Svg)
    } else if str_eq(e, "png") || str_eq(e, "jpg") || str_eq(e, "jpeg") || str_eq(e, "gif")
        || str_eq(e, "webp") || str_eq(e, "bmp") || str_eq(e, "tiff") || str_eq(e, "tif")
        || str_eq(e, "ico") || str_eq(e, "avif") || str_eq(e, "qoi") || str_eq(e, "ppm")
        || str_eq(e, "pgm") || str_eq(e, "pbm") || str_eq(e, "tga") || str_eq(e, "dds")
        || str_eq(e, "exr") || str_eq(e, "ff") || str_eq(e, "apng") {
        Some(BackendKind::Image)
    } else {
        None
    }
}

/// Detect the backend for a file based on its extension.
pub fn backend_for_path(path: &str) -> (k: Option<BackendKind>)
    ensures
        k == kind_for_path(path@),
{
    match extension_of(path) {
        Some(e) => {
            let lower = to_lowercase(e);
            kind_of_extension(lower.as_str())
        },
        None => None,
    }
}

/// Detect the backend for a file among those that can load on another
/// thread (all but PDF).
pub fn sendable_backend_for_path(path: &str) -> (k: Option<BackendKind>)
    ensures
        kind_for_path(path@) == Some(BackendKind::Pdf) ==> k is None,
        kind_for_path(path@) != Some(BackendKind::Pdf) ==> k == kind_for_path(path@),
{
    match backend_for_path(path) {
        Some(BackendKind::Pdf) => None,
        other => other,
    }
}

/// A PDF file: loaded on the calling thread.
pub fn loads_in_foreground(path: &str) -> (b: bool)
    ensures
        b == (match path_extension(path@) {
            Some(e) => lowercase_of(e) == "pdf"@,
            None => false,
        }),
{
    match extension_of(path) {
        Some(e) => {
            let lower = to_lowercase(e);
            str_eq(lower.as_str(), "pdf")
        },
        None => false,
    }
}

/// The order of paths in a directory listing (that of their text; within
/// one directory it is the order of the file names).
pub open spec fn path_order() -> spec_fn(String, String) -> bool {
    |a: String, b: String| chars_le(a@, b@)
}

/// The image files among the paths of a directory listing.
pub open spec fn image_paths(listing: Seq<String>) -> Seq<String> {
    listing.filter(|p: String| has_image_extension(p@))
}

/// The image files of a directory listing, sorted: the files the viewer
/// steps through with next and previous.
pub fn sibling_images(listing: Vec<String>) -> (r: Vec<String>)
    ensures
        r@ == sorted_by(image_paths(listing@), path_order()),
{
    let mut kept: Vec<String> = Vec::new();
    let mut rest = listing;
    let ghost all = rest@;
    let n = rest.len();
    let mut rev: Vec<String> = Vec::new();
    while rest.len() > 0
        invariant
            rev@ + rest@.reverse() =~= all.reverse(),
        decreases rest@.len(),
    {
        let x = rest.pop().unwrap();
        proof {
            assert(rest@.push(x).reverse() =~= seq![x] + rest@.reverse());
        }
        rev.push(x);
    }
    proof {
        assert(rev@ =~= all.reverse());
        assert(all.take(0) =~= Seq::<String>::empty());
        reveal(Seq::filter);
    }
    let mut k: usize = 0;
    while k < n
        invariant
            k <= n,
            n == all.len(),
            rev@.len() == n - k,
            forall|i: int| 0 <= i < n - k ==> #[trigger] rev@[i] == all[n - 1 - i],
            kept@ == image_paths(all.take(k as int)),
        decreases n - k,
    {
        let x = rev.pop().unwrap();
        proof {
            assert(x == all[k as int]);
            assert(all.take(k + 1).drop_last() =~= all.take(k as int));
            reveal(Seq::filter);
        }
        if crate::gallery::is_image_path(x.as_str()) {
            kept.push(x);
        }
        k = k + 1;
    }
    proof {
        assert(all.take(n as int) =~= all);
    }
    let le = |a: &String, b: &String| -> (r: bool)
        ensures
            r == chars_le(a@, b@),
        { str_le(a.as_str(), b.as_str()) };
    stable_sort_by(kept, le, Ghost(path_order()))
}

/// The viewer steps through exactly the image files of the listing, in
/// order of their paths.
pub proof fn lemma_siblings_in_order(listing: Seq<String>)
    ensures
        is_sorted_by(sorted_by(image_paths(listing), path_order()), path_order()),
        sorted_by(image_paths(listing), path_order()).to_multiset() == image_paths(
            listing,
        ).to_multiset(),
{
    let le = path_order();
    assert forall|a: String, b: String| #[trigger] le(a, b) || #[trigger] le(b, a) by {
        lemma_chars_le_total(a@, b@);
    }
    assert forall|a: String, b: String, c: String| #[trigger] le(a, b) && #[trigger] le(b, c) implies le(
        a,
        c,
    ) by {
        lemma_chars_le_transitive(a@, b@, c@);
    }
    lemma_sorted_by_sorts(image_paths(listing), path_order());
}


/// Which backend opens a file, by its extension in any case (lower-cased
/// as `str::to_lowercase` does): `pdf` the PDF backend, `svg` and `svgz`
/// the SVG backend, and png, jpg, jpeg, gif, webp, bmp, tiff, tif, ico,
/// avif, qoi, ppm, pgm, pbm, tga, dds, exr, ff and apng the image backend;
/// none for any other extension or a path without one.
pub proof fn lemma_backend_by_extension(p: Seq<char>)
    ensures
        kind_for_path(p) == match path_extension(p) {
            Some(e) => {
                let l = lowercase_of(e);
                if l == seq!['p', 'd', 'f'] {
                    Some(BackendKind::Pdf)
                } else if l == seq!['s', 'v', 'g'] || l == seq!['s', 'v', 'g', 'z'] {
                    Some(BackendKind::Svg)
                } else if l == seq!['p', 'n', 'g'] || l == seq!['j', 'p', 'g'] || l == seq!['j', 'p', 'e', 'g'] || l == seq!['g', 'i', 'f'] || l == seq!['w', 'e', 'b', 'p'] || l == seq!['b', 'm', 'p'] || l == seq!['t', 'i', 'f', 'f'] || l == seq!['t', 'i', 'f'] || l == seq!['i', 'c', 'o'] || l == seq!['a', 'v', 'i', 'f'] || l == seq!['q', 'o', 'i'] || l == seq!['p', 'p', 'm'] || l == seq!['p', 'g', 'm'] || l == seq!['p', 'b', 'm'] || l == seq!['t', 'g', 'a'] || l == seq!['d', 'd', 's'] || l == seq!['e', 'x', 'r'] || l == seq!['f', 'f'] || l == seq!['a', 'p', 'n', 'g'] {
                    Some(BackendKind::Image)
                } else {
                    None
                }
            },
            None => None,
        },
{
    reveal_strlit("png");
    reveal_strlit("jpg");
    reveal_strlit("jpeg");
    reveal_strlit("gif");
    reveal_strlit("webp");
    reveal_strlit("bmp");
    reveal_strlit("tiff");
    reveal_strlit("tif");
    reveal_strlit("ico");
    reveal_strlit("avif");
    reveal_strlit("qoi");
    reveal_strlit("ppm");
    reveal_strlit("pgm");
    reveal_strlit("pbm");
    reveal_strlit("tga");
    reveal_strlit("dds");
    reveal_strlit("exr");
    reveal_strlit("ff");
    reveal_strlit("apng");
    reveal_strlit("pdf");
    reveal_strlit("svg");
    reveal_strlit("svgz");
    assert("png"@ =~= seq!['p', 'n', 'g']);
    assert("jpg"@ =~= seq!['j', 'p', 'g']);
    assert("jpeg"@ =~= seq!['j', 'p', 'e', 'g']);
    assert("gif"@ =~= seq!['g', 'i', 'f']);
    assert("webp"@ =~= seq!['w', 'e', 'b', 'p']);
    assert("bmp"@ =~= seq!['b', 'm', 'p']);
    assert("tiff"@ =~= seq!['t', 'i', 'f', 'f']);
    assert("tif"@ =~= seq!['t', 'i', 'f']);
    assert("ico"@ =~= seq!['i', 'c', 'o']);
    assert("avif"@ =~= seq!['a', 'v', 'i', 'f']);
    assert("qoi"@ =~= seq!['q', 'o', 'i']);
    assert("ppm"@ =~= seq!['p', 'p', 'm']);
    assert("pgm"@ =~= seq!['p', 'g', 'm']);
    assert("pbm"@ =~= seq!['p', 'b', 'm']);
    assert("tga"@ =~= seq!['t', 'g', 'a']);
    assert("dds"@ =~= seq!['d', 'd', 's']);
    assert("exr"@ =~= seq!['e', 'x', 'r']);
    assert("ff"@ =~= seq!['f', 'f']);
    assert("apng"@ =~= seq!['a', 'p', 'n', 'g']);
    assert("pdf"@ =~= seq!['p', 'd', 'f']);
    assert("svg"@ =~= seq!['s', 'v', 'g']);
    assert("svgz"@ =~= seq!['s', 'v', 'g', 'z']);
}

} // verus!
