//! Thumbnail cache: which thumbnails are in memory, which are being
//! generated, and how a thumbnail is made from an image file.
//!
//! The worker thread, the channels and the file system belong to the
//! program around the library: it reads the files, runs `generate_thumbnail`
//! for each `ThumbnailRequest`, and hands the outcomes back through `poll`.
//!
//! Paths key the memory cache and the pending list as text: `/x//a.png`
//! and `/x/a.png` are two keys here, where `std::path::Path` equality (by
//! components) would see one.  For canonical paths, which the caller hands
//! in, the two agree.
use vstd::prelude::*;
use vstd::hash_map::StringHashMap;
use std::hash::{Hash, Hasher};
use crate::imaging::{
    decode_rgba, decode_rgba_by_extension, decoded_file_rgba, decoded_rgba, encode_png, png_encoding, thumbnail_pixels, thumbnail_rgba,
    ImagingError,
};
use crate::text::{hex_padded, hex_string};

verus! {

/// Default thumbnail size.
pub const THUMBNAIL_SIZE: u32 = 128;

/// Result of thumbnail generation.
#[derive(Debug, Clone)]
pub struct ThumbnailResult {
    pub path: String,
    pub data: Vec<u8>,
    pub width: u32,
    pub height: u32,
}

/// Request for thumbnail generation.
#[derive(Debug, Clone)]
pub struct ThumbnailRequest {
    pub path: String,
    pub size: u32,
}

/// The value `DefaultHasher` gives after hashing the path (as a
/// `std::path::Path`), the size, and the modification time when there is one
/// (a time `secs` seconds and `nanos` nanoseconds after the Unix epoch).
pub uninterp spec fn cache_hash(path: Seq<char>, size: u32, mtime: Option<(u64, u32)>) -> u64;

/// Hashes the identity of a thumbnail.
///
/// Calls `DefaultHasher::new`, `Hash::hash` on the `Path`, the size and the
/// `SystemTime` (`UNIX_EPOCH + Duration::new(secs, nanos)`), then
/// `Hasher::finish`.  `DefaultHasher::new` uses fixed keys, so within one
/// build the value is a function of the arguments; it is named, not
/// described.  The value is not the same on every target: hashing a `Path`
/// writes a `usize`, whose width is the target's, and std does not promise
/// the algorithm across releases.  Nothing in the library fixes the value;
/// only that one build gives the same name for the same arguments is used.
#[verifier::external_body]
fn hash_thumbnail_identity(path: &str, size: u32, mtime: Option<(u64, u32)>) -> (h: u64)
    requires
        mtime matches Some((secs, nanos)) ==> nanos < 1_000_000_000 && secs <= i64::MAX,
    ensures
        h == cache_hash(path@, size, mtime),
{
    let mut hasher = std::collections::hash_map::DefaultHasher::new();
    std::path::Path::new(path).hash(&mut hasher);
    size.hash(&mut hasher);
    if let Some((secs, nanos)) = mtime {
        (std::time::UNIX_EPOCH + std::time::Duration::new(secs, nanos)).hash(&mut hasher);
    }
    hasher.finish()
}

/// A modification time that `SystemTime` can hold.
pub open spec fn valid_mtime(mtime: Option<(u64, u32)>) -> bool {
    mtime matches Some((secs, nanos)) ==> nanos < 1_000_000_000 && secs <= i64::MAX
}

/// `dir` joined with the relative or absolute `name`, as
/// `std::path::Path::join` joins them on Unix.
pub open spec fn join_path(dir: Seq<char>, name: Seq<char>) -> Seq<char> {
    if name.len() > 0 && name[0] == '/' {
        name
    } else if dir.len() == 0 || dir.last() == '/' {
        dir + name
    } else {
        dir + seq!['/'] + name
    }
}

/// Joins a directory and a file name with a `/` where one is needed.
pub fn join_path_string(dir: &str, name: &str) -> (s: String)
    ensures
        s@ == join_path(dir@, name@),
{
    proof {
        reveal_strlit("/");
    }
    let nl = name.unicode_len();
    if nl > 0 && name.get_char(0) == '/' {
        return name.to_owned();
    }
    let dl = dir.unicode_len();
    let mut s = dir.to_owned();
    if dl == 0 || dir.get_char(dl - 1) == '/' {
        s.append(name);
    } else {
        s.append("/");
        s.append(name);
    }
    s
}

/// The cache file name for a thumbnail: the identity hash in 16 hex digits.
pub open spec fn cache_file_name(path: Seq<char>, size: u32, mtime: Option<(u64, u32)>) -> Seq<char> {
    hex_padded(cache_hash(path, size, mtime) as nat, 16) + seq!['.', 'p', 'n', 'g']
}

/// Generate the cache file name for a file path, from its path, the
/// thumbnail size and its modification time.
pub fn cache_key(path: &str, size: u32, mtime: Option<(u64, u32)>) -> (s: String)
    requires
        valid_mtime(mtime),
    ensures
        s@ == cache_file_name(path@, size, mtime),
{
    proof {
        reveal_strlit(".png");
    }
    let h = hash_thumbnail_identity(path, size, mtime);
    let mut s = hex_string(h, 16);
    s.append(".png");
    s
}

/// The thumbnail made from the image file at `path` holding `source` (read
/// in the format its extension names): its pixels scaled to fit in a
/// `size` x `size` square.
pub open spec fn source_thumbnail(path: Seq<char>, source: Seq<u8>, size: u32) -> Option<(Seq<u8>, u32, u32)> {
    match decoded_file_rgba(path, source) {
        Some((d, w, h)) => Some(thumbnail_pixels(d, w, h, size)),
        None => None,
    }
}

/// A thumbnail of file `p` holding the pixels `d` of size `w` x `h`.
pub open spec fn holds_pixels(t: ThumbnailResult, p: Seq<char>, d: Seq<u8>, w: u32, h: u32) -> bool {
    t.path@ == p && t.data@ == d && t.width == w && t.height == h
}

/// Whether `p` is one of the paths in `s`.
pub open spec fn has_path(s: Seq<String>, p: Seq<char>) -> bool {
    exists|i: int| 0 <= i < s.len() && #[trigger] s[i]@ == p
}

/// The list `s` without the entries equal to `p`, in order.
pub open spec fn drop_path(s: Seq<String>, p: Seq<char>) -> Seq<String>
    decreases s.len(),
{
    if s.len() == 0 {
        s
    } else if s.last()@ == p {
        drop_path(s.drop_last(), p)
    } else {
        drop_path(s.drop_last(), p).push(s.last())
    }
}

/// The state of a cache after taking in the outcomes `rs` in order:
/// each success goes into memory (replacing an older entry) and stops being
/// pending; failures change nothing.
pub open spec fn after_outcomes(
    memory: Map<Seq<char>, ThumbnailResult>,
    pending: Seq<String>,
    rs: Seq<Result<ThumbnailResult, String>>,
) -> (Map<Seq<char>, ThumbnailResult>, Seq<String>)
    decreases rs.len(),
{
    if rs.len() == 0 {
        (memory, pending)
    } else {
        let (m, p) = after_outcomes(memory, pending, rs.drop_last());
        match rs.last() {
            Ok(t) => (m.insert(t.path@, t), drop_path(p, t.path@)),
            Err(_) => (m, p),
        }
    }
}

/// The paths of the successful outcomes, in order.
pub open spec fn completed_paths(rs: Seq<Result<ThumbnailResult, String>>) -> Seq<String>
    decreases rs.len(),
{
    if rs.len() == 0 {
        Seq::empty()
    } else {
        match rs.last() {
            Ok(t) => completed_paths(rs.drop_last()).push(t.path),
            Err(_) => completed_paths(rs.drop_last()),
        }
    }
}

/// Thumbnail cache: the thumbnails loaded in memory and the requests in
/// flight.
pub struct ThumbnailCache {
    /// Cache directory.
    cache_dir: String,
    /// In-memory cache of loaded thumbnails, by path.
    memory_cache: StringHashMap<ThumbnailResult>,
    /// Paths whose thumbnail is being generated.
    pending: Vec<String>,
    /// Thumbnail size.
    size: u32,
}

impl ThumbnailCache {
    /// The thumbnails in memory, by path.
    pub closed spec fn memory(&self) -> Map<Seq<char>, ThumbnailResult> {
        self.memory_cache@
    }

    /// The paths with a request in flight, in the order requested.
    pub closed spec fn pending_paths(&self) -> Seq<String> {
        self.pending@
    }

    /// The cache directory.
    pub closed spec fn directory(&self) -> Seq<char> {
        self.cache_dir@
    }

    /// The thumbnail size.
    pub closed spec fn thumbnail_size(&self) -> u32 {
        self.size
    }

    /// Create a cache for thumbnails of `size` pixels stored under
    /// `cache_dir`, with nothing in memory or in flight.
    pub fn new(cache_dir: String, size: u32) -> (c: Self)
        ensures
            c.memory() == Map::<Seq<char>, ThumbnailResult>::empty(),
            c.pending_paths() == Seq::<String>::empty(),
            c.directory() == cache_dir@,
            c.thumbnail_size() == size,
    {
        ThumbnailCache { cache_dir, memory_cache: StringHashMap::new(), pending: Vec::new(), size }
    }

    /// The cache directory.
    pub fn cache_dir(&self) -> (d: &str)
        ensures
            d@ == self.directory(),
    {
        self.cache_dir.as_str()
    }

    /// The thumbnail size.
    pub fn size(&self) -> (s: u32)
        ensures
            s == self.thumbnail_size(),
    {
        self.size
    }

    /// Get the cached thumbnail path for a file with modification time `mtime`.
    pub fn cached_path(&self, path: &str, mtime: Option<(u64, u32)>) -> (p: String)
        requires
            valid_mtime(mtime),
        ensures
            p@ == join_path(self.directory(), cache_file_name(path@, self.thumbnail_size(), mtime)),
    {
        let key = cache_key(path, self.size, mtime);
        join_path_string(self.cache_dir.as_str(), key.as_str())
    }

    /// Check if the thumbnail of a file with modification time `mtime` is
    /// stored on disk, at `cached_path`.  What is on disk is not stated.
    pub fn is_cached(&self, path: &str, mtime: Option<(u64, u32)>) -> bool
        requires
            valid_mtime(mtime),
    {
        let p = self.cached_path(path, mtime);
        crate::paths::file_exists(p.as_str())
    }

    /// Get a thumbnail from memory cache.
    pub fn get(&self, path: &str) -> (r: Option<&ThumbnailResult>)
        ensures
            match r {
                Some(t) => self.memory().contains_key(path@) && *t == self.memory()[path@],
                None => !self.memory().contains_key(path@),
            },
    {
        self.memory_cache.get(path)
    }

    /// Check if a thumbnail is currently being generated.
    pub fn is_pending(&self, path: &str) -> (b: bool)
        ensures
            b == has_path(self.pending_paths(), path@),
    {
        let target = path.to_owned();
        let n = self.pending.len();
        let mut i: usize = 0;
        while i < n
            invariant
                n == self.pending@.len(),
                i <= n,
                target@ == path@,
                forall|j: int| 0 <= j < i ==> #[trigger] self.pending@[j]@ != path@,
            decreases n - i,
        {
            if self.pending[i] == target {
                proof {
                    assert(self.pending@[i as int]@ == path@);
                }
                return true;
            }
            i = i + 1;
        }
        false
    }

    /// Request thumbnail generation.  Nothing is requested for a file that
    /// is already in memory, already pending, or does not exist; otherwise
    /// the file becomes pending and the request to hand to the worker is
    /// returned.
    pub fn request(&mut self, path: &str, exists: bool) -> (r: Option<ThumbnailRequest>)
        ensures
            final(self).memory() == old(self).memory(),
            final(self).directory() == old(self).directory(),
            final(self).thumbnail_size() == old(self).thumbnail_size(),
            (old(self).memory().contains_key(path@) || has_path(old(self).pending_paths(), path@)
                || !exists) ==> r is None && final(self).pending_paths() == old(self).pending_paths(),
            !(old(self).memory().contains_key(path@) || has_path(old(self).pending_paths(), path@)
                || !exists) ==> {
                &&& r matches Some(q) && q.path@ == path@ && q.size == old(self).thumbnail_size()
                &&& final(self).pending_paths().len() == old(self).pending_paths().len() + 1
                &&& final(self).pending_paths().drop_last() == old(self).pending_paths()
                &&& final(self).pending_paths().last()@ == path@
            },
    {
        if self.memory_cache.contains_key(path) {
            return None;
        }
        if self.is_pending(path) {
            return None;
        }
        if !exists {
            return None;
        }
        self.pending.push(path.to_owned());
        proof {
            assert(self.pending@.drop_last() =~= old(self).pending@);
        }
        Some(ThumbnailRequest { path: path.to_owned(), size: self.size })
    }

    /// Take in finished generations, in the order they completed; returns
    /// the paths whose thumbnail is now in memory.
    pub fn poll(&mut self, results: Vec<Result<ThumbnailResult, String>>) -> (done: Vec<String>)
        ensures
            (final(self).memory(), final(self).pending_paths()) == after_outcomes(
                old(self).memory(),
                old(self).pending_paths(),
                results@,
            ),
            done@ == completed_paths(results@),
            final(self).directory() == old(self).directory(),
            final(self).thumbnail_size() == old(self).thumbnail_size(),
    {
        let mut completed: Vec<String> = Vec::new();
        let ghost rs = results@;
        let mut results = results;
        let total = results.len();
        let mut taken: usize = 0;
        proof {
            assert(rs.take(0) =~= Seq::<Result<ThumbnailResult, String>>::empty());
        }
        while results.len() > 0
            invariant
                taken + results@.len() == rs.len(),
                rs.len() == total,
                results@ == rs.subrange(taken as int, rs.len() as int),
                (self.memory_cache@, self.pending@) == after_outcomes(
                    old(self).memory_cache@,
                    old(self).pending@,
                    rs.take(taken as int),
                ),
                completed@ == completed_paths(rs.take(taken as int)),
                self.cache_dir == old(self).cache_dir,
                self.size == old(self).size,
            decreases results@.len(),
        {
            let ghost before = results@;
            let r = results.remove(0);
            proof {
                assert(r == rs[taken as int]);
                assert(rs.take(taken + 1).drop_last() =~= rs.take(taken as int));
            }
            match r {
                Ok(thumb) => {
                    let path = thumb.path.clone();
                    remove_pending(&mut self.pending, &path);
                    self.memory_cache.insert(path.clone(), thumb);
                    completed.push(path);
                },
                Err(_) => {},
            }
            taken = taken + 1;
        }
        proof {
            assert(rs.take(taken as int) =~= rs);
        }
        completed
    }

    /// Load a thumbnail from its cached PNG file (read by the caller) into
    /// memory.
    pub fn load_cached(&mut self, path: &str, png: &[u8]) -> (r: Result<(), ImagingError>)
        ensures
            final(self).pending_paths() == old(self).pending_paths(),
            final(self).directory() == old(self).directory(),
            final(self).thumbnail_size() == old(self).thumbnail_size(),
            match decoded_rgba(png@) {
                Some((d, w, h)) => {
                    &&& r is Ok
                    &&& final(self).memory().contains_key(path@)
                    &&& holds_pixels(final(self).memory()[path@], path@, d, w, h)
                    &&& final(self).memory().remove(path@) == old(self).memory().remove(path@)
                },
                None => r == Err::<(), ImagingError>(ImagingError::Decode) && final(self).memory()
                    == old(self).memory(),
            },
    {
        match decode_rgba(png) {
            Some((data, width, height)) => {
                let result = ThumbnailResult { path: path.to_owned(), data, width, height };
                self.memory_cache.insert(path.to_owned(), result);
                Ok(())
            },
            None => Err(ImagingError::Decode),
        }
    }

    /// Clear memory cache (keeps disk cache).
    pub fn clear_memory(&mut self)
        ensures
            final(self).memory() == Map::<Seq<char>, ThumbnailResult>::empty(),
            final(self).pending_paths() == old(self).pending_paths(),
            final(self).directory() == old(self).directory(),
            final(self).thumbnail_size() == old(self).thumbnail_size(),
    {
        self.memory_cache.clear();
    }

    /// Get memory cache size.
    pub fn memory_cache_size(&self) -> (n: usize)
        ensures
            n == self.memory().len(),
    {
        self.memory_cache.len()
    }
}

/// Removes every occurrence of `p` from the pending list.
fn remove_pending(pending: &mut Vec<String>, p: &String)
    ensures
        final(pending)@ == drop_path(old(pending)@, p@),
{
    let mut kept: Vec<String> = Vec::new();
    let n = pending.len();
    let mut i: usize = 0;
    proof {
        assert(pending@.take(0) =~= Seq::<String>::empty());
    }
    while i < n
        invariant
            n == pending@.len(),
            i <= n,
            pending@ == old(pending)@,
            kept@ == drop_path(pending@.take(i as int), p@),
        decreases n - i,
    {
        proof {
            assert(pending@.take(i + 1).drop_last() =~= pending@.take(i as int));
        }
        if pending[i] != *p {
            kept.push(pending[i].clone());
        }
        i = i + 1;
    }
    proof {
        assert(pending@.take(n as int) =~= pending@);
    }
    *pending = kept;
}

/// Make a thumbnail for the file at `path`.  When the cache already holds a
/// PNG for it (`cached`, read by the caller), that PNG is decoded; otherwise
/// the file's bytes (`source`) are decoded and scaled to fit in a `size` x
/// `size` square, and the PNG to store in the cache is returned with it.
pub fn generate_thumbnail(path: &str, size: u32, cached: Option<&[u8]>, source: &[u8]) -> (r: Result<
    (ThumbnailResult, Option<Vec<u8>>),
    ImagingError,
>)
    ensures
        match cached {
            Some(c) => match decoded_rgba(c@) {
                Some((d, w, h)) => r matches Ok((t, None)) && t.path@ == path@ && t.data@ == d
                    && t.width == w && t.height == h,
                None => r == Err::<(ThumbnailResult, Option<Vec<u8>>), ImagingError>(ImagingError::Decode),
            },
            None => match source_thumbnail(path@, source@, size) {
                Some((d, w, h)) => match png_encoding(d, w, h) {
                    Some(png) => r matches Ok((t, Some(q))) && t.path@ == path@ && t.data@ == d
                        && t.width == w && t.height == h && q@ == png,
                    None => r == Err::<(ThumbnailResult, Option<Vec<u8>>), ImagingError>(ImagingError::Encode),
                },
                None => r == Err::<(ThumbnailResult, Option<Vec<u8>>), ImagingError>(ImagingError::Decode),
            },
        },
{
    match cached {
        Some(c) => match decode_rgba(c) {
            Some((data, width, height)) => Ok(
                (ThumbnailResult { path: path.to_owned(), data, width, height }, None),
            ),
            None => Err(ImagingError::Decode),
        },
        None => match decode_rgba_by_extension(path, source) {
            Some((data, width, height)) => {
                let (tdata, tw, th) = thumbnail_rgba(data.as_slice(), width, height, size);
                match encode_png(tdata.as_slice(), tw, th) {
                    Some(png) => Ok(
                        (ThumbnailResult { path: path.to_owned(), data: tdata, width: tw, height: th }, Some(png)),
                    ),
                    None => Err(ImagingError::Encode),
                }
            },
            None => Err(ImagingError::Decode),
        },
    }
}

/// A requested path stops being pending once its thumbnail has come back,
/// and is then in memory.
pub proof fn lemma_completed_leaves_pending(
    memory: Map<Seq<char>, ThumbnailResult>,
    pending: Seq<String>,
    t: ThumbnailResult,
)
    ensures
        after_outcomes(memory, pending, seq![Ok(t)]).0.contains_key(t.path@),
        after_outcomes(memory, pending, seq![Ok(t)]).0[t.path@] == t,
        !has_path(after_outcomes(memory, pending, seq![Ok(t)]).1, t.path@),
{
    let rs = seq![Ok::<ThumbnailResult, String>(t)];
    assert(rs.drop_last() =~= Seq::<Result<ThumbnailResult, String>>::empty());
    assert(after_outcomes(memory, pending, rs.drop_last()) == (memory, pending));
    assert(after_outcomes(memory, pending, rs) == (memory.insert(t.path@, t), drop_path(pending, t.path@)));
    lemma_drop_path_removes(pending, t.path@);
}

/// `drop_path` leaves no entry equal to the path.
pub proof fn lemma_drop_path_removes(s: Seq<String>, p: Seq<char>)
    ensures
        !has_path(drop_path(s, p), p),
        drop_path(s, p).len() <= s.len(),
    decreases s.len(),
{
    if s.len() > 0 {
        lemma_drop_path_removes(s.drop_last(), p);
        let d = drop_path(s.drop_last(), p);
        if s.last()@ != p {
            assert forall|i: int| 0 <= i < d.push(s.last()).len() implies #[trigger] d.push(s.last())[i]@ != p by {
                if i < d.len() {
                    assert(d.push(s.last())[i] == d[i]);
                }
            }
        }
    }
}


/// The directory of cached thumbnails: `garview/thumbnails` in the user's
/// cache directory; none without one.
pub fn cache_directory(cache_dir: Option<&str>) -> (p: Option<String>)
    ensures
        match cache_dir {
            Some(d) => p matches Some(s) && s@ == join_path(d@, "garview/thumbnails"@),
            None => p is None,
        },
{
    match cache_dir {
        Some(d) => Some(join_path_string(d, "garview/thumbnails")),
        None => None,
    }
}

} // verus!
