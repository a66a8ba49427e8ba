//! Navigation state of the image/document viewer: which file of the
//! directory is shown, its page or animation frame, rotation and flips,
//! view mode, loading state, and text search results.
//!
//! Decoding and rendering belong to the format backends, which run around
//! the library; the viewer is told how many pages the opened document has
//! and whether it is animated.  Search hits carry a page number and an
//! opaque highlight rectangle `R` that the viewer hands back unchanged.
use vstd::prelude::*;
use crate::formats::{image_paths, path_order, sibling_images};
use crate::format::{file_info_of, FileInfo};
use crate::sorting::sorted_by;

verus! {

/// Loading state for async image loading.
#[derive(Debug, Clone, Copy, PartialEq, Eq, Structural)]
pub enum LoadState {
    /// No image loaded.
    Empty,
    /// Image is being decoded in background.
    Loading,
    /// Image is ready to display.
    Ready,
    /// Loading failed.
    Failed,
}

/// Document view mode for multi-page documents.
#[derive(Debug, Clone, Copy, PartialEq, Eq, Structural)]
pub enum DocumentViewMode {
    /// Single page at a time.
    SinglePage,
    /// Continuous vertical scroll.
    Continuous,
    /// Two pages side by side (book view).
    DualPage,
}

impl Default for DocumentViewMode {
    fn default() -> (m: Self)
        ensures
            m == DocumentViewMode::SinglePage,
    {
        DocumentViewMode::SinglePage
    }
}

/// The mode that follows `m` when cycling: single, continuous, dual, single.
pub open spec fn next_view_mode(m: DocumentViewMode) -> DocumentViewMode {
    match m {
        DocumentViewMode::SinglePage => DocumentViewMode::Continuous,
        DocumentViewMode::Continuous => DocumentViewMode::DualPage,
        DocumentViewMode::DualPage => DocumentViewMode::SinglePage,
    }
}

/// Search result on a page.
#[derive(Debug, Clone, Copy)]
pub struct SearchResult<R> {
    pub page: usize,
    pub rect: R,
}

/// Search state.
#[derive(Debug)]
pub struct SearchState<R> {
    /// Current search query.
    pub query: String,
    /// All search results.
    pub results: Vec<SearchResult<R>>,
    /// Current result index.
    pub current_index: usize,
}

impl<R> SearchState<R> {
    /// No query and no results.
    pub fn new() -> (s: Self)
        ensures
            s.query@ == Seq::<char>::empty(),
            s.results@.len() == 0,
            s.current_index == 0,
    {
        SearchState { query: String::new(), results: Vec::new(), current_index: 0 }
    }
}

/// The position after `i` among `n`, wrapping to the first.
pub open spec fn next_index(i: int, n: int) -> int {
    (i + 1) % n
}

/// The position before `i` among `n`, wrapping to the last.
pub open spec fn prev_index(i: int, n: int) -> int {
    if i == 0 {
        n - 1
    } else {
        i - 1
    }
}

/// Stepping forward and back (or back and forward) among `n` positions
/// returns to the start, and both steps stay among the positions; forward
/// goes to the following position and from the last to the first, back goes
/// to the preceding one and from the first to the last.
pub proof fn lemma_steps_round_trip(i: int, n: int)
    requires
        0 <= i < n,
    ensures
        next_index(i, n) == (if i == n - 1 { 0 } else { i + 1 }),
        prev_index(i, n) == (if i == 0 { n - 1 } else { i - 1 }),
        0 <= next_index(i, n) < n,
        0 <= prev_index(i, n) < n,
        prev_index(next_index(i, n), n) == i,
        next_index(prev_index(i, n), n) == i,
{
    if i + 1 < n {
        vstd::arithmetic::div_mod::lemma_small_mod((i + 1) as nat, n as nat);
    } else {
        vstd::arithmetic::div_mod::lemma_mod_self_0(n);
    }
    if i == 0 {
        vstd::arithmetic::div_mod::lemma_mod_self_0(n);
    } else {
        vstd::arithmetic::div_mod::lemma_small_mod(i as nat, n as nat);
    }
}

/// Rotation after a quarter turn clockwise.
pub open spec fn rotated_cw(r: int) -> int {
    (r + 90) % 360
}

/// Rotation after a quarter turn counter-clockwise.
pub open spec fn rotated_ccw(r: int) -> int {
    (r + 270) % 360
}

/// The rotations the viewer can be in.
pub open spec fn valid_rotation(r: int) -> bool {
    r == 0 || r == 90 || r == 180 || r == 270
}

/// The number of search results before position `k` that are on `page`.
pub open spec fn results_on_page_before<R>(s: Seq<SearchResult<R>>, page: usize, k: int) -> nat
    decreases k,
{
    if k <= 0 {
        0
    } else if s[k - 1].page == page {
        results_on_page_before(s, page, k - 1) + 1
    } else {
        results_on_page_before(s, page, k - 1)
    }
}

/// The rectangles of the results on `page`, in order.
pub open spec fn rects_on_page<R>(s: Seq<SearchResult<R>>, page: usize) -> Seq<R>
    decreases s.len(),
{
    if s.len() == 0 {
        Seq::empty()
    } else if s.last().page == page {
        rects_on_page(s.drop_last(), page).push(s.last().rect)
    } else {
        rects_on_page(s.drop_last(), page)
    }
}

/// Navigation state of the viewer.
pub struct ImageViewer<R> {
    /// Current file path.
    current_path: Option<String>,
    /// Rotation in degrees (0, 90, 180, 270).
    rotation: i32,
    /// Flip horizontal.
    flip_h: bool,
    /// Flip vertical.
    flip_v: bool,
    /// Current page or animation frame.
    current_frame: usize,
    /// Image files of the current directory, for prev/next.
    directory_files: Vec<String>,
    /// Position of the current file in `directory_files`.
    current_index: usize,
    /// Async loading state.
    load_state: LoadState,
    /// Document view mode (for multi-page documents).
    view_mode: DocumentViewMode,
    /// Page count and animation flag of the opened document, if any.
    document: Option<(usize, bool)>,
    /// Search state.
    search: SearchState<R>,
}

impl<R> ImageViewer<R> {
    /// The rotation is a quarter turn (0, 90, 180 or 270 degrees), and the
    /// position in the directory lies on one of its files when it has any.
    #[verifier::type_invariant]
    spec fn well_formed(&self) -> bool {
        &&& valid_rotation(self.rotation as int)
        &&& self.directory_files@.len() > 0 ==> self.current_index < self.directory_files@.len()
    }

    /// The search query, its results and the current result.
    pub closed spec fn search_state(&self) -> SearchState<R> {
        self.search
    }

    /// The current rotation in degrees.
    pub closed spec fn rotation_deg(&self) -> int {
        self.rotation as int
    }

    /// Whether the image is mirrored left to right.
    pub closed spec fn mirrored_h(&self) -> bool {
        self.flip_h
    }

    /// Whether the image is mirrored top to bottom.
    pub closed spec fn mirrored_v(&self) -> bool {
        self.flip_v
    }

    /// The current page (or animation frame), 0-indexed.
    pub closed spec fn frame(&self) -> nat {
        self.current_frame as nat
    }

    /// The image files of the directory, in display order.
    pub closed spec fn siblings(&self) -> Seq<String> {
        self.directory_files@
    }

    /// Position of the current file among the siblings.
    pub closed spec fn sibling_index(&self) -> nat {
        self.current_index as nat
    }

    /// The page count and animation flag of the opened document.
    pub closed spec fn document_info(&self) -> Option<(usize, bool)> {
        self.document
    }

    /// The loading state.
    pub closed spec fn state(&self) -> LoadState {
        self.load_state
    }

    /// The view mode.
    pub closed spec fn mode(&self) -> DocumentViewMode {
        self.view_mode
    }

    /// The current file.
    pub closed spec fn path(&self) -> Option<String> {
        self.current_path
    }

    /// The number of pages: that of the document, 1 when none is open.
    pub open spec fn pages(&self) -> nat {
        match self.document_info() {
            Some((n, _)) => n as nat,
            None => 1,
        }
    }

    /// Whether the opened document is animated.
    pub open spec fn animated(&self) -> bool {
        match self.document_info() {
            Some((_, a)) => a,
            None => false,
        }
    }

    /// More than one page, and not an animation.
    pub open spec fn multipage(&self) -> bool {
        self.pages() > 1 && !self.animated()
    }

    /// Everything but the page is unchanged between `self` and `other`.
    pub open spec fn same_but_page(&self, other: &Self) -> bool {
        &&& other.rotation_deg() == self.rotation_deg()
        &&& other.mirrored_h() == self.mirrored_h()
        &&& other.mirrored_v() == self.mirrored_v()
        &&& other.siblings() == self.siblings()
        &&& other.sibling_index() == self.sibling_index()
        &&& other.document_info() == self.document_info()
        &&& other.state() == self.state()
        &&& other.mode() == self.mode()
        &&& other.path() == self.path()
    }

    /// A viewer with nothing loaded.
    pub fn new() -> (v: Self)
        ensures
            v.rotation_deg() == 0,
            !v.mirrored_h(),
            !v.mirrored_v(),
            v.frame() == 0,
            v.siblings() == Seq::<String>::empty(),
            v.sibling_index() == 0,
            v.document_info() is None,
            v.state() == LoadState::Empty,
            v.mode() == DocumentViewMode::SinglePage,
            v.path() is None,
            v.search_state().results@.len() == 0,
            v.search_state().current_index == 0,
    {
        ImageViewer {
            current_path: None,
            rotation: 0,
            flip_h: false,
            flip_v: false,
            current_frame: 0,
            directory_files: Vec::new(),
            current_index: 0,
            load_state: LoadState::Empty,
            view_mode: DocumentViewMode::SinglePage,
            document: None,
            search: SearchState::new(),
        }
    }

    /// Start loading `path`.  `listing` holds the paths of its directory
    /// (`None` when it could not be read: the previous listing is kept);
    /// the viewer steps through the image files among them, sorted, and the
    /// current position is that of `path` among them (0 when it is not one
    /// of them).  The previous document is closed.
    pub fn begin_load(&mut self, path: String, listing: Option<Vec<String>>)
        ensures
            final(self).state() == LoadState::Loading,
            final(self).path() == Some(path),
            final(self).document_info() is None,
            match listing {
                Some(l) => {
                    &&& final(self).siblings() == sorted_by(image_paths(l@), path_order())
                    &&& final(self).sibling_index() == first_index_of(final(self).siblings(), path@)
                },
                None => {
                    &&& final(self).siblings() == old(self).siblings()
                    &&& final(self).sibling_index() == old(self).sibling_index()
                },
            },
            final(self).rotation_deg() == old(self).rotation_deg(),
            final(self).mirrored_h() == old(self).mirrored_h(),
            final(self).mirrored_v() == old(self).mirrored_v(),
            final(self).frame() == old(self).frame(),
            final(self).mode() == old(self).mode(),
    {
        proof {
            use_type_invariant(&*self);
        }
        match listing {
            Some(l) => {
                let siblings = sibling_images(l);
                let index = position_of(&siblings, &path);
                proof {
                    lemma_first_index_in_range(siblings@, path@);
                }
                self.current_index = 0;
                self.directory_files = siblings;
                self.current_index = index;
            },
            None => {},
        }
        self.load_state = LoadState::Loading;
        self.current_path = Some(path);
        self.document = None;
    }

    /// Take in the outcome of a load: the page count and animation flag of
    /// the decoded document, or `None` when decoding failed.  Only a load in
    /// progress takes an outcome; returns whether the state changed.  A new
    /// document starts on its first frame, unrotated and unflipped.
    pub fn complete_load(&mut self, outcome: Option<(usize, bool)>) -> (changed: bool)
        ensures
            changed == (old(self).state() == LoadState::Loading),
            !changed ==> *final(self) == *old(self),
            changed ==> match outcome {
                Some(doc) => {
                    &&& final(self).state() == LoadState::Ready
                    &&& final(self).document_info() == Some(doc)
                    &&& final(self).frame() == 0
                    &&& final(self).rotation_deg() == 0
                    &&& !final(self).mirrored_h()
                    &&& !final(self).mirrored_v()
                },
                None => {
                    &&& final(self).state() == LoadState::Failed
                    &&& final(self).document_info() == old(self).document_info()
                    &&& final(self).frame() == old(self).frame()
                    &&& final(self).rotation_deg() == old(self).rotation_deg()
                    &&& final(self).mirrored_h() == old(self).mirrored_h()
                    &&& final(self).mirrored_v() == old(self).mirrored_v()
                },
            },
            final(self).siblings() == old(self).siblings(),
            final(self).sibling_index() == old(self).sibling_index(),
            final(self).path() == old(self).path(),
            final(self).mode() == old(self).mode(),
    {
        proof {
            use_type_invariant(&*self);
        }
        if self.load_state != LoadState::Loading {
            return false;
        }
        match outcome {
            Some(doc) => {
                self.document = Some(doc);
                self.current_frame = 0;
                self.rotation = 0;
                self.flip_h = false;
                self.flip_v = false;
                self.load_state = LoadState::Ready;
            },
            None => {
                self.load_state = LoadState::Failed;
            },
        }
        true
    }

    /// Get the current loading state.
    pub fn load_state(&self) -> (s: LoadState)
        ensures
            s == self.state(),
    {
        self.load_state
    }

    /// The current file path.
    pub fn current_path(&self) -> (p: Option<&str>)
        ensures
            match self.path() {
                Some(q) => p matches Some(s) && s@ == q@,
                None => p is None,
            },
    {
        match &self.current_path {
            Some(p) => Some(p.as_str()),
            None => None,
        }
    }

    /// Whether the opened document is animated.
    pub fn is_animated(&self) -> (b: bool)
        ensures
            b == self.animated(),
    {
        match self.document {
            Some((_, a)) => a,
            None => false,
        }
    }

    /// Number of frames (pages) of the opened document, 1 when none is.
    pub fn frame_count(&self) -> (n: usize)
        ensures
            n == self.pages(),
    {
        self.page_count()
    }

    /// Advance to the next animation frame, wrapping to the first.  Returns
    /// whether the frame changed (only animated documents advance).
    pub fn advance_frame(&mut self) -> (changed: bool)
        requires
            old(self).animated() ==> old(self).pages() > 0,
        ensures
            changed == old(self).animated(),
            changed ==> final(self).frame() == (old(self).frame() + 1) % old(self).pages(),
            !changed ==> final(self).frame() == old(self).frame(),
            old(self).same_but_page(&*final(self)),
    {
        proof {
            use_type_invariant(&*self);
        }
        match self.document {
            Some((n, true)) => {
                self.current_frame = ((self.current_frame as u128 + 1) % n as u128) as usize;
                true
            },
            _ => false,
        }
    }

    /// Show the next animation frame once the current one has been shown
    /// for its delay (100 ms when the document gives none).  `elapsed` and
    /// the delay are in nanoseconds.  Returns whether the frame changed.
    pub fn tick_animation(&mut self, elapsed: u128, frame_delay: Option<u128>) -> (changed: bool)
        requires
            old(self).animated() ==> old(self).pages() > 0,
        ensures
            changed == (old(self).animated() && elapsed >= match frame_delay {
                Some(d) => d,
                None => 100_000_000,
            }),
            changed ==> final(self).frame() == (old(self).frame() + 1) % old(self).pages(),
            !changed ==> final(self).frame() == old(self).frame(),
            old(self).same_but_page(&*final(self)),
    {
        proof {
            use_type_invariant(&*self);
        }
        if !self.is_animated() {
            return false;
        }
        let delay = match frame_delay {
            Some(d) => d,
            None => 100_000_000,
        };
        if elapsed >= delay {
            self.advance_frame()
        } else {
            false
        }
    }

    /// Status-bar information of the current file, shown at `size` pixels,
    /// `file_size` bytes long (`None` for either when unknown).
    pub fn file_info(&self, size: Option<(u32, u32)>, file_size: Option<u64>) -> (r: Option<
        FileInfo,
    >)
        ensures
            match (self.path(), size, file_size) {
                (Some(p), Some((w, h)), Some(n)) => match file_info_of(p@, w, h, n) {
                    Some(t) => r matches Some(i) && i.parts() == t,
                    None => r is None,
                },
                _ => r is None,
            },
    {
        let path = match &self.current_path {
            Some(p) => p,
            None => {
                return None;
            },
        };
        let (w, h) = match size {
            Some(s) => s,
            None => {
                return None;
            },
        };
        let n = match file_size {
            Some(n) => n,
            None => {
                return None;
            },
        };
        FileInfo::describe(path.as_str(), w, h, n)
    }

    // Rotation

    /// Rotate a quarter turn clockwise.
    pub fn rotate_cw(&mut self)
        ensures
            final(self).rotation_deg() == rotated_cw(old(self).rotation_deg()),
            valid_rotation(final(self).rotation_deg()),
            final(self).frame() == old(self).frame(),
            final(self).mirrored_h() == old(self).mirrored_h(),
            final(self).mirrored_v() == old(self).mirrored_v(),
    {
        proof {
            use_type_invariant(&*self);
        }
        self.rotation = (self.rotation + 90) % 360;
    }

    /// Rotate a quarter turn counter-clockwise.
    pub fn rotate_ccw(&mut self)
        ensures
            final(self).rotation_deg() == rotated_ccw(old(self).rotation_deg()),
            valid_rotation(final(self).rotation_deg()),
            final(self).frame() == old(self).frame(),
            final(self).mirrored_h() == old(self).mirrored_h(),
            final(self).mirrored_v() == old(self).mirrored_v(),
    {
        proof {
            use_type_invariant(&*self);
        }
        self.rotation = (self.rotation + 270) % 360;
    }

    /// The rotation in degrees.
    pub fn rotation(&self) -> (r: i32)
        ensures
            r == self.rotation_deg(),
            valid_rotation(r as int),
    {
        proof {
            use_type_invariant(self);
        }
        self.rotation
    }

    /// Toggle the left-right mirroring.
    pub fn flip_horizontal(&mut self)
        ensures
            final(self).mirrored_h() == !old(self).mirrored_h(),
            final(self).mirrored_v() == old(self).mirrored_v(),
            final(self).rotation_deg() == old(self).rotation_deg(),
            final(self).frame() == old(self).frame(),
    {
        proof {
            use_type_invariant(&*self);
        }
        self.flip_h = !self.flip_h;
    }

    /// Toggle the top-bottom mirroring.
    pub fn flip_vertical(&mut self)
        ensures
            final(self).mirrored_v() == !old(self).mirrored_v(),
            final(self).mirrored_h() == old(self).mirrored_h(),
            final(self).rotation_deg() == old(self).rotation_deg(),
            final(self).frame() == old(self).frame(),
    {
        proof {
            use_type_invariant(&*self);
        }
        self.flip_v = !self.flip_v;
    }

    /// Whether the image is mirrored left to right.
    pub fn is_flipped_h(&self) -> (b: bool)
        ensures
            b == self.mirrored_h(),
    {
        self.flip_h
    }

    /// Whether the image is mirrored top to bottom.
    pub fn is_flipped_v(&self) -> (b: bool)
        ensures
            b == self.mirrored_v(),
    {
        self.flip_v
    }

    // Directory navigation

    /// Move to the next file of the directory (wrapping around).  Returns
    /// the path to load, or `None` when there is no other file to go to.
    pub fn next_image(&mut self) -> (p: Option<String>)
        ensures
            old(self).siblings().len() == 0 ==> p is None && *final(self) == *old(self),
            old(self).siblings().len() > 0 ==> {
                let next = next_index(
                    old(self).sibling_index() as int,
                    old(self).siblings().len() as int,
                );
                &&& next == old(self).sibling_index() ==> p is None && *final(self) == *old(self)
                &&& next != old(self).sibling_index() ==> p == Some(old(self).siblings()[next as int])
                    && final(self).sibling_index() == next
            },
            final(self).siblings() == old(self).siblings(),
            final(self).state() == old(self).state(),
    {
        proof {
            use_type_invariant(&*self);
        }
        let n = self.directory_files.len();
        if n == 0 {
            return None;
        }
        let next = if self.current_index + 1 < n {
            self.current_index + 1
        } else {
            0
        };
        proof {
            assert(next == (self.current_index + 1) % (n as int)) by {
                if self.current_index + 1 < n {
                    vstd::arithmetic::div_mod::lemma_small_mod(
                        (self.current_index + 1) as nat,
                        n as nat,
                    );
                } else {
                    vstd::arithmetic::div_mod::lemma_mod_self_0(n as int);
                }
            }
        }
        if next != self.current_index {
            let p = self.directory_files[next].clone();
            self.current_index = next;
            Some(p)
        } else {
            None
        }
    }

    /// Move to the previous file of the directory (wrapping around).
    /// Returns the path to load, or `None` when there is no other file.
    pub fn prev_image(&mut self) -> (p: Option<String>)
        ensures
            old(self).siblings().len() == 0 ==> p is None && *final(self) == *old(self),
            old(self).siblings().len() > 0 ==> {
                let prev = prev_index(
                    old(self).sibling_index() as int,
                    old(self).siblings().len() as int,
                );
                &&& prev == old(self).sibling_index() ==> p is None && *final(self) == *old(self)
                &&& prev != old(self).sibling_index() ==> p == Some(old(self).siblings()[prev])
                    && final(self).sibling_index() == prev
            },
            final(self).siblings() == old(self).siblings(),
            final(self).state() == old(self).state(),
    {
        proof {
            use_type_invariant(&*self);
        }
        let n = self.directory_files.len();
        if n == 0 {
            return None;
        }
        let prev = if self.current_index == 0 {
            n - 1
        } else {
            self.current_index - 1
        };
        if prev != self.current_index {
            let p = self.directory_files[prev].clone();
            self.current_index = prev;
            Some(p)
        } else {
            None
        }
    }

    /// Position of the current file in its directory (1-based) and the
    /// number of files, when the directory has any.
    pub fn directory_position(&self) -> (r: Option<(usize, usize)>)
        ensures
            self.siblings().len() == 0 ==> r is None,
            self.siblings().len() > 0 ==> r == Some(((self.sibling_index() + 1) as usize, self.siblings().len() as usize)),
    {
        proof {
            use_type_invariant(self);
        }
        if self.directory_files.len() == 0 {
            None
        } else {
            Some((self.current_index + 1, self.directory_files.len()))
        }
    }

    // Page navigation (for multi-page documents like PDF)

    /// Get total page count (1 when no document is open).
    pub fn page_count(&self) -> (n: usize)
        ensures
            n == self.pages(),
    {
        match self.document {
            Some((n, _)) => n,
            None => 1,
        }
    }

    /// Get current page (0-indexed).
    pub fn current_page(&self) -> (p: usize)
        ensures
            p == self.frame(),
    {
        self.current_frame
    }

    /// Check if document has multiple pages (and is not an animation).
    pub fn is_multipage(&self) -> (b: bool)
        ensures
            b == self.multipage(),
    {
        self.page_count() > 1 && !self.is_animated()
    }

    /// Go to a page (0-indexed).  Returns whether the page changed; a page
    /// past the end is refused.
    pub fn goto_page(&mut self, page: usize) -> (changed: bool)
        ensures
            changed == (page < old(self).pages() && page != old(self).frame()),
            changed ==> final(self).frame() == page,
            !changed ==> final(self).frame() == old(self).frame(),
            old(self).same_but_page(&*final(self)),
            final(self).search_state() == old(self).search_state(),
    {
        proof {
            use_type_invariant(&*self);
        }
        let count = self.page_count();
        if page >= count {
            return false;
        }
        if page != self.current_frame {
            self.current_frame = page;
            true
        } else {
            false
        }
    }

    /// Go to the next page of a multi-page document.
    pub fn next_page(&mut self) -> (changed: bool)
        ensures
            changed == (old(self).multipage() && old(self).frame() + 1 < old(self).pages()),
            changed ==> final(self).frame() == old(self).frame() + 1,
            !changed ==> final(self).frame() == old(self).frame(),
            old(self).same_but_page(&*final(self)),
    {
        proof {
            use_type_invariant(&*self);
        }
        let count = self.page_count();
        if count <= 1 || self.is_animated() {
            return false;
        }
        if self.current_frame < count - 1 {
            self.goto_page(self.current_frame + 1)
        } else {
            false
        }
    }

    /// Go to the previous page of a multi-page document.
    pub fn prev_page(&mut self) -> (changed: bool)
        ensures
            changed == (old(self).multipage() && old(self).frame() > 0 && old(self).frame() - 1
                < old(self).pages()),
            changed ==> final(self).frame() == old(self).frame() - 1,
            !changed ==> final(self).frame() == old(self).frame(),
            old(self).same_but_page(&*final(self)),
    {
        proof {
            use_type_invariant(&*self);
        }
        if self.page_count() <= 1 || self.is_animated() {
            return false;
        }
        if self.current_frame > 0 {
            self.goto_page(self.current_frame - 1)
        } else {
            false
        }
    }

    /// Go to the first page of a multi-page document.
    pub fn first_page(&mut self) -> (changed: bool)
        ensures
            changed == (old(self).multipage() && old(self).frame() != 0),
            old(self).multipage() ==> final(self).frame() == 0,
            !old(self).multipage() ==> final(self).frame() == old(self).frame(),
            old(self).same_but_page(&*final(self)),
    {
        proof {
            use_type_invariant(&*self);
        }
        if self.page_count() <= 1 || self.is_animated() {
            return false;
        }
        self.goto_page(0)
    }

    /// Go to the last page of a multi-page document.
    pub fn last_page(&mut self) -> (changed: bool)
        ensures
            changed == (old(self).multipage() && old(self).frame() != old(self).pages() - 1),
            old(self).multipage() ==> final(self).frame() == old(self).pages() - 1,
            !old(self).multipage() ==> final(self).frame() == old(self).frame(),
            old(self).same_but_page(&*final(self)),
    {
        proof {
            use_type_invariant(&*self);
        }
        let count = self.page_count();
        if count <= 1 || self.is_animated() {
            return false;
        }
        self.goto_page(count - 1)
    }

    /// Page position for the status bar (1-based page, page count), for
    /// multi-page documents.
    pub fn page_position(&self) -> (r: Option<(usize, usize)>)
        requires
            self.frame() < usize::MAX,
        ensures
            self.multipage() ==> r == Some(((self.frame() + 1) as usize, self.pages() as usize)),
            !self.multipage() ==> r is None,
    {
        if self.is_multipage() {
            Some((self.current_frame + 1, self.page_count()))
        } else {
            None
        }
    }

    // View mode

    /// Get current view mode.
    pub fn view_mode(&self) -> (m: DocumentViewMode)
        ensures
            m == self.mode(),
    {
        self.view_mode
    }

    /// Set view mode.  Returns whether the mode changed (the page caches
    /// are then stale, and a continuous view starts at the current page).
    pub fn set_view_mode(&mut self, mode: DocumentViewMode) -> (changed: bool)
        ensures
            changed == (old(self).mode() != mode),
            final(self).mode() == mode,
            final(self).frame() == old(self).frame(),
            final(self).document_info() == old(self).document_info(),
    {
        proof {
            use_type_invariant(&*self);
        }
        if self.view_mode != mode {
            self.view_mode = mode;
            true
        } else {
            false
        }
    }

    /// Cycle through view modes (single, continuous, dual) for multi-page
    /// documents.  Returns whether the mode changed.
    pub fn cycle_view_mode(&mut self) -> (changed: bool)
        ensures
            changed == old(self).multipage(),
            changed ==> final(self).mode() == next_view_mode(old(self).mode()),
            !changed ==> final(self).mode() == old(self).mode(),
            final(self).frame() == old(self).frame(),
            final(self).document_info() == old(self).document_info(),
    {
        proof {
            use_type_invariant(&*self);
        }
        if !self.is_multipage() {
            return false;
        }
        let new_mode = match self.view_mode {
            DocumentViewMode::SinglePage => DocumentViewMode::Continuous,
            DocumentViewMode::Continuous => DocumentViewMode::DualPage,
            DocumentViewMode::DualPage => DocumentViewMode::SinglePage,
        };
        self.set_view_mode(new_mode)
    }

    // Search

    /// Record a text search: the query and its hits over all pages (found
    /// by the backend, page by page).  An empty query has no results.
    /// Returns the number of results.
    pub fn search(&mut self, query: &str, hits: Vec<SearchResult<R>>) -> (n: usize)
        ensures
            final(self).search_state().query@ == query@,
            final(self).search_state().current_index == 0,
            query@.len() == 0 ==> final(self).search_state().results@.len() == 0,
            query@.len() > 0 ==> final(self).search_state().results@ == hits@,
            n == final(self).search_state().results@.len(),
            final(self).frame() == old(self).frame(),
    {
        proof {
            use_type_invariant(&*self);
        }
        self.search.query = query.to_owned();
        self.search.current_index = 0;
        if query.is_empty() {
            self.search.results = Vec::new();
            return 0;
        }
        self.search.results = hits;
        self.search.results.len()
    }

    /// Go to the next search result (wrapping around).
    pub fn search_next(&mut self) -> (moved: bool)
        requires
            old(self).search_state().current_index < usize::MAX,
        ensures
            moved == (old(self).search_state().results@.len() > 0),
            moved ==> {
                let k = next_index(
                    old(self).search_state().current_index as int,
                    old(self).search_state().results@.len() as int,
                );
                &&& final(self).search_state().current_index == k
                &&& go_to_result(*old(self), *final(self), k as int)
            },
            !moved ==> *final(self) == *old(self),
    {
        proof {
            use_type_invariant(&*self);
        }
        let n = self.search.results.len();
        if n == 0 {
            return false;
        }
        self.search.current_index = (self.search.current_index + 1) % n;
        self.go_to_search_result()
    }

    /// Go to the previous search result (wrapping around).  Returns
    /// whether the new current index names a result.
    pub fn search_prev(&mut self) -> (moved: bool)
        ensures
            old(self).search_state().results@.len() == 0 ==> !moved && *final(self) == *old(self),
            old(self).search_state().results@.len() > 0 ==> {
                let n = old(self).search_state().results@.len();
                let i = old(self).search_state().current_index;
                let k = prev_index(i as int, n as int);
                &&& final(self).search_state().current_index == k
                &&& moved == (k < n)
                &&& moved ==> go_to_result(*old(self), *final(self), k)
                &&& !moved ==> old(self).same_but_page(&*final(self)) && final(self).frame()
                    == old(self).frame()
                &&& final(self).search_state().results@ == old(self).search_state().results@
            },
    {
        proof {
            use_type_invariant(&*self);
        }
        let n = self.search.results.len();
        if n == 0 {
            return false;
        }
        if self.search.current_index == 0 {
            self.search.current_index = n - 1;
        } else {
            self.search.current_index = self.search.current_index - 1;
        }
        self.go_to_search_result()
    }

    /// Navigate to the current search result's page; `false` when the
    /// current index names no result.
    fn go_to_search_result(&mut self) -> (found: bool)
        ensures
            found == (old(self).search_state().current_index < old(self).search_state().results@.len()),
            found ==> go_to_result(*old(self), *final(self), old(self).search_state().current_index as int),
            !found ==> *final(self) == *old(self),
            final(self).search_state() == old(self).search_state(),
    {
        proof {
            use_type_invariant(&*self);
        }
        if self.search.current_index >= self.search.results.len() {
            return false;
        }
        let page = self.search.results[self.search.current_index].page;
        if page != self.current_frame {
            self.goto_page(page);
        }
        true
    }

    /// Clear search state.
    pub fn clear_search(&mut self)
        ensures
            final(self).search_state().query@ == Seq::<char>::empty(),
            final(self).search_state().results@.len() == 0,
            final(self).search_state().current_index == 0,
            final(self).frame() == old(self).frame(),
    {
        proof {
            use_type_invariant(&*self);
        }
        self.search = SearchState::new();
    }

    /// Current search result index (1-based) and total.
    pub fn search_position(&self) -> (r: Option<(usize, usize)>)
        requires
            self.search_state().current_index < usize::MAX,
        ensures
            self.search_state().results@.len() == 0 ==> r is None,
            self.search_state().results@.len() > 0 ==> r == Some(
                (
                    (self.search_state().current_index + 1) as usize,
                    self.search_state().results@.len() as usize,
                ),
            ),
    {
        if self.search.results.len() == 0 {
            None
        } else {
            Some((self.search.current_index + 1, self.search.results.len()))
        }
    }

    /// Whether the `page_result_index`-th result on `page` is the current
    /// search result.
    pub fn is_current_search_result(&self, page: usize, page_result_index: usize) -> (b: bool)
        ensures
            b == ({
                let st = self.search_state();
                &&& st.current_index < st.results@.len()
                &&& st.results@[st.current_index as int].page == page
                &&& results_on_page_before(st.results@, page, st.current_index as int)
                    == page_result_index
            }),
    {
        let ci = self.search.current_index;
        if ci >= self.search.results.len() {
            return false;
        }
        if self.search.results[ci].page != page {
            return false;
        }
        let mut count: usize = 0;
        let mut k: usize = 0;
        while k < ci
            invariant
                ci < self.search.results@.len(),
                k <= ci,
                count == results_on_page_before(self.search.results@, page, k as int),
                count <= k,
            decreases ci - k,
        {
            if self.search.results[k].page == page {
                count = count + 1;
            }
            k = k + 1;
        }
        count == page_result_index
    }
}

impl<R: Copy> ImageViewer<R> {
    /// The rectangles of the search results on `page` (for highlighting).
    pub fn search_results_for_page(&self, page: usize) -> (v: Vec<R>)
        ensures
            v@ == rects_on_page(self.search_state().results@, page),
    {
        let mut out: Vec<R> = Vec::new();
        let n = self.search.results.len();
        let mut k: usize = 0;
        proof {
            assert(self.search.results@.take(0) =~= Seq::<SearchResult<R>>::empty());
        }
        while k < n
            invariant
                n == self.search.results@.len(),
                k <= n,
                out@ == rects_on_page(self.search.results@.take(k as int), page),
            decreases n - k,
        {
            proof {
                assert(self.search.results@.take(k + 1).drop_last() =~= self.search.results@.take(
                    k as int,
                ));
            }
            let r = &self.search.results[k];
            if r.page == page {
                out.push(r.rect);
            }
            k = k + 1;
        }
        proof {
            assert(self.search.results@.take(n as int) =~= self.search.results@);
        }
        out
    }
}

/// After moving to search result `k`: the viewer shows the result's page
/// when that page exists, and is otherwise unchanged.
pub open spec fn go_to_result<R>(before: ImageViewer<R>, after: ImageViewer<R>, k: int) -> bool {
    let page = before.search_state().results@[k].page;
    &&& after.search_state().results@ == before.search_state().results@
    &&& after.search_state().query@ == before.search_state().query@
    &&& before.same_but_page(&after)
    &&& (page < before.pages() ==> after.frame() == page)
    &&& (page >= before.pages() ==> after.frame() == before.frame())
}

/// The first position of `p` in `s`, 0 when it does not occur.
pub open spec fn first_index_of(s: Seq<String>, p: Seq<char>) -> nat
    decreases s.len(),
{
    if s.len() == 0 || s[0]@ == p || !occurs(s.drop_first(), p) {
        0
    } else {
        first_index_of(s.drop_first(), p) + 1
    }
}

/// Whether `p` occurs in `s`.
pub open spec fn occurs(s: Seq<String>, p: Seq<char>) -> bool {
    exists|i: int| 0 <= i < s.len() && #[trigger] s[i]@ == p
}

/// The position of `p` in `v`, 0 when it is absent.
fn position_of(v: &Vec<String>, p: &String) -> (i: usize)
    ensures
        i == first_index_of(v@, p@),
{
    let n = v.len();
    let mut k: usize = 0;
    while k < n
        invariant
            n == v@.len(),
            k <= n,
            forall|j: int| 0 <= j < k ==> #[trigger] v@[j]@ != p@,
        decreases n - k,
    {
        if v[k] == *p {
            proof {
                lemma_first_index_found(v@, p@, k as int);
            }
            return k;
        }
        k = k + 1;
    }
    proof {
        lemma_first_index_absent(v@, p@);
    }
    0
}

proof fn lemma_first_index_in_range(s: Seq<String>, p: Seq<char>)
    ensures
        s.len() > 0 ==> first_index_of(s, p) < s.len(),
    decreases s.len(),
{
    if s.len() > 0 && !(s[0]@ == p || !occurs(s.drop_first(), p)) {
        lemma_first_index_in_range(s.drop_first(), p);
    }
}

proof fn lemma_first_index_found(s: Seq<String>, p: Seq<char>, k: int)
    requires
        0 <= k < s.len(),
        s[k]@ == p,
        forall|j: int| 0 <= j < k ==> #[trigger] s[j]@ != p,
    ensures
        first_index_of(s, p) == k,
    decreases k,
{
    if k > 0 {
        let t = s.drop_first();
        assert forall|j: int| 0 <= j < k - 1 implies #[trigger] t[j]@ != p by {
            assert(t[j] == s[j + 1]);
        }
        lemma_first_index_found(t, p, k - 1);
        assert(occurs(t, p)) by {
            assert(t[k - 1]@ == p);
        }
    }
}

proof fn lemma_first_index_absent(s: Seq<String>, p: Seq<char>)
    requires
        forall|j: int| 0 <= j < s.len() ==> #[trigger] s[j]@ != p,
    ensures
        first_index_of(s, p) == 0,
    decreases s.len(),
{
    if s.len() > 0 {
        let t = s.drop_first();
        assert forall|j: int| 0 <= j < t.len() implies #[trigger] t[j]@ != p by {
            assert(t[j] == s[j + 1]);
        }
        lemma_first_index_absent(t, p);
    }
}

/// Four quarter turns clockwise bring the image back; a clockwise turn
/// undoes a counter-clockwise one and the other way round.
pub proof fn lemma_rotation_round_trips(r: int)
    requires
        valid_rotation(r),
    ensures
        valid_rotation(rotated_cw(r)),
        valid_rotation(rotated_ccw(r)),
        rotated_ccw(rotated_cw(r)) == r,
        rotated_cw(rotated_ccw(r)) == r,
        rotated_cw(rotated_cw(rotated_cw(rotated_cw(r)))) == r,
{
}

/// A clockwise quarter turn adds ninety degrees and wraps from 270 to 0;
/// a counter-clockwise one takes ninety away and wraps from 0 to 270.
/// Cycling the view modes goes from single pages to a continuous strip, then
/// to two pages side by side, then back to single pages.
pub proof fn lemma_turn_and_mode_steps(r: int)
    requires
        valid_rotation(r),
    ensures
        rotated_cw(r) == (if r == 270 { 0 } else { r + 90 }),
        rotated_ccw(r) == (if r == 0 { 270 } else { r - 90 }),
        next_view_mode(DocumentViewMode::SinglePage) == DocumentViewMode::Continuous,
        next_view_mode(DocumentViewMode::Continuous) == DocumentViewMode::DualPage,
        next_view_mode(DocumentViewMode::DualPage) == DocumentViewMode::SinglePage,
{
}

/// Cycling the view mode three times comes back to the start.
pub proof fn lemma_view_mode_cycle(m: DocumentViewMode)
    ensures
        next_view_mode(next_view_mode(next_view_mode(m))) == m,
        next_view_mode(m) != m,
{
}

} // verus!
