//! The thumbnail gallery of a directory: its image files in the chosen
//! order, the grid of thumbnails, and the selection.
//!
//! Listing the directory, scrolling (in pixels) and drawing happen around
//! the library; the gallery is handed the directory's files and tells
//! which thumbnails the visible rows still need.
use vstd::prelude::*;
use crate::paths::{extension_of, file_name_of, path_extension, path_file_name};
use crate::sorting::{
    chars_le, is_sorted_by, lemma_chars_le_total, lemma_chars_le_transitive, lemma_sorted_by_sorts,
    sorted_by, stable_sort_by, str_le, total_preorder,
};
use crate::input::GalleryCommand;
use crate::text::{lowercase_of, str_eq, to_lowercase};
use crate::thumbnail::{has_path, ThumbnailCache, THUMBNAIL_SIZE};

verus! {

/// Whether a lower-case extension is one of an image format the viewer
/// opens.
pub open spec fn is_image_extension(e: Seq<char>) -> bool {
    ||| e == "png"@
    ||| e == "jpg"@
    ||| e == "jpeg"@
    ||| e == "gif"@
    ||| e == "webp"@
    ||| e == "bmp"@
    ||| e == "tiff"@
    ||| e == "tif"@
    ||| e == "svg"@
    ||| e == "ico"@
    ||| e == "avif"@
}

/// Whether `path` has the extension of an image format, in any case.
pub open spec fn has_image_extension(path: Seq<char>) -> bool {
    match path_extension(path) {
        Some(e) => is_image_extension(lowercase_of(e)),
        None => false,
    }
}

/// Whether the file at `path` is one the gallery and the viewer show.
pub fn is_image_path(path: &str) -> (b: bool)
    ensures
        b == has_image_extension(path@),
{
    match extension_of(path) {
        Some(e) => {
            let lower = to_lowercase(e);
            let l = lower.as_str();
            str_eq(l, "png") || str_eq(l, "jpg") || str_eq(l, "jpeg") || str_eq(l, "gif")
                || str_eq(l, "webp") || str_eq(l, "bmp") || str_eq(l, "tiff") || str_eq(l, "tif")
                || str_eq(l, "svg") || str_eq(l, "ico") || str_eq(l, "avif")
        },
        None => false,
    }
}

/// Sort order for gallery.
#[derive(Debug, Clone, Copy, PartialEq, Eq, Structural)]
pub enum SortOrder {
    Name,
    NameDesc,
    Date,
    DateDesc,
    Size,
    SizeDesc,
}

impl Default for SortOrder {
    fn default() -> (s: Self)
        ensures
            s == SortOrder::Name,
    {
        SortOrder::Name
    }
}

/// A modification time: seconds and nanoseconds since the Unix epoch.
#[derive(Debug, Clone, Copy, PartialEq, Eq, Structural)]
pub struct FileTime {
    pub secs: u64,
    pub nanos: u32,
}

/// The next kind of order, ascending: name, then date, then size, then
/// name again.
pub open spec fn next_sort_kind(o: SortOrder) -> SortOrder {
    match o {
        SortOrder::Name | SortOrder::NameDesc => SortOrder::Date,
        SortOrder::Date | SortOrder::DateDesc => SortOrder::Size,
        SortOrder::Size | SortOrder::SizeDesc => SortOrder::Name,
    }
}

/// The same kind of order, the other way round.
pub open spec fn reverse_order(o: SortOrder) -> SortOrder {
    match o {
        SortOrder::Name => SortOrder::NameDesc,
        SortOrder::NameDesc => SortOrder::Name,
        SortOrder::Date => SortOrder::DateDesc,
        SortOrder::DateDesc => SortOrder::Date,
        SortOrder::Size => SortOrder::SizeDesc,
        SortOrder::SizeDesc => SortOrder::Size,
    }
}

impl SortOrder {
    /// The next kind of order (the gallery's `s` key).
    pub fn cycled(self) -> (o: SortOrder)
        ensures
            o == next_sort_kind(self),
    {
        match self {
            SortOrder::Name | SortOrder::NameDesc => SortOrder::Date,
            SortOrder::Date | SortOrder::DateDesc => SortOrder::Size,
            SortOrder::Size | SortOrder::SizeDesc => SortOrder::Name,
        }
    }

    /// The reverse order (the gallery's `S` key).
    pub fn reversed(self) -> (o: SortOrder)
        ensures
            o == reverse_order(self),
    {
        match self {
            SortOrder::Name => SortOrder::NameDesc,
            SortOrder::NameDesc => SortOrder::Name,
            SortOrder::Date => SortOrder::DateDesc,
            SortOrder::DateDesc => SortOrder::Date,
            SortOrder::Size => SortOrder::SizeDesc,
            SortOrder::SizeDesc => SortOrder::Size,
        }
    }
}

/// Reversing twice gives the order back; cycling goes through the three
/// ascending orders and comes back after three steps.
pub proof fn lemma_sort_order_cycles(o: SortOrder)
    ensures
        reverse_order(reverse_order(o)) == o,
        reverse_order(o) != o,
        next_sort_kind(next_sort_kind(next_sort_kind(next_sort_kind(o)))) == next_sort_kind(o),
        next_sort_kind(o) != next_sort_kind(next_sort_kind(o)),
{
}

/// The `s` key steps name, date, size, name, whichever way the current
/// order runs, and lands on an ascending order; the `S` key keeps the kind
/// and flips the direction.
pub proof fn lemma_sort_key_steps(o: SortOrder)
    ensures
        next_sort_kind(SortOrder::Name) == SortOrder::Date,
        next_sort_kind(SortOrder::NameDesc) == SortOrder::Date,
        next_sort_kind(SortOrder::Date) == SortOrder::Size,
        next_sort_kind(SortOrder::DateDesc) == SortOrder::Size,
        next_sort_kind(SortOrder::Size) == SortOrder::Name,
        next_sort_kind(SortOrder::SizeDesc) == SortOrder::Name,
        reverse_order(SortOrder::Name) == SortOrder::NameDesc,
        reverse_order(SortOrder::NameDesc) == SortOrder::Name,
        reverse_order(SortOrder::Date) == SortOrder::DateDesc,
        reverse_order(SortOrder::DateDesc) == SortOrder::Date,
        reverse_order(SortOrder::Size) == SortOrder::SizeDesc,
        reverse_order(SortOrder::SizeDesc) == SortOrder::Size,
{
}

/// Current view mode.
#[derive(Debug, Clone, Copy, PartialEq, Eq, Structural)]
pub enum ViewMode {
    /// Single image viewer.
    Image,
    /// Gallery/thumbnail grid.
    Gallery,
}

/// The view after the gallery key: the image view goes to the gallery
/// when there is one to show, the gallery goes back to the image view.
pub fn toggled_view_mode(mode: ViewMode, has_gallery: bool) -> (m: ViewMode)
    ensures
        mode == ViewMode::Gallery ==> m == ViewMode::Image,
        mode == ViewMode::Image ==> m == (if has_gallery {
            ViewMode::Gallery
        } else {
            ViewMode::Image
        }),
{
    match mode {
        ViewMode::Image => if has_gallery {
            ViewMode::Gallery
        } else {
            ViewMode::Image
        },
        ViewMode::Gallery => ViewMode::Image,
    }
}

/// File entry with metadata.
#[derive(Debug, Clone)]
pub struct FileEntry {
    /// Path of the file.
    pub path: String,
    /// Its file name ("" when the path has none).
    pub name: String,
    /// Size in bytes.
    pub size: u64,
    /// Modification time.
    pub modified: FileTime,
}

impl FileEntry {
    /// The entry of the file at `path`, named after the path's final
    /// component.
    pub fn new(path: String, size: u64, modified: FileTime) -> (e: Self)
        ensures
            e.path@ == path@,
            e.size == size,
            e.modified == modified,
            path_file_name(path@) matches Some(n) ==> e.name@ == n,
            path_file_name(path@) is None ==> e.name@ == Seq::<char>::empty(),
    {
        let name = match file_name_of(path.as_str()) {
            Some(n) => n.to_owned(),
            None => String::new(),
        };
        FileEntry { path, name, size, modified }
    }
}

/// `a` comes before `b` or ties with it in the given order (names as
/// strings, times by seconds then nanoseconds, sizes as numbers; the
/// descending orders reversed).
pub open spec fn entry_le(order: SortOrder, a: FileEntry, b: FileEntry) -> bool {
    match order {
        SortOrder::Name => chars_le(a.name@, b.name@),
        SortOrder::NameDesc => chars_le(b.name@, a.name@),
        SortOrder::Date => time_le(a.modified, b.modified),
        SortOrder::DateDesc => time_le(b.modified, a.modified),
        SortOrder::Size => a.size <= b.size,
        SortOrder::SizeDesc => b.size <= a.size,
    }
}

/// Time `a` is not after time `b`.
pub open spec fn time_le(a: FileTime, b: FileTime) -> bool {
    a.secs < b.secs || (a.secs == b.secs && a.nanos <= b.nanos)
}

/// The comparison of the given order.
pub open spec fn entry_order(order: SortOrder) -> spec_fn(FileEntry, FileEntry) -> bool {
    |a: FileEntry, b: FileEntry| entry_le(order, a, b)
}

fn entry_is_le(order: SortOrder, a: &FileEntry, b: &FileEntry) -> (r: bool)
    ensures
        r == entry_le(order, *a, *b),
{
    match order {
        SortOrder::Name => str_le(a.name.as_str(), b.name.as_str()),
        SortOrder::NameDesc => str_le(b.name.as_str(), a.name.as_str()),
        SortOrder::Date => a.modified.secs < b.modified.secs || (a.modified.secs
            == b.modified.secs && a.modified.nanos <= b.modified.nanos),
        SortOrder::DateDesc => b.modified.secs < a.modified.secs || (b.modified.secs
            == a.modified.secs && b.modified.nanos <= a.modified.nanos),
        SortOrder::Size => a.size <= b.size,
        SortOrder::SizeDesc => b.size <= a.size,
    }
}

/// The entries sorted stably in the given order.
pub fn sort_entries(files: Vec<FileEntry>, order: SortOrder) -> (r: Vec<FileEntry>)
    ensures
        r@ == sorted_by(files@, entry_order(order)),
{
    let le = |a: &FileEntry, b: &FileEntry| -> (r: bool)
        ensures
            r == entry_le(order, *a, *b),
        { entry_is_le(order, a, b) };
    stable_sort_by(files, le, Ghost(entry_order(order)))
}

/// The entries of image files among `files`, in their order.
pub open spec fn image_entries(files: Seq<FileEntry>) -> Seq<FileEntry> {
    files.filter(|e: FileEntry| has_image_extension(e.path@))
}

fn keep_images(files: Vec<FileEntry>) -> (r: Vec<FileEntry>)
    ensures
        r@ == image_entries(files@),
{
    let mut out: Vec<FileEntry> = Vec::new();
    let mut rest = files;
    let ghost all = rest@;
    let mut k: usize = 0;
    let n = rest.len();
    let mut rev: Vec<FileEntry> = Vec::new();
    while rest.len() > 0
        invariant
            rev@ + rest@.reverse() =~= all.reverse(),
        decreases rest@.len(),
    {
        let x = rest.pop().unwrap();
        proof {
            assert(rest@.push(x).reverse() =~= seq![x] + rest@.reverse());
        }
        rev.push(x);
    }
    proof {
        assert(rev@ =~= all.reverse());
        assert(all.take(0) =~= Seq::<FileEntry>::empty());
        reveal(Seq::filter);
    }
    while k < n
        invariant
            k <= n,
            n == all.len(),
            rev@.len() == n - k,
            forall|i: int| 0 <= i < n - k ==> #[trigger] rev@[i] == all[n - 1 - i],
            out@ == image_entries(all.take(k as int)),
        decreases n - k,
    {
        let x = rev.pop().unwrap();
        proof {
            assert(x == all[k as int]);
            assert(all.take(k + 1).drop_last() =~= all.take(k as int));
            reveal(Seq::filter);
        }
        if is_image_path(x.path.as_str()) {
            out.push(x);
        }
        k = k + 1;
    }
    proof {
        assert(all.take(n as int) =~= all);
    }
    out
}

/// Space around each thumbnail in the grid, in pixels.
pub const CELL_PADDING: u32 = 16;

/// Gallery view state.
pub struct GalleryView {
    /// Directory being viewed.
    directory: Option<String>,
    /// Image files, in the current order.
    files: Vec<FileEntry>,
    /// Thumbnail cache.
    pub cache: ThumbnailCache,
    /// Current selection index.
    selection: usize,
    /// Grid columns (from the viewport width).
    columns: usize,
    /// Thumbnail size including padding.
    cell_size: u32,
    /// Current sort order.
    sort_order: SortOrder,
}

impl GalleryView {
    /// The image files, in display order.
    pub closed spec fn entries(&self) -> Seq<FileEntry> {
        self.files@
    }

    /// The selected position.
    pub closed spec fn selected(&self) -> nat {
        self.selection as nat
    }

    /// The number of grid columns.
    pub closed spec fn grid_columns(&self) -> nat {
        self.columns as nat
    }

    /// The width of a grid cell, in pixels.
    pub closed spec fn cell(&self) -> nat {
        self.cell_size as nat
    }

    /// The sort order.
    pub closed spec fn order(&self) -> SortOrder {
        self.sort_order
    }

    /// The directory shown.
    pub closed spec fn dir(&self) -> Option<String> {
        self.directory
    }

    /// The thumbnail cache.
    pub closed spec fn thumbs(&self) -> ThumbnailCache {
        self.cache
    }

    /// At least one column, and cells of some width.
    pub open spec fn well_formed(&self) -> bool {
        self.grid_columns() >= 1 && self.cell() > 0
    }

    /// An empty gallery with four columns, sorted by name, whose thumbnails
    /// go through `cache`.
    pub fn new(cache: ThumbnailCache) -> (g: Self)
        ensures
            g.well_formed(),
            g.entries() == Seq::<FileEntry>::empty(),
            g.selected() == 0,
            g.grid_columns() == 4,
            g.cell() == THUMBNAIL_SIZE + CELL_PADDING,
            g.order() == SortOrder::Name,
            g.dir() is None,
            g.thumbs() == cache,
    {
        GalleryView {
            directory: None,
            files: Vec::new(),
            cache,
            selection: 0,
            columns: 4,
            cell_size: THUMBNAIL_SIZE + CELL_PADDING,
            sort_order: SortOrder::Name,
        }
    }

    /// Show the directory `dir`, whose files (listed by the caller) are
    /// `files`: the image files among them, in the current order, with the
    /// first one selected.
    pub fn open(&mut self, dir: String, files: Vec<FileEntry>)
        requires
            old(self).well_formed(),
        ensures
            final(self).well_formed(),
            final(self).dir() == Some(dir),
            final(self).entries() == sorted_by(image_entries(files@), entry_order(old(self).order())),
            final(self).selected() == 0,
            final(self).order() == old(self).order(),
            final(self).grid_columns() == old(self).grid_columns(),
            final(self).cell() == old(self).cell(),
            final(self).thumbs() == old(self).thumbs(),
    {
        self.directory = Some(dir);
        let images = keep_images(files);
        self.files = sort_entries(images, self.sort_order);
        self.selection = 0;
    }

    /// Set sort order; the files are sorted again when it changes.
    pub fn set_sort(&mut self, order: SortOrder)
        requires
            old(self).well_formed(),
        ensures
            final(self).well_formed(),
            final(self).order() == order,
            order != old(self).order() ==> final(self).entries() == sorted_by(
                old(self).entries(),
                entry_order(order),
            ),
            order == old(self).order() ==> final(self).entries() == old(self).entries(),
            final(self).selected() == old(self).selected(),
            final(self).dir() == old(self).dir(),
            final(self).grid_columns() == old(self).grid_columns(),
            final(self).thumbs() == old(self).thumbs(),
    {
        if self.sort_order != order {
            self.sort_order = order;
            let mut files: Vec<FileEntry> = Vec::new();
            std::mem::swap(&mut files, &mut self.files);
            self.files = sort_entries(files, order);
        }
    }

    /// Get current sort order.
    pub fn sort_order(&self) -> (o: SortOrder)
        ensures
            o == self.order(),
    {
        self.sort_order
    }

    /// Update grid layout based on viewport width: as many whole cells as
    /// fit, at least one.
    pub fn update_layout(&mut self, viewport_width: u32)
        requires
            old(self).well_formed(),
        ensures
            final(self).well_formed(),
            final(self).grid_columns() == if (viewport_width as nat) / old(self).cell() >= 1 {
                ((viewport_width as nat) / old(self).cell()) as nat
            } else {
                1
            },
            final(self).entries() == old(self).entries(),
            final(self).selected() == old(self).selected(),
            final(self).cell() == old(self).cell(),
            final(self).order() == old(self).order(),
            final(self).dir() == old(self).dir(),
            final(self).thumbs() == old(self).thumbs(),
    {
        let c = (viewport_width / self.cell_size) as usize;
        self.columns = if c >= 1 {
            c
        } else {
            1
        };
    }

    /// The range of file positions in the rows from `start_row` that a
    /// viewport of `viewport_height` pixels shows (plus two rows).
    pub fn visible_range(&self, start_row: usize, viewport_height: u32) -> (r: (usize, usize))
        requires
            self.well_formed(),
            (start_row + (viewport_height as nat) / self.cell() + 2) * self.grid_columns() <= usize::MAX,
        ensures
            r.0 == start_row * self.grid_columns(),
            r.1 == min_int(
                (start_row + (viewport_height as nat) / self.cell() + 2) * self.grid_columns(),
                self.entries().len() as int,
            ),
    {
        proof {
            let a = start_row + (viewport_height as nat) / self.cell() + 2;
            assert(a <= a * self.grid_columns()) by (nonlinear_arith)
                requires
                    self.grid_columns() >= 1,
                    a >= 0,
            ;
        }
        let visible_rows = (viewport_height / self.cell_size) as usize + 2;
        proof {
            assert(start_row * self.columns <= (start_row + visible_rows) * self.columns)
                by (nonlinear_arith);
        }
        let start_idx = start_row * self.columns;
        let end = (start_row + visible_rows) * self.columns;
        let end_idx = if end < self.files.len() {
            end
        } else {
            self.files.len()
        };
        (start_idx, end_idx)
    }

    /// The files among positions `start..end` whose thumbnail is neither in
    /// memory nor being generated; the caller loads each from the disk
    /// cache or requests it.
    pub fn missing_thumbnails(&self, start: usize, end: usize) -> (r: Vec<String>)
        ensures
            r@.len() == missing_in(
                self.entries(),
                self.thumbs(),
                start as int,
                min_int(end as int, self.entries().len() as int),
            ).len(),
            forall|i: int|
                0 <= i < r@.len() ==> #[trigger] r@[i]@ == missing_in(
                    self.entries(),
                    self.thumbs(),
                    start as int,
                    min_int(end as int, self.entries().len() as int),
                )[i]@,
    {
        let mut out: Vec<String> = Vec::new();
        let stop = if end < self.files.len() {
            end
        } else {
            self.files.len()
        };
        let mut i = start;
        if stop <= start {
            return out;
        }
        while i < stop
            invariant
                start <= i <= stop,
                stop <= self.files@.len(),
                stop == min_int(end as int, self.files@.len() as int),
                out@.len() == missing_in(self.files@, self.cache, start as int, i as int).len(),
                forall|t: int|
                    0 <= t < out@.len() ==> #[trigger] out@[t]@ == missing_in(
                        self.files@,
                        self.cache,
                        start as int,
                        i as int,
                    )[t]@,
            decreases stop - i,
        {
            let path = self.files[i].path.as_str();
            if self.cache.get(path).is_none() && !self.cache.is_pending(path) {
                out.push(path.to_owned());
            }
            i = i + 1;
        }
        out
    }

    /// Navigate selection: next file.  Returns whether it moved.
    pub fn select_next(&mut self) -> (moved: bool)
        ensures
            moved == (old(self).selected() + 1 < old(self).entries().len()),
            moved ==> final(self).selected() == old(self).selected() + 1,
            !moved ==> final(self).selected() == old(self).selected(),
            final(self).same_but_selection(old(self)),
    {
        if self.files.len() > 0 && self.selection < self.files.len() - 1 {
            self.selection = self.selection + 1;
            true
        } else {
            false
        }
    }

    /// Navigate selection: previous file.  Returns whether it moved.
    pub fn select_prev(&mut self) -> (moved: bool)
        ensures
            moved == (old(self).selected() > 0),
            moved ==> final(self).selected() == old(self).selected() - 1,
            !moved ==> final(self).selected() == old(self).selected(),
            final(self).same_but_selection(old(self)),
    {
        if self.selection > 0 {
            self.selection = self.selection - 1;
            true
        } else {
            false
        }
    }

    /// Navigate selection: one row down.  Returns whether it moved.
    pub fn select_down(&mut self) -> (moved: bool)
        ensures
            moved == (old(self).selected() + old(self).grid_columns() < old(self).entries().len()),
            moved ==> final(self).selected() == old(self).selected() + old(self).grid_columns(),
            !moved ==> final(self).selected() == old(self).selected(),
            final(self).same_but_selection(old(self)),
    {
        let n = self.files.len();
        if self.columns <= n && self.selection < n - self.columns {
            self.selection = self.selection + self.columns;
            true
        } else {
            false
        }
    }

    /// Navigate selection: one row up.  Returns whether it moved.
    pub fn select_up(&mut self) -> (moved: bool)
        ensures
            moved == (old(self).selected() >= old(self).grid_columns()),
            moved ==> final(self).selected() == old(self).selected() - old(self).grid_columns(),
            !moved ==> final(self).selected() == old(self).selected(),
            final(self).same_but_selection(old(self)),
    {
        if self.selection >= self.columns {
            self.selection = self.selection - self.columns;
            true
        } else {
            false
        }
    }

    /// Everything but the selection is as in `other`.
    pub open spec fn same_but_selection(&self, other: &Self) -> bool {
        &&& self.entries() == other.entries()
        &&& self.grid_columns() == other.grid_columns()
        &&& self.cell() == other.cell()
        &&& self.order() == other.order()
        &&& self.dir() == other.dir()
        &&& self.thumbs() == other.thumbs()
    }

    /// The grid row of the selection (for keeping it in view).
    pub fn selected_row(&self) -> (row: usize)
        requires
            self.well_formed(),
        ensures
            row == self.selected() / self.grid_columns(),
    {
        self.selection / self.columns
    }

    /// Get selected file path.
    pub fn selected_path(&self) -> (p: Option<&str>)
        ensures
            self.selected() < self.entries().len() ==> (p matches Some(s) && s@ == self.entries()[
                self.selected() as int
            ].path@),
            self.selected() >= self.entries().len() ==> p is None,
    {
        if self.selection < self.files.len() {
            Some(self.files[self.selection].path.as_str())
        } else {
            None
        }
    }

    /// Get file count.
    pub fn file_count(&self) -> (n: usize)
        ensures
            n == self.entries().len(),
    {
        self.files.len()
    }

    /// Get current selection index.
    pub fn selection_index(&self) -> (i: usize)
        ensures
            i == self.selected(),
    {
        self.selection
    }

    /// Check if gallery is empty.
    pub fn is_empty(&self) -> (b: bool)
        ensures
            b == (self.entries().len() == 0),
    {
        self.files.len() == 0
    }

    /// Get directory path.
    pub fn directory(&self) -> (d: Option<&str>)
        ensures
            match self.dir() {
                Some(s) => d matches Some(t) && t@ == s@,
                None => d is None,
            },
    {
        match &self.directory {
            Some(s) => Some(s.as_str()),
            None => None,
        }
    }
}

/// The smaller of two integers.
pub open spec fn min_int(a: int, b: int) -> int {
    if a <= b {
        a
    } else {
        b
    }
}

/// The paths of the files at positions `start..end` that have no
/// thumbnail in memory and none being generated, in order.
pub open spec fn missing_in(files: Seq<FileEntry>, cache: ThumbnailCache, start: int, end: int) -> Seq<
    String,
>
    decreases end - start,
{
    if end <= start || end > files.len() {
        Seq::empty()
    } else {
        let p = files[end - 1].path;
        let before = missing_in(files, cache, start, end - 1);
        if !cache.memory().contains_key(p@) && !has_path(cache.pending_paths(), p@) {
            before.push(p)
        } else {
            before
        }
    }
}

/// Each gallery order is a total preorder.
pub proof fn lemma_entry_order_total(order: SortOrder)
    ensures
        total_preorder(entry_order(order)),
{
    let le = entry_order(order);
    assert forall|a: FileEntry, b: FileEntry| #[trigger] le(a, b) || #[trigger] le(b, a) by {
        lemma_chars_le_total(a.name@, b.name@);
    }
    assert forall|a: FileEntry, b: FileEntry, c: FileEntry| #[trigger] le(a, b) && #[trigger] le(
        b,
        c,
    ) implies le(a, c) by {
        match order {
            SortOrder::Name => lemma_chars_le_transitive(a.name@, b.name@, c.name@),
            SortOrder::NameDesc => lemma_chars_le_transitive(c.name@, b.name@, a.name@),
            _ => {},
        }
    }
}

/// The gallery shows exactly the image files it was given, in the chosen
/// order.
pub proof fn lemma_gallery_in_order(files: Seq<FileEntry>, order: SortOrder)
    ensures
        is_sorted_by(sorted_by(image_entries(files), entry_order(order)), entry_order(order)),
        sorted_by(image_entries(files), entry_order(order)).to_multiset() == image_entries(
            files,
        ).to_multiset(),
{
    lemma_entry_order_total(order);
    lemma_sorted_by_sorts(image_entries(files), entry_order(order));
}

/// Stepping to the next file and back again returns to the same file.
pub proof fn lemma_next_then_prev(g0: GalleryView, g1: GalleryView, m1: bool, g2: GalleryView, m2: bool)
    requires
        m1 == (g0.selected() + 1 < g0.entries().len()),
        m1 ==> g1.selected() == g0.selected() + 1,
        g1.same_but_selection(&g0),
        m2 == (g1.selected() > 0),
        m2 ==> g2.selected() == g1.selected() - 1,
        m1,
    ensures
        m2,
        g2.selected() == g0.selected(),
{
}

/// Stepping a row down and back up again returns to the same file.
pub proof fn lemma_down_then_up(g0: GalleryView, g1: GalleryView, m1: bool, g2: GalleryView, m2: bool)
    requires
        m1 == (g0.selected() + g0.grid_columns() < g0.entries().len()),
        m1 ==> g1.selected() == g0.selected() + g0.grid_columns(),
        g1.same_but_selection(&g0),
        m2 == (g1.selected() >= g1.grid_columns()),
        m2 ==> g2.selected() == g1.selected() - g1.grid_columns(),
        m1,
    ensures
        m2,
        g2.selected() == g0.selected(),
{
}


impl GalleryView {
    /// Carries out a gallery key: moves the selection, changes the order,
    /// or (for `OpenSelected`) gives the selected file to open, leaving the
    /// gallery as it is.
    pub fn apply(&mut self, cmd: GalleryCommand) -> (open: Option<String>)
        requires
            old(self).well_formed(),
        ensures
            final(self).well_formed(),
            cmd != GalleryCommand::OpenSelected ==> open is None,
            match cmd {
                GalleryCommand::SelectNext => final(self).same_but_selection(old(self))
                    && final(self).selected() == if old(self).selected() + 1 < old(
                    self,
                ).entries().len() {
                    (old(self).selected() + 1) as int
                } else {
                    old(self).selected() as int
                },
                GalleryCommand::SelectPrev => final(self).same_but_selection(old(self))
                    && final(self).selected() == if old(self).selected() > 0 {
                    old(self).selected() - 1
                } else {
                    old(self).selected() as int
                },
                GalleryCommand::SelectDown => final(self).same_but_selection(old(self))
                    && final(self).selected() == if old(self).selected() + old(self).grid_columns()
                    < old(self).entries().len() {
                    (old(self).selected() + old(self).grid_columns()) as int
                } else {
                    old(self).selected() as int
                },
                GalleryCommand::SelectUp => final(self).same_but_selection(old(self))
                    && final(self).selected() == if old(self).selected() >= old(
                    self,
                ).grid_columns() {
                    old(self).selected() - old(self).grid_columns()
                } else {
                    old(self).selected() as int
                },
                GalleryCommand::OpenSelected => *final(self) == *old(self) && if old(self).selected()
                    < old(self).entries().len() {
                    open matches Some(p) && p@ == old(self).entries()[old(
                        self,
                    ).selected() as int].path@
                } else {
                    open is None
                },
                GalleryCommand::CycleSort => final(self).order() == next_sort_kind(old(self).order())
                    && final(self).selected() == old(self).selected() && final(self).dir() == old(
                    self,
                ).dir() && (next_sort_kind(old(self).order()) != old(self).order()
                    ==> final(self).entries() == sorted_by(
                    old(self).entries(),
                    entry_order(next_sort_kind(old(self).order())),
                )),
                GalleryCommand::ReverseSort => final(self).order() == reverse_order(
                    old(self).order(),
                ) && final(self).selected() == old(self).selected() && final(self).dir() == old(
                    self,
                ).dir() && final(self).entries() == sorted_by(
                    old(self).entries(),
                    entry_order(reverse_order(old(self).order())),
                ),
            },
    {
        match cmd {
            GalleryCommand::SelectNext => {
                self.select_next();
                None
            },
            GalleryCommand::SelectPrev => {
                self.select_prev();
                None
            },
            GalleryCommand::SelectDown => {
                self.select_down();
                None
            },
            GalleryCommand::SelectUp => {
                self.select_up();
                None
            },
            GalleryCommand::OpenSelected => match self.selected_path() {
                Some(p) => Some(p.to_owned()),
                None => None,
            },
            GalleryCommand::CycleSort => {
                let o = self.sort_order().cycled();
                self.set_sort(o);
                None
            },
            GalleryCommand::ReverseSort => {
                let o = self.sort_order().reversed();
                self.set_sort(o);
                None
            },
        }
    }
}


/// Sorting by date puts an older file before a newer one: a file modified
/// in an earlier second comes strictly first, whatever the nanoseconds;
/// within one second the nanoseconds decide.  By size, a smaller file comes
/// strictly first.  The descending orders are the other way round.
pub proof fn lemma_date_and_size_orders(a: FileEntry, b: FileEntry)
    ensures
        a.modified.secs < b.modified.secs ==> entry_le(SortOrder::Date, a, b) && !entry_le(
            SortOrder::Date,
            b,
            a,
        ),
        a.modified.secs < b.modified.secs ==> entry_le(SortOrder::DateDesc, b, a) && !entry_le(
            SortOrder::DateDesc,
            a,
            b,
        ),
        a.modified.secs == b.modified.secs ==> (entry_le(SortOrder::Date, a, b) <==> a.modified.nanos
            <= b.modified.nanos),
        a.size < b.size ==> entry_le(SortOrder::Size, a, b) && !entry_le(SortOrder::Size, b, a),
        a.size < b.size ==> entry_le(SortOrder::SizeDesc, b, a) && !entry_le(
            SortOrder::SizeDesc,
            a,
            b,
        ),
        a.size == b.size ==> entry_le(SortOrder::Size, a, b) && entry_le(SortOrder::SizeDesc, a, b),
{
}

/// In the sorted files, every file comes before the later ones in the
/// sense of the order's fields: by date, its (seconds, nanoseconds) are not
/// after theirs; by size, its size is not larger; descending the other way.
pub proof fn lemma_sorted_entries_by_fields(files: Seq<FileEntry>, order: SortOrder)
    ensures
        ({
            let r = sorted_by(files, entry_order(order));
            forall|i: int, j: int|
                0 <= i < j < r.len() ==> match order {
                    SortOrder::Date => #[trigger] r[i].modified.secs < #[trigger] r[j].modified.secs
                        || (r[i].modified.secs == r[j].modified.secs && r[i].modified.nanos
                        <= r[j].modified.nanos),
                    SortOrder::DateDesc => r[j].modified.secs < r[i].modified.secs || (
                    r[j].modified.secs == r[i].modified.secs && r[j].modified.nanos
                        <= r[i].modified.nanos),
                    SortOrder::Size => r[i].size <= r[j].size,
                    SortOrder::SizeDesc => r[j].size <= r[i].size,
                    SortOrder::Name => chars_le(r[i].name@, r[j].name@),
                    SortOrder::NameDesc => chars_le(r[j].name@, r[i].name@),
                }
        }),
{
    lemma_entry_order_total(order);
    lemma_sorted_by_sorts(files, entry_order(order));
    let r = sorted_by(files, entry_order(order));
    assert forall|i: int, j: int| 0 <= i < j < r.len() implies entry_le(order, r[i], r[j]) by {
        assert(entry_order(order)(r[i], r[j]));
    }
}

/// The image files are those with one of the extensions png, jpg, jpeg,
/// gif, webp, bmp, tiff, tif, svg, ico and avif, in any case (the
/// extension lower-cased as `str::to_lowercase` does); no other file is.
pub proof fn lemma_image_extensions(p: Seq<char>)
    ensures
        has_image_extension(p) <==> (path_extension(p) matches Some(e) && {
            let l = lowercase_of(e);
            l == seq!['p', 'n', 'g'] || l == seq!['j', 'p', 'g'] || l == seq!['j', 'p', 'e', 'g']
                || l == seq!['g', 'i', 'f'] || l == seq!['w', 'e', 'b', 'p'] || l == seq![
                'b',
                'm',
                'p',
            ] || l == seq!['t', 'i', 'f', 'f'] || l == seq!['t', 'i', 'f'] || l == seq![
                's',
                'v',
                'g',
            ] || l == seq!['i', 'c', 'o'] || l == seq!['a', 'v', 'i', 'f']
        }),
{
    reveal_strlit("png");
    reveal_strlit("jpg");
    reveal_strlit("jpeg");
    reveal_strlit("gif");
    reveal_strlit("webp");
    reveal_strlit("bmp");
    reveal_strlit("tiff");
    reveal_strlit("tif");
    reveal_strlit("svg");
    reveal_strlit("ico");
    reveal_strlit("avif");
    match path_extension(p) {
        Some(e) => {
            let l = lowercase_of(e);
            assert("png"@ =~= seq!['p', 'n', 'g']);
            assert("jpg"@ =~= seq!['j', 'p', 'g']);
            assert("jpeg"@ =~= seq!['j', 'p', 'e', 'g']);
            assert("gif"@ =~= seq!['g', 'i', 'f']);
            assert("webp"@ =~= seq!['w', 'e', 'b', 'p']);
            assert("bmp"@ =~= seq!['b', 'm', 'p']);
            assert("tiff"@ =~= seq!['t', 'i', 'f', 'f']);
            assert("tif"@ =~= seq!['t', 'i', 'f']);
            assert("svg"@ =~= seq!['s', 'v', 'g']);
            assert("ico"@ =~= seq!['i', 'c', 'o']);
            assert("avif"@ =~= seq!['a', 'v', 'i', 'f']);
        },
        None => {},
    }
}

} // verus!
