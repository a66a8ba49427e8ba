//! The sidebar of a multi-page document: page thumbnails and the table of
//! contents, in two tabs.
//!
//! Positions in pixels (the scroll offset and the point of a click) are
//! worked out around the library; the sidebar keeps the scroll offset as
//! the bit pattern of its `f64` value and is told which row was clicked.
use vstd::prelude::*;
use vstd::hash_map::HashMapWithView;

verus! {

/// Sidebar tab.
#[derive(Debug, Clone, Copy, PartialEq, Eq, Structural)]
pub enum SidebarTab {
    Thumbnails,
    TableOfContents,
}

impl Default for SidebarTab {
    fn default() -> (t: Self)
        ensures
            t == SidebarTab::Thumbnails,
    {
        SidebarTab::Thumbnails
    }
}

/// Table of contents entry.
#[derive(Debug, Clone)]
pub struct TocEntry {
    pub title: String,
    pub page: usize,
    pub level: usize,
}

/// Thumbnail data for a page.
#[derive(Debug, Clone)]
pub struct ThumbnailData {
    pub width: u32,
    pub height: u32,
    /// RGBA pixels.
    pub data: Vec<u8>,
}

/// Sidebar width.
pub const SIDEBAR_WIDTH: u32 = 200;

/// Thumbnail height.
pub const THUMBNAIL_HEIGHT: u32 = 150;

/// Thumbnail padding.
pub const THUMBNAIL_PADDING: u32 = 10;

/// Tab bar height.
pub const TAB_BAR_HEIGHT: u32 = 32;

/// Height of a table of contents row.
pub const TOC_ROW_HEIGHT: u32 = 24;

/// Sidebar state.
pub struct Sidebar {
    /// Whether sidebar is visible.
    visible: bool,
    /// Sidebar width in pixels.
    width: u32,
    /// Current tab.
    tab: SidebarTab,
    /// Scroll offset, as the bits of an `f64`.
    scroll_y: u64,
    /// Page thumbnails, by page index.
    thumbnails: HashMapWithView<usize, ThumbnailData>,
    /// Table of contents.
    toc: Vec<TocEntry>,
    /// Currently selected page.
    selected_page: Option<usize>,
    /// Total page count.
    page_count: usize,
}

impl Sidebar {
    /// Whether it is shown.
    pub closed spec fn shown(&self) -> bool {
        self.visible
    }

    /// Its width.
    pub closed spec fn width_px(&self) -> u32 {
        self.width
    }

    /// The open tab.
    pub closed spec fn current_tab(&self) -> SidebarTab {
        self.tab
    }

    /// The scroll offset's bits.
    pub closed spec fn scroll(&self) -> u64 {
        self.scroll_y
    }

    /// The thumbnails, by page.
    pub closed spec fn thumbs(&self) -> Map<usize, ThumbnailData> {
        self.thumbnails@
    }

    /// The table of contents.
    pub closed spec fn contents(&self) -> Seq<TocEntry> {
        self.toc@
    }

    /// The selected page.
    pub closed spec fn selected(&self) -> Option<usize> {
        self.selected_page
    }

    /// The number of pages.
    pub closed spec fn pages(&self) -> usize {
        self.page_count
    }

    /// A hidden sidebar on the thumbnails tab, with nothing in it.
    pub fn new() -> (s: Self)
        ensures
            !s.shown(),
            s.width_px() == SIDEBAR_WIDTH,
            s.current_tab() == SidebarTab::Thumbnails,
            s.scroll() == 0,
            s.thumbs() == Map::<usize, ThumbnailData>::empty(),
            s.contents() == Seq::<TocEntry>::empty(),
            s.selected() is None,
            s.pages() == 0,
    {
        broadcast use vstd::std_specs::hash::group_hash_axioms;

        Sidebar {
            visible: false,
            width: SIDEBAR_WIDTH,
            tab: SidebarTab::Thumbnails,
            scroll_y: 0,
            thumbnails: HashMapWithView::new(),
            toc: Vec::new(),
            selected_page: None,
            page_count: 0,
        }
    }

    /// Toggle sidebar visibility.
    pub fn toggle(&mut self)
        ensures
            final(self).shown() == !old(self).shown(),
            final(self).current_tab() == old(self).current_tab(),
            final(self).scroll() == old(self).scroll(),
            final(self).thumbs() == old(self).thumbs(),
            final(self).contents() == old(self).contents(),
            final(self).selected() == old(self).selected(),
            final(self).pages() == old(self).pages(),
    {
        self.visible = !self.visible;
    }

    /// Set page count and reset state: no thumbnails, no selection, scrolled
    /// to the top.
    pub fn set_page_count(&mut self, count: usize)
        ensures
            final(self).pages() == count,
            final(self).thumbs() == Map::<usize, ThumbnailData>::empty(),
            final(self).scroll() == 0,
            final(self).selected() is None,
            final(self).shown() == old(self).shown(),
            final(self).current_tab() == old(self).current_tab(),
            final(self).contents() == old(self).contents(),
    {
        self.page_count = count;
        self.thumbnails.clear();
        self.scroll_y = 0;
        self.selected_page = None;
    }

    /// Set table of contents.
    pub fn set_toc(&mut self, toc: Vec<TocEntry>)
        ensures
            final(self).contents() == toc@,
            final(self).pages() == old(self).pages(),
            final(self).thumbs() == old(self).thumbs(),
            final(self).scroll() == old(self).scroll(),
            final(self).selected() == old(self).selected(),
            final(self).current_tab() == old(self).current_tab(),
    {
        self.toc = toc;
    }

    /// Add a thumbnail for a page.
    pub fn add_thumbnail(&mut self, page: usize, data: ThumbnailData)
        ensures
            final(self).thumbs() == old(self).thumbs().insert(page, data),
            final(self).pages() == old(self).pages(),
            final(self).contents() == old(self).contents(),
            final(self).scroll() == old(self).scroll(),
            final(self).selected() == old(self).selected(),
    {
        self.thumbnails.insert(page, data);
    }

    /// The thumbnail of a page, if there is one.
    pub fn thumbnail(&self, page: usize) -> (r: Option<&ThumbnailData>)
        ensures
            match r {
                Some(t) => self.thumbs().contains_key(page) && *t == self.thumbs()[page],
                None => !self.thumbs().contains_key(page),
            },
    {
        self.thumbnails.get(&page)
    }

    /// Switch tabs, scrolled to the top.
    pub fn switch_tab(&mut self, tab: SidebarTab)
        ensures
            final(self).current_tab() == tab,
            final(self).scroll() == 0,
            final(self).shown() == old(self).shown(),
            final(self).pages() == old(self).pages(),
            final(self).thumbs() == old(self).thumbs(),
            final(self).contents() == old(self).contents(),
            final(self).selected() == old(self).selected(),
    {
        self.tab = tab;
        self.scroll_y = 0;
    }

    /// Height of a row of the open tab, in pixels.
    pub fn row_height(&self) -> (h: u32)
        ensures
            h == match self.current_tab() {
                SidebarTab::Thumbnails => THUMBNAIL_HEIGHT + THUMBNAIL_PADDING,
                SidebarTab::TableOfContents => TOC_ROW_HEIGHT as int,
            },
    {
        match self.tab {
            SidebarTab::Thumbnails => THUMBNAIL_HEIGHT + THUMBNAIL_PADDING,
            SidebarTab::TableOfContents => TOC_ROW_HEIGHT,
        }
    }

    /// Height of the content of the open tab, in pixels: a row per page or
    /// per contents entry.
    pub fn content_height(&self) -> (h: u128)
        ensures
            h == match self.current_tab() {
                SidebarTab::Thumbnails => self.pages() * (THUMBNAIL_HEIGHT + THUMBNAIL_PADDING),
                SidebarTab::TableOfContents => self.contents().len() * TOC_ROW_HEIGHT,
            },
    {
        let rows: u128 = match self.tab {
            SidebarTab::Thumbnails => self.page_count as u128,
            SidebarTab::TableOfContents => self.toc.len() as u128,
        };
        let row = self.row_height() as u128;
        proof {
            assert(rows * row <= 0xFFFF_FFFF_FFFF_FFFFu128 * 0xFFFF_FFFFu128) by (nonlinear_arith)
                requires
                    rows <= 0xFFFF_FFFF_FFFF_FFFFu128,
                    row <= 0xFFFF_FFFFu128,
            ;
        }
        rows * row
    }

    /// The scroll offset, as the bits of an `f64`.
    pub fn scroll_bits(&self) -> (b: u64)
        ensures
            b == self.scroll(),
    {
        self.scroll_y
    }

    /// Set the scroll offset, given as the bits of an `f64`.
    pub fn set_scroll_bits(&mut self, bits: u64)
        ensures
            final(self).scroll() == bits,
            final(self).shown() == old(self).shown(),
            final(self).current_tab() == old(self).current_tab(),
            final(self).pages() == old(self).pages(),
            final(self).thumbs() == old(self).thumbs(),
            final(self).contents() == old(self).contents(),
            final(self).selected() == old(self).selected(),
    {
        self.scroll_y = bits;
    }

    /// A click on row `row` of the open tab's content: the page it shows
    /// (a page on the thumbnails tab, an entry's page on the contents tab)
    /// becomes the selected page and is returned; `None` past the last row.
    pub fn click_row(&mut self, row: usize) -> (r: Option<usize>)
        ensures
            match old(self).current_tab() {
                SidebarTab::Thumbnails => if row < old(self).pages() {
                    r == Some(row)
                } else {
                    r is None
                },
                SidebarTab::TableOfContents => if row < old(self).contents().len() {
                    r == Some(old(self).contents()[row as int].page)
                } else {
                    r is None
                },
            },
            r is Some ==> final(self).selected() == r,
            r is None ==> final(self).selected() == old(self).selected(),
            final(self).shown() == old(self).shown(),
            final(self).current_tab() == old(self).current_tab(),
            final(self).scroll() == old(self).scroll(),
            final(self).pages() == old(self).pages(),
            final(self).thumbs() == old(self).thumbs(),
            final(self).contents() == old(self).contents(),
    {
        match self.tab {
            SidebarTab::Thumbnails => {
                if row < self.page_count {
                    self.selected_page = Some(row);
                    Some(row)
                } else {
                    None
                }
            },
            SidebarTab::TableOfContents => {
                if row < self.toc.len() {
                    let page = self.toc[row].page;
                    self.selected_page = Some(page);
                    Some(page)
                } else {
                    None
                }
            },
        }
    }

    /// Whether it is shown.
    pub fn is_visible(&self) -> (b: bool)
        ensures
            b == self.shown(),
    {
        self.visible
    }

    /// Its width in pixels.
    pub fn width(&self) -> (w: u32)
        ensures
            w == self.width_px(),
    {
        self.width
    }

    /// The open tab.
    pub fn tab(&self) -> (t: SidebarTab)
        ensures
            t == self.current_tab(),
    {
        self.tab
    }

    /// The table of contents.
    pub fn toc(&self) -> (t: &Vec<TocEntry>)
        ensures
            t@ == self.contents(),
    {
        &self.toc
    }

    /// The selected page.
    pub fn selected_page(&self) -> (p: Option<usize>)
        ensures
            p == self.selected(),
    {
        self.selected_page
    }

    /// The number of pages.
    pub fn page_count(&self) -> (n: usize)
        ensures
            n == self.pages(),
    {
        self.page_count
    }
}

impl Default for Sidebar {
    fn default() -> (s: Self)
        ensures
            !s.shown(),
            s.pages() == 0,
            s.current_tab() == SidebarTab::Thumbnails,
    {
        Sidebar::new()
    }
}

} // verus!
