use garview::formats::{
    backend_for_path, loads_in_foreground, sendable_backend_for_path, sibling_images, BackendKind,
};
use garview::gallery::{
    is_image_path, sort_entries, toggled_view_mode, FileEntry, FileTime, GalleryView, SortOrder,
    ViewMode,
};
use garview::input::GalleryCommand;
use garview::sidebar::{Sidebar, SidebarTab, ThumbnailData, TocEntry};
use garview::thumbnail::{ThumbnailCache, THUMBNAIL_SIZE};
use garview::viewer::{DocumentViewMode, ImageViewer, LoadState, SearchResult};

fn s(v: &[&str]) -> Vec<String> {
    v.iter().map(|x| x.to_string()).collect()
}

fn loaded(path: &str, listing: &[&str], doc: (usize, bool)) -> ImageViewer<u32> {
    let mut v: ImageViewer<u32> = ImageViewer::new();
    v.begin_load(path.to_string(), Some(s(listing)));
    assert!(v.complete_load(Some(doc)));
    v
}

#[test]
fn viewer_starts_empty() {
    let v: ImageViewer<u32> = ImageViewer::new();
    assert_eq!(v.load_state(), LoadState::Empty);
    assert_eq!(v.current_path(), None);
    assert_eq!(v.page_count(), 1);
    assert_eq!(v.rotation(), 0);
    assert_eq!(v.view_mode(), DocumentViewMode::SinglePage);
    assert_eq!(v.directory_position(), None);
}

#[test]
fn viewer_load_lists_sorted_image_siblings() {
    let mut v: ImageViewer<u32> = ImageViewer::new();
    v.begin_load(
        "/d/b.png".to_string(),
        Some(s(&["/d/notes.txt", "/d/c.JPG", "/d/b.png", "/d/a.gif"])),
    );
    assert_eq!(v.load_state(), LoadState::Loading);
    assert_eq!(v.current_path(), Some("/d/b.png"));
    assert_eq!(v.directory_position(), Some((2, 3)));
    assert!(v.complete_load(Some((1, false))));
    assert_eq!(v.load_state(), LoadState::Ready);
    assert_eq!(v.next_image(), Some("/d/c.JPG".to_string()));
    assert_eq!(v.next_image(), Some("/d/a.gif".to_string()));
    assert_eq!(v.prev_image(), Some("/d/c.JPG".to_string()));
    assert_eq!(v.directory_position(), Some((3, 3)));
}

#[test]
fn viewer_failed_load_and_unreadable_directory() {
    let mut v = loaded("/d/a.png", &["/d/a.png", "/d/b.png"], (1, false));
    v.begin_load("/elsewhere/x.png".to_string(), None);
    assert_eq!(v.directory_position(), Some((1, 2)));
    assert!(v.complete_load(None));
    assert_eq!(v.load_state(), LoadState::Failed);
    assert!(!v.complete_load(Some((3, false))));
    assert_eq!(v.load_state(), LoadState::Failed);
}

#[test]
fn viewer_single_file_has_no_neighbour() {
    let mut v = loaded("/d/a.png", &["/d/a.png"], (1, false));
    assert_eq!(v.next_image(), None);
    assert_eq!(v.prev_image(), None);
}

#[test]
fn viewer_rotation_and_flips() {
    let mut v = loaded("/a.png", &["/a.png"], (1, false));
    v.rotate_cw();
    assert_eq!(v.rotation(), 90);
    v.rotate_ccw();
    v.rotate_ccw();
    assert_eq!(v.rotation(), 270);
    for _ in 0..4 {
        v.rotate_cw();
    }
    assert_eq!(v.rotation(), 270);
    v.flip_horizontal();
    assert!(v.is_flipped_h());
    assert!(!v.is_flipped_v());
    v.flip_vertical();
    v.flip_horizontal();
    assert!(!v.is_flipped_h());
    assert!(v.is_flipped_v());
}

#[test]
fn viewer_new_document_resets_orientation() {
    let mut v = loaded("/a.png", &["/a.png"], (1, false));
    v.rotate_cw();
    v.flip_vertical();
    v.begin_load("/a.png".to_string(), None);
    v.complete_load(Some((1, false)));
    assert_eq!(v.rotation(), 0);
    assert!(!v.is_flipped_v());
}

#[test]
fn viewer_page_navigation() {
    let mut v = loaded("/doc.pdf", &["/doc.pdf"], (5, false));
    assert!(v.is_multipage());
    assert_eq!(v.page_position(), Some((1, 5)));
    assert!(v.next_page());
    assert_eq!(v.current_page(), 1);
    assert!(v.last_page());
    assert_eq!(v.current_page(), 4);
    assert!(!v.next_page());
    assert!(v.prev_page());
    assert_eq!(v.current_page(), 3);
    assert!(v.first_page());
    assert!(!v.prev_page());
    assert!(!v.goto_page(5));
    assert!(v.goto_page(2));
    assert!(!v.goto_page(2));
    assert_eq!(v.page_position(), Some((3, 5)));
}

#[test]
fn viewer_animation() {
    let mut v = loaded("/a.gif", &["/a.gif"], (3, true));
    assert!(v.is_animated());
    assert!(!v.is_multipage());
    assert_eq!(v.frame_count(), 3);
    assert!(!v.next_page());
    assert!(!v.tick_animation(50_000_000, None));
    assert!(v.tick_animation(100_000_000, None));
    assert_eq!(v.current_page(), 1);
    assert!(v.tick_animation(30, Some(20)));
    assert!(v.advance_frame());
    assert_eq!(v.current_page(), 0);
    let mut still = loaded("/b.png", &["/b.png"], (1, false));
    assert!(!still.tick_animation(u128::MAX, None));
    assert!(!still.advance_frame());
}

#[test]
fn viewer_view_modes() {
    let mut v = loaded("/doc.pdf", &["/doc.pdf"], (4, false));
    assert!(v.cycle_view_mode());
    assert_eq!(v.view_mode(), DocumentViewMode::Continuous);
    assert!(v.cycle_view_mode());
    assert_eq!(v.view_mode(), DocumentViewMode::DualPage);
    assert!(v.cycle_view_mode());
    assert_eq!(v.view_mode(), DocumentViewMode::SinglePage);
    assert!(!v.set_view_mode(DocumentViewMode::SinglePage));
    assert!(v.set_view_mode(DocumentViewMode::DualPage));
    let mut single = loaded("/a.png", &["/a.png"], (1, false));
    assert!(!single.cycle_view_mode());
    assert_eq!(DocumentViewMode::default(), DocumentViewMode::SinglePage);
}

#[test]
fn viewer_search() {
    let mut v = loaded("/doc.pdf", &["/doc.pdf"], (4, false));
    let hits = vec![
        SearchResult { page: 0, rect: 10u32 },
        SearchResult { page: 2, rect: 20 },
        SearchResult { page: 2, rect: 30 },
    ];
    assert_eq!(v.search("", hits.clone()), 0);
    assert_eq!(v.search_position(), None);
    assert!(!v.search_next());
    assert_eq!(v.search("word", hits), 3);
    assert_eq!(v.search_position(), Some((1, 3)));
    assert!(v.search_next());
    assert_eq!(v.current_page(), 2);
    assert_eq!(v.search_position(), Some((2, 3)));
    assert!(v.is_current_search_result(2, 0));
    assert!(!v.is_current_search_result(2, 1));
    assert!(v.search_next());
    assert!(v.is_current_search_result(2, 1));
    assert!(v.search_next());
    assert_eq!(v.current_page(), 0);
    assert!(v.search_prev());
    assert_eq!(v.search_position(), Some((3, 3)));
    assert_eq!(v.current_page(), 2);
    assert_eq!(v.search_results_for_page(2), vec![20, 30]);
    assert_eq!(v.search_results_for_page(1), Vec::<u32>::new());
    v.clear_search();
    assert_eq!(v.search_position(), None);
    assert_eq!(v.current_page(), 2);
}

#[test]
fn viewer_file_info() {
    let v = loaded("/pics/photo.png", &["/pics/photo.png"], (1, false));
    let info = v.file_info(Some((10, 20)), Some(2048)).unwrap();
    assert_eq!(info.filename, "photo.png");
    assert_eq!(info.format, "PNG");
    assert_eq!(info.format_size(), "2.0 KB");
    assert!(v.file_info(None, Some(1)).is_none());
    assert!(v.file_info(Some((1, 1)), None).is_none());
}

#[test]
fn backends_by_extension() {
    assert_eq!(backend_for_path("/a/b.PDF"), Some(BackendKind::Pdf));
    assert_eq!(backend_for_path("x.svgz"), Some(BackendKind::Svg));
    assert_eq!(backend_for_path("x.Tga"), Some(BackendKind::Image));
    assert_eq!(backend_for_path("x.apng"), Some(BackendKind::Image));
    assert_eq!(backend_for_path("x.txt"), None);
    assert_eq!(backend_for_path("noext"), None);
    assert_eq!(sendable_backend_for_path("x.pdf"), None);
    assert_eq!(sendable_backend_for_path("x.svg"), Some(BackendKind::Svg));
    assert!(loads_in_foreground("report.Pdf"));
    assert!(!loads_in_foreground("report.png"));
}

#[test]
fn siblings_filtered_and_sorted() {
    let out = sibling_images(s(&["/d/z.png", "/d/readme", "/d/A.TIFF", "/d/m.avif", "/d/.hidden"]));
    assert_eq!(out, s(&["/d/A.TIFF", "/d/m.avif", "/d/z.png"]));
}

fn entry(path: &str, size: u64, secs: u64) -> FileEntry {
    FileEntry::new(path.to_string(), size, FileTime { secs, nanos: 0 })
}

fn names(files: &[FileEntry]) -> Vec<String> {
    files.iter().map(|f| f.name.clone()).collect()
}

#[test]
fn gallery_image_paths() {
    assert!(is_image_path("/x/Y.JPEG"));
    assert!(is_image_path("/x/y.ico"));
    assert!(!is_image_path("/x/y.pdf"));
    assert!(!is_image_path("/x/png"));
}

#[test]
fn gallery_sort_orders() {
    let files = vec![entry("/d/b.png", 30, 2), entry("/d/a.png", 10, 3), entry("/d/c.png", 20, 1)];
    assert_eq!(names(&sort_entries(files.clone(), SortOrder::Name)), s(&["a.png", "b.png", "c.png"]));
    assert_eq!(names(&sort_entries(files.clone(), SortOrder::NameDesc)), s(&["c.png", "b.png", "a.png"]));
    assert_eq!(names(&sort_entries(files.clone(), SortOrder::Date)), s(&["c.png", "b.png", "a.png"]));
    assert_eq!(names(&sort_entries(files.clone(), SortOrder::DateDesc)), s(&["a.png", "b.png", "c.png"]));
    assert_eq!(names(&sort_entries(files.clone(), SortOrder::Size)), s(&["a.png", "c.png", "b.png"]));
    assert_eq!(names(&sort_entries(files, SortOrder::SizeDesc)), s(&["b.png", "c.png", "a.png"]));
}

#[test]
fn gallery_sort_is_stable() {
    let files = vec![entry("/d/x.png", 5, 0), entry("/d/y.png", 5, 0), entry("/d/w.png", 1, 0)];
    assert_eq!(names(&sort_entries(files, SortOrder::Size)), s(&["w.png", "x.png", "y.png"]));
}

#[test]
fn gallery_sort_order_keys() {
    assert_eq!(SortOrder::Name.cycled(), SortOrder::Date);
    assert_eq!(SortOrder::DateDesc.cycled(), SortOrder::Size);
    assert_eq!(SortOrder::SizeDesc.cycled(), SortOrder::Name);
    assert_eq!(SortOrder::Name.reversed(), SortOrder::NameDesc);
    assert_eq!(SortOrder::SizeDesc.reversed(), SortOrder::Size);
    assert_eq!(SortOrder::default(), SortOrder::Name);
    assert_eq!(toggled_view_mode(ViewMode::Image, true), ViewMode::Gallery);
    assert_eq!(toggled_view_mode(ViewMode::Image, false), ViewMode::Image);
    assert_eq!(toggled_view_mode(ViewMode::Gallery, false), ViewMode::Image);
}

fn gallery_with(n: usize) -> GalleryView {
    let mut g = GalleryView::new(ThumbnailCache::new("/tmp/cache".to_string(), THUMBNAIL_SIZE));
    let files: Vec<FileEntry> = (0..n).map(|i| entry(&format!("/d/{:02}.png", i), 1, 0)).collect();
    let mut with_other = files;
    with_other.push(entry("/d/notes.txt", 1, 0));
    g.open("/d".to_string(), with_other);
    g
}

#[test]
fn gallery_open_and_navigate() {
    let mut g = gallery_with(10);
    assert_eq!(g.file_count(), 10);
    assert_eq!(g.directory(), Some("/d"));
    assert_eq!(g.selected_path(), Some("/d/00.png"));
    assert!(!g.select_prev());
    assert!(g.select_next());
    assert_eq!(g.selection_index(), 1);
    assert!(g.select_down());
    assert_eq!(g.selection_index(), 5);
    assert!(!g.select_down() || g.selection_index() == 9);
    assert!(g.select_up());
    assert_eq!(g.selected_row(), 1);
    g.update_layout(1000);
    assert_eq!(g.visible_range(0, 300), (0, 10));
    g.update_layout(10);
    assert_eq!(g.visible_range(1, 0), (1, 3));
    assert!(!g.is_empty());
}

#[test]
fn gallery_last_file_cannot_step_on() {
    let mut g = gallery_with(2);
    assert!(g.select_next());
    assert!(!g.select_next());
    assert_eq!(g.selected_path(), Some("/d/01.png"));
    let mut empty = gallery_with(0);
    assert!(empty.is_empty());
    assert!(!empty.select_next());
    assert_eq!(empty.selected_path(), None);
}

#[test]
fn gallery_missing_thumbnails() {
    let mut g = gallery_with(3);
    assert_eq!(g.missing_thumbnails(0, 10), s(&["/d/00.png", "/d/01.png", "/d/02.png"]));
    let req = g.cache.request("/d/01.png", true);
    assert!(req.is_some());
    assert_eq!(g.missing_thumbnails(0, 2), s(&["/d/00.png"]));
    assert_eq!(g.missing_thumbnails(2, 1), Vec::<String>::new());
}

#[test]
fn gallery_resort_keeps_files() {
    let mut g = gallery_with(3);
    g.set_sort(SortOrder::NameDesc);
    assert_eq!(g.sort_order(), SortOrder::NameDesc);
    assert_eq!(g.selected_path(), Some("/d/02.png"));
}

#[test]
fn sidebar_tabs_and_clicks() {
    let mut sb = Sidebar::new();
    assert!(!sb.is_visible());
    sb.toggle();
    assert!(sb.is_visible());
    sb.set_page_count(4);
    assert_eq!(sb.content_height(), 640);
    assert_eq!(sb.row_height(), 160);
    assert_eq!(sb.click_row(3), Some(3));
    assert_eq!(sb.selected_page(), Some(3));
    assert_eq!(sb.click_row(4), None);
    sb.set_scroll_bits(12.5f64.to_bits());
    sb.switch_tab(SidebarTab::TableOfContents);
    assert_eq!(sb.scroll_bits(), 0);
    sb.set_toc(vec![
        TocEntry { title: "Intro".to_string(), page: 0, level: 0 },
        TocEntry { title: "Part".to_string(), page: 7, level: 1 },
    ]);
    assert_eq!(sb.content_height(), 48);
    assert_eq!(sb.click_row(1), Some(7));
    assert_eq!(sb.selected_page(), Some(7));
    assert_eq!(sb.click_row(2), None);
    sb.add_thumbnail(1, ThumbnailData { width: 2, height: 1, data: vec![0; 8] });
    assert_eq!(sb.thumbnail(1).map(|t| t.width), Some(2));
    assert!(sb.thumbnail(0).is_none());
    sb.set_page_count(2);
    assert!(sb.thumbnail(1).is_none());
    assert_eq!(sb.selected_page(), None);
    assert_eq!(SidebarTab::default(), SidebarTab::Thumbnails);
}

#[test]
fn gallery_keys_move_sort_and_open() {
    let mut g = gallery_with(6);
    assert_eq!(g.apply(GalleryCommand::SelectNext), None);
    assert_eq!(g.apply(GalleryCommand::SelectDown), None);
    assert_eq!(g.selection_index(), 5);
    assert_eq!(g.apply(GalleryCommand::SelectDown), None);
    assert_eq!(g.selection_index(), 5);
    assert_eq!(g.apply(GalleryCommand::SelectUp), None);
    assert_eq!(g.selection_index(), 1);
    assert_eq!(g.apply(GalleryCommand::SelectPrev), None);
    assert_eq!(g.apply(GalleryCommand::SelectPrev), None);
    assert_eq!(g.selection_index(), 0);
    assert_eq!(g.apply(GalleryCommand::OpenSelected), Some("/d/00.png".to_string()));
    assert_eq!(g.apply(GalleryCommand::ReverseSort), None);
    assert_eq!(g.sort_order(), SortOrder::NameDesc);
    assert_eq!(g.apply(GalleryCommand::OpenSelected), Some("/d/05.png".to_string()));
    assert_eq!(g.apply(GalleryCommand::CycleSort), None);
    assert_eq!(g.sort_order(), SortOrder::Date);
    assert_eq!(g.apply(GalleryCommand::CycleSort), None);
    assert_eq!(g.sort_order(), SortOrder::Size);
    let mut empty = GalleryView::new(ThumbnailCache::new("/tmp/cache".to_string(), THUMBNAIL_SIZE));
    assert_eq!(empty.apply(GalleryCommand::OpenSelected), None);
}
