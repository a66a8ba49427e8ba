use garview::recent::{shorten_dir, shorten_name, RecentFile, RecentFiles, DEFAULT_MAX_ENTRIES};
use std::io::Write;
use tempfile::NamedTempFile;

/// The absolute form of a path, as the viewer records it.
fn absolute(path: &std::path::Path) -> String {
    path.canonicalize()
        .unwrap_or_else(|_| path.to_path_buf())
        .to_string_lossy()
        .to_string()
}

#[test]
fn test_add_and_retrieve() {
    let mut recent = RecentFiles::new();
    let temp = NamedTempFile::new().unwrap();
    let path = temp.path();

    recent.add(absolute(path));
    assert_eq!(recent.len(), 1);
    assert_eq!(recent.files()[0].path, path.canonicalize().unwrap().to_string_lossy().to_string());
}

#[test]
fn test_max_entries() {
    let mut recent = RecentFiles::new();
    recent.set_max_entries(3);

    for i in 0..5 {
        let mut temp = NamedTempFile::new().unwrap();
        temp.write_all(format!("{}\n", i).as_bytes()).unwrap();
        recent.add(absolute(temp.path()));
    }

    assert_eq!(recent.len(), 3);
}

#[test]
fn test_session_persistence() {
    let mut recent = RecentFiles::new();
    let temp = NamedTempFile::new().unwrap();
    let path = absolute(temp.path());

    recent.add(path.clone());
    recent.update_session(&path, 5, 150.0f64.to_bits(), (0.5f64.to_bits(), 0.3f64.to_bits()));

    let session = recent.get_session(&path);
    assert!(session.is_some());
    let (page, zoom, scroll) = session.unwrap();
    assert_eq!(page, 5);
    assert_eq!(f64::from_bits(zoom), 150.0);
    assert_eq!((f64::from_bits(scroll.0), f64::from_bits(scroll.1)), (0.5, 0.3));
}

#[test]
fn recent_add_moves_existing_path_to_front_once() {
    let mut recent = RecentFiles::new();
    recent.add("/a.png".to_string());
    recent.add("/b.png".to_string());
    recent.add("/a.png".to_string());
    assert_eq!(recent.len(), 2);
    assert_eq!(recent.files()[0].path, "/a.png");
    assert_eq!(recent.files()[1].path, "/b.png");
}

#[test]
fn recent_add_keeps_old_session() {
    let mut recent = RecentFiles::new();
    let p = "/doc.pdf".to_string();
    recent.add(p.clone());
    recent.update_session(&p, 3, 1, (2, 3));
    recent.add("/other.png".to_string());
    assert_eq!(recent.get_session(&p), Some((3, 1, (2, 3))));
    recent.add(p.clone());
    assert_eq!(recent.files()[0].path, p);
    assert_eq!(recent.get_session(&p), Some((3, 1, (2, 3))));
    assert_eq!(recent.get_session(&"/other.png".to_string()), None);
}

#[test]
fn recent_trim_drops_oldest() {
    let mut recent = RecentFiles::new();
    recent.set_max_entries(2);
    recent.add("/1".to_string());
    recent.add("/2".to_string());
    recent.add("/3".to_string());
    let paths: Vec<String> = recent.files().iter().map(|f| f.path.clone()).collect();
    assert_eq!(paths, vec!["/3".to_string(), "/2".to_string()]);
}

#[test]
fn recent_zero_capacity_keeps_nothing() {
    let mut recent = RecentFiles::new();
    recent.set_max_entries(0);
    recent.add("/x".to_string());
    assert!(recent.is_empty());
    assert_eq!(recent.max_entries(), 0);
}

#[test]
fn recent_session_of_unlisted_path_is_not_recorded() {
    let mut recent = RecentFiles::new();
    let p = "/listed".to_string();
    let q = "/other".to_string();
    recent.add(p.clone());
    recent.update_session(&q, 1, 2, (3, 4));
    assert_eq!(recent.get_session(&q), None);
    assert_eq!(recent.get_session(&p), None);
    assert_eq!(recent.len(), 1);
}

#[test]
fn recent_remove_and_remove_index() {
    let mut recent = RecentFiles::new();
    for p in ["/a", "/b", "/c"] {
        recent.add(p.to_string());
    }
    recent.remove(&"/b".to_string());
    let paths: Vec<String> = recent.files().iter().map(|f| f.path.clone()).collect();
    assert_eq!(paths, vec!["/c".to_string(), "/a".to_string()]);
    recent.remove_index(5);
    assert_eq!(recent.len(), 2);
    recent.remove_index(0);
    assert_eq!(recent.files()[0].path, "/a");
    recent.clear();
    assert!(recent.is_empty());
}

#[test]
fn recent_default_capacity_is_fifty() {
    let recent = RecentFiles::new();
    assert_eq!(recent.max_entries(), DEFAULT_MAX_ENTRIES);
    assert_eq!(DEFAULT_MAX_ENTRIES, 50);
    assert_eq!(garview::recent::default_max_entries(), 50);
}

#[test]
fn recent_file_name_for_display() {
    let f = RecentFile::new("/home/me/pictures/cat.png".to_string());
    assert_eq!(f.filename(), "cat.png");
    let root = RecentFile::new("/".to_string());
    assert_eq!(root.filename(), "Unknown");
}

#[test]
fn recent_file_session_update() {
    let mut f = RecentFile::new("/x.pdf".to_string());
    assert_eq!(f.page, None);
    f.update_session(7, 2.0f64.to_bits(), (1, 2));
    assert_eq!(f.page, Some(7));
    assert_eq!(f.zoom.map(f64::from_bits), Some(2.0));
    assert_eq!(f.scroll_position, Some((1, 2)));
}

#[test]
fn recent_file_on_disk() {
    let temp = NamedTempFile::new().unwrap();
    let f = RecentFile::new(absolute(temp.path()));
    assert!(f.is_on_disk());
    let g = RecentFile::new("/no/such/file/anywhere.png".to_string());
    assert!(!g.is_on_disk());
}

#[test]
fn panel_shortens_long_names() {
    assert_eq!(shorten_name("short.png").as_deref(), Some("short.png"));
    let fifty = "a".repeat(50);
    assert_eq!(shorten_name(&fifty).as_deref(), Some(fifty.as_str()));
    let long = format!("{}.png", "b".repeat(60));
    assert_eq!(shorten_name(&long), Some(format!("{}...", &long[..47])));
    let wide = format!("{}é{}", "c".repeat(46), "d".repeat(10));
    assert_eq!(shorten_name(&wide), None);
    let wide_ok = format!("{}é{}", "c".repeat(45), "d".repeat(10));
    assert_eq!(shorten_name(&wide_ok), Some(format!("{}...", &wide_ok[..47])));
}

#[test]
fn panel_shortens_long_directories() {
    assert_eq!(shorten_dir("/home/me").as_deref(), Some("/home/me"));
    let long = format!("/{}", "x/".repeat(40));
    let n = long.len();
    assert_eq!(shorten_dir(&long), Some(format!("...{}", &long[n - 57..])));
    let wide = format!("/{}é{}", "y".repeat(10), "z".repeat(56));
    assert_eq!(shorten_dir(&wide), None);
}

#[test]
fn entry_directory() {
    let f = RecentFile::new("/pics/2024/cat.png".to_string());
    assert_eq!(f.directory(), "/pics/2024");
    let g = RecentFile::new("/".to_string());
    assert_eq!(g.directory(), "");
}

#[test]
fn storage_path_in_data_dir() {
    assert_eq!(garview::recent::storage_path(Some("/home/u/.local/share")), "/home/u/.local/share/garview/recent.json");
    assert_eq!(garview::recent::storage_path(None), "~/.local/share/garview/recent.json");
}

#[test]
fn recent_keeps_marked_and_present_files() {
    let mut recent = RecentFiles::new();
    for p in ["/a", "/b", "/c", "/d"] {
        recent.add(p.to_string());
    }
    recent.retain_marked(&vec![true, false, true, false]);
    let paths: Vec<String> = recent.files().iter().map(|f| f.path.clone()).collect();
    assert_eq!(paths, vec!["/d".to_string(), "/b".to_string()]);

    let temp = NamedTempFile::new().unwrap();
    let here = absolute(temp.path());
    let mut r2 = RecentFiles::new();
    r2.add("/definitely/not/here.png".to_string());
    r2.add(here.clone());
    r2.add("/also/missing.jpg".to_string());
    r2.retain_present();
    assert_eq!(r2.len(), 1);
    assert_eq!(r2.files()[0].path, here);
}
