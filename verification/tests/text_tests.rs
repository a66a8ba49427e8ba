use garview::comic::{is_image_file, natural_sort_key, sort_pages, NaturalSortPart};
use garview::format::{dotted_tail_of, format_elapsed, property_rows, FileInfo};
use garview::markup::{contains_chars, page_contains_query, paginate, strip_html};
use garview::sorting::str_le;
use garview::text::{chars_of, decimal_string, hex_string, is_white_space, str_eq, string_of};

fn strip(html: &str) -> String {
    strip_html(html)
}

#[test]
fn strip_html_drops_tags_and_breaks_blocks() {
    assert_eq!(strip("<p>Hello</p><p>World</p>"), "Hello\nWorld");
    assert_eq!(strip("<div>a</div><br/>b"), "a\nb");
    assert_eq!(strip("<b>bold</b> text"), "bold text");
}

#[test]
fn strip_html_drops_script_and_style() {
    assert_eq!(strip("a<script>var x = 1;</script>b"), "ab");
    assert_eq!(strip("a<STYLE>p { color: red }</STYLE>b"), "ab");
}

#[test]
fn strip_html_collapses_white_space_and_trims() {
    assert_eq!(strip("  one \t\n two   three  "), "one two three");
    assert_eq!(strip(""), "");
}

#[test]
fn strip_html_decodes_entities() {
    assert_eq!(strip("a &amp; b &lt;c&gt; &quot;d&quot; &apos;e&apos;"), "a & b <c> \"d\" 'e'");
    assert_eq!(strip("x&mdash;y&ndash;z&hellip;"), "x\u{2014}y\u{2013}z\u{2026}");
    assert_eq!(strip("&lsquo;q&rsquo; &ldquo;w&rdquo;"), "\u{2018}q\u{2019} \u{201C}w\u{201D}");
    assert_eq!(strip("&#65;&#x42;&#67"), "ABC");
    assert_eq!(strip("a&unknown;b"), "a b");
    assert_eq!(strip("a&nbsp;b"), "a b");
}

#[test]
fn strip_html_numeric_entity_out_of_range_is_a_space() {
    assert_eq!(strip("a&#xD800;b"), "a b");
    assert_eq!(strip("a&#2000000;b"), "a b");
}

#[test]
fn strip_html_keeps_at_most_two_newlines() {
    assert_eq!(strip("a<p></p><p></p><p>b"), "a\nb");
    assert_eq!(strip("a&#10;&#10;&#10;&#10;b"), "a\n\nb");
}

#[test]
fn strip_html_long_entity_swallows_a_character() {
    // An entity longer than ten bytes ends at the next character ('k'),
    // which is taken in place of its ';'.
    assert_eq!(strip("&abcdefghijkl-x"), "l-x");
}

#[test]
fn strip_html_finds_tags_after_entities_and_wide_characters() {
    assert_eq!(strip("a&amp;b<p>c"), "a&b\nc");
    assert_eq!(strip("&amp;\u{e9}<p>"), "&\u{e9}");
    assert_eq!(strip("\u{e9}\u{e9}<p>x"), "\u{e9}\u{e9}\nx");
    assert_eq!(strip("&#233;<li>x"), "\u{e9}\nx");
    assert_eq!(strip("&nbsp;&nbsp;\u{4e2d}<script>hidden</script>shown"), "\u{4e2d}shown");
}

#[test]
fn strip_html_reads_tags_in_any_case() {
    assert_eq!(strip("A<P>B"), "A\nB");
    assert_eq!(strip("A<Li>B<DIV>C"), "A\nB\nC");
    // 'İ' lower-cases to "i\u{307}", so "<Lİ" reads as "<li".
    assert_eq!(strip("a<L\u{130}>b"), "a\nb");
}

#[test]
fn paginate_splits_at_blank_lines() {
    let pages = paginate("one\n\ntwo\n\nthree", 5);
    assert_eq!(pages, vec!["one".to_string(), "two".to_string(), "three".to_string()]);
    let pages = paginate("one\n\ntwo\n\nthree", 7);
    assert_eq!(pages, vec!["one\n\ntwo".to_string(), "three".to_string()]);
    let pages = paginate("one\n\ntwo\n\nthree", 100);
    assert_eq!(pages, vec!["one\n\ntwo\n\nthree".to_string()]);
}

#[test]
fn paginate_without_text_keeps_content() {
    assert_eq!(paginate("  \n\n  ", 10), vec!["  \n\n  ".to_string()]);
    assert_eq!(paginate("", 10), vec!["".to_string()]);
}

#[test]
fn paginate_long_paragraph_stays_whole() {
    let pages = paginate("short\n\na much longer paragraph", 5);
    assert_eq!(pages, vec!["short".to_string(), "a much longer paragraph".to_string()]);
}

#[test]
fn string_helpers() {
    assert!(str_eq("abc", "abc"));
    assert!(!str_eq("abc", "abd"));
    assert_eq!(decimal_string(0), "0");
    assert_eq!(decimal_string(12345), "12345");
    assert_eq!(hex_string(255, 4), "00ff");
    assert_eq!(hex_string(0xabcdef, 2), "ef");
    assert_eq!(string_of(&chars_of("héllo")), "héllo");
    assert!(is_white_space('\u{3000}'));
    assert!(is_white_space('\n'));
    assert!(!is_white_space('x'));
}

#[test]
fn string_order() {
    assert!(str_le("apple", "banana"));
    assert!(!str_le("banana", "apple"));
    assert!(str_le("", "a"));
    assert!(str_le("ab", "abc"));
    assert!(str_le("same", "same"));
    assert!(str_le("Z", "a"));
}

#[test]
fn elapsed_time_text() {
    assert_eq!(format_elapsed(0), "just now");
    assert_eq!(format_elapsed(59), "just now");
    assert_eq!(format_elapsed(60), "1m ago");
    assert_eq!(format_elapsed(3599), "59m ago");
    assert_eq!(format_elapsed(3600), "1h ago");
    assert_eq!(format_elapsed(86399), "23h ago");
    assert_eq!(format_elapsed(86400), "1d ago");
    assert_eq!(format_elapsed(604799), "6d ago");
    assert_eq!(format_elapsed(604800), "1w ago");
    assert_eq!(format_elapsed(6048000), "10w ago");
}

#[test]
fn time_ago_of_now_is_just_now() {
    assert_eq!(garview::format::format_time_ago(std::time::SystemTime::now()), "just now");
}

fn info(size: u64) -> FileInfo {
    FileInfo {
        filename: "f".to_string(),
        width: 1,
        height: 1,
        file_size: size,
        format: "PNG".to_string(),
    }
}

#[test]
fn file_size_text_matches_float_formatting() {
    for size in [0u64, 1, 512, 1023] {
        assert_eq!(info(size).format_size(), format!("{} B", size));
    }
    for size in [1024u64, 1280, 1536, 1075, 1126, 10 * 1024 + 51, 1048575] {
        assert_eq!(info(size).format_size(), format!("{:.1} KB", size as f64 / 1024.0));
    }
    for size in [1048576u64, 1572864, 5 * 1048576 + 52429, 123456789, u64::MAX] {
        assert_eq!(info(size).format_size(), format!("{:.1} MB", size as f64 / (1024.0 * 1024.0)));
    }
}

#[test]
fn file_size_text_examples() {
    assert_eq!(info(512).format_size(), "512 B");
    assert_eq!(info(1536).format_size(), "1.5 KB");
    assert_eq!(info(3 * 1048576).format_size(), "3.0 MB");
}

#[test]
fn file_info_describe() {
    let i = FileInfo::describe("/pics/cat.jpeg", 640, 480, 1000).unwrap();
    assert_eq!(i.filename, "cat.jpeg");
    assert_eq!(i.format, "JPEG");
    assert_eq!((i.width, i.height, i.file_size), (640, 480, 1000));
    let j = FileInfo::describe("/pics/README", 1, 2, 3).unwrap();
    assert_eq!(j.format, "Unknown");
    assert!(FileInfo::describe("/", 1, 1, 1).is_none());
}

fn key_text(parts: &[NaturalSortPart]) -> Vec<String> {
    parts
        .iter()
        .map(|p| match p {
            NaturalSortPart::Num(n) => format!("#{}", n),
            NaturalSortPart::Str(s) => s.clone(),
        })
        .collect()
}

#[test]
fn natural_keys() {
    assert_eq!(key_text(&natural_sort_key("Page10.JPG")), vec!["page", "#10", ".jpg"]);
    assert_eq!(key_text(&natural_sort_key("007")), vec!["#7"]);
    assert_eq!(key_text(&natural_sort_key("")), Vec::<String>::new());
    assert_eq!(key_text(&natural_sort_key("99999999999999999999x")), vec!["#0", "x"]);
}

#[test]
fn comic_pages_in_natural_order() {
    let names = ["page10.png", "Page2.png", "page1.png", "cover.jpg", "page2.png"];
    let pages: Vec<(String, Vec<u8>)> =
        names.iter().enumerate().map(|(i, n)| (n.to_string(), vec![i as u8])).collect();
    let sorted = sort_pages(pages);
    let order: Vec<String> = sorted.iter().map(|p| p.0.clone()).collect();
    assert_eq!(order, vec!["cover.jpg", "page1.png", "Page2.png", "page2.png", "page10.png"]);
    assert_eq!(sorted[2].1, vec![1u8]);
}

#[test]
fn comic_page_names() {
    assert!(is_image_file("a/b/PAGE.JPG"));
    assert!(is_image_file("x.webp"));
    assert!(is_image_file("x.jpeg"));
    assert!(!is_image_file("notes.txt"));
    assert!(!is_image_file("png"));
}

#[test]
fn status_text_joins_fields() {
    let i = FileInfo::describe("/pics/cat.png", 800, 600, 1536).unwrap();
    assert_eq!(i.status_text(), "cat.png - 800x600 - PNG - 1.5 KB");
}

#[test]
fn page_search_ignores_case() {
    let pages = vec!["The Quick Brown Fox".to_string(), "lazy dog".to_string()];
    assert!(page_contains_query(&pages, 0, "quick brown"));
    assert!(page_contains_query(&pages, 1, "DOG"));
    assert!(!page_contains_query(&pages, 1, "fox"));
    assert!(!page_contains_query(&pages, 2, "dog"));
    assert!(page_contains_query(&pages, 0, ""));
}

#[test]
fn chars_search_finds_runs() {
    let hay: Vec<char> = "abcabd".chars().collect();
    assert!(contains_chars(&hay, &"abd".chars().collect()));
    assert!(!contains_chars(&hay, &"abe".chars().collect()));
    assert!(!contains_chars(&"ab".chars().collect(), &"abc".chars().collect()));
    assert!(contains_chars(&Vec::new(), &Vec::new()));
}

#[test]
fn properties_rows_list_the_file() {
    let i = FileInfo::describe("/pics/cat.png", 800, 600, 2048).unwrap();
    let rows = property_rows(Some(&i), 3, Some("/pics/cat.png"));
    let want: Vec<(String, String)> = vec![
        ("Name:", "cat.png"),
        ("Dimensions:", "800 x 600"),
        ("File size:", "2.0 KB"),
        ("Format:", "PNG"),
        ("Pages:", "3"),
        ("Path:", "/pics/cat.png"),
    ]
    .into_iter()
    .map(|(a, b)| (a.to_string(), b.to_string()))
    .collect();
    assert_eq!(rows, want);
    assert_eq!(property_rows(Some(&i), 1, None).len(), 4);
    assert_eq!(property_rows(None, 5, Some("/x")), vec![("No file loaded".to_string(), String::new())]);
}

#[test]
fn long_values_keep_their_tail() {
    assert_eq!(dotted_tail_of("abc"), "...abc");
    let s: String = (0..50).map(|i| char::from(b'a' + (i % 26) as u8)).collect();
    assert_eq!(dotted_tail_of(&s), format!("...{}", &s[10..]));
}

#[test]
fn pagination_keeps_all_text() {
    let content = "  First paragraph.\n\n\n\nSecond one, longer than the rest.  \n\n \n\nThird.\n\nFourth para";
    for limit in [1usize, 10, 30, 60, 1000] {
        let pages = paginate(content, limit);
        let texts: Vec<&str> = content.split("\n\n").map(|p| p.trim()).filter(|p| !p.is_empty()).collect();
        assert_eq!(pages.join("\n\n"), texts.join("\n\n"), "limit {}", limit);
        assert!(pages.iter().all(|p| !p.is_empty() && p.trim() == p));
    }
}

#[test]
fn file_format_from_extension_corner_cases() {
    assert_eq!(FileInfo::describe("/p/.bashrc", 1, 1, 1).unwrap().format, "Unknown");
    assert_eq!(FileInfo::describe("/p/.a.tar.gz", 1, 1, 1).unwrap().format, "GZ");
    assert_eq!(FileInfo::describe("/p/name.", 1, 1, 1).unwrap().format, "");
    assert!(FileInfo::describe("/p/..", 1, 1, 1).is_none());
}
