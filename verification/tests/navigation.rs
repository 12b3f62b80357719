use epub_reader::epub::ManifestItem;
use epub_reader::errors::EpubError;
use epub_reader::navigation::{Navigator, TocEntry};

fn item(id: &str, href: &str) -> ManifestItem {
    ManifestItem {
        id: id.to_string(),
        href: href.to_string(),
        media_type: "application/xhtml+xml".to_string(),
        properties: None,
    }
}

fn three_chapter_navigator() -> Navigator {
    let spine = vec!["c1".to_string(), "c2".to_string(), "c3".to_string()];
    let manifest = vec![item("c1", "ch1.xhtml"), item("c2", "ch2.xhtml"), item("c3", "ch3.xhtml")];
    Navigator::new(spine, Vec::new(), manifest, "OEBPS".to_string())
}

fn empty_navigator() -> Navigator {
    Navigator::new(Vec::new(), Vec::new(), Vec::new(), String::new())
}

#[test]
fn total_chapters_is_spine_length() {
    let nav = three_chapter_navigator();
    assert_eq!(nav.total_chapters(), 3);
    assert_eq!(empty_navigator().total_chapters(), 0);
}

#[test]
fn goto_sets_displayed_position() {
    let mut nav = three_chapter_navigator();
    for k in 1..=3 {
        assert!(nav.goto(k));
        assert_eq!(nav.current_position(), (k, 3));
    }
}

#[test]
fn goto_out_of_range_leaves_cursor_and_fails() {
    let mut nav = three_chapter_navigator();
    assert!(nav.goto(2));
    assert!(!nav.goto(0));
    assert_eq!(nav.current_position(), (2, 3));
    assert!(!nav.goto(4));
    assert_eq!(nav.current_position(), (2, 3));
}

#[test]
fn goto_on_empty_spine_fails() {
    let mut nav = empty_navigator();
    assert!(!nav.goto(0));
    assert!(!nav.goto(1));
    assert_eq!(nav.current_position(), (1, 0));
}

#[test]
fn next_reaches_last_then_stops() {
    let mut nav = three_chapter_navigator();
    assert!(nav.next());
    assert!(nav.next());
    assert_eq!(nav.current_position(), (3, 3));
    assert!(!nav.next());
    assert_eq!(nav.current_position(), (3, 3));
}

#[test]
fn prev_reaches_first_then_stops() {
    let mut nav = three_chapter_navigator();
    assert!(nav.goto(3));
    assert!(nav.prev());
    assert!(nav.prev());
    assert_eq!(nav.current_position(), (1, 3));
    assert!(!nav.prev());
    assert_eq!(nav.current_position(), (1, 3));
}

#[test]
fn next_and_prev_on_empty_spine_fail() {
    let mut nav = empty_navigator();
    assert!(!nav.next());
    assert!(!nav.prev());
}

#[test]
fn current_chapter_href_joins_root_directory() {
    let spine = vec!["ch1".to_string()];
    let manifest = vec![item("ch1", "ch1.xhtml")];
    let nav = Navigator::new(spine, Vec::new(), manifest, "OEBPS".to_string());
    assert_eq!(nav.current_chapter_href().unwrap(), "OEBPS/ch1.xhtml");
}

#[test]
fn current_chapter_href_with_empty_root() {
    let spine = vec!["ch1".to_string()];
    let manifest = vec![item("ch1", "ch1.xhtml")];
    let nav = Navigator::new(spine, Vec::new(), manifest, String::new());
    assert_eq!(nav.current_chapter_href().unwrap(), "ch1.xhtml");
}

#[test]
fn current_chapter_href_fails_on_empty_spine() {
    let nav = empty_navigator();
    assert!(matches!(nav.current_chapter_href(), Err(EpubError::InvalidChapterIndex(0))));
}

#[test]
fn current_chapter_href_fails_on_missing_manifest_entry() {
    let spine = vec!["ghost".to_string()];
    let nav = Navigator::new(spine, Vec::new(), Vec::new(), String::new());
    match nav.current_chapter_href() {
        Err(EpubError::ManifestItemNotFound(id)) => assert_eq!(id, "ghost"),
        other => panic!("unexpected result: {:?}", other),
    }
}

#[test]
fn current_chapter_id_follows_cursor() {
    let mut nav = three_chapter_navigator();
    assert_eq!(nav.current_chapter_id(), Some("c1"));
    nav.next();
    assert_eq!(nav.current_chapter_id(), Some("c2"));
    assert_eq!(empty_navigator().current_chapter_id(), None);
}

#[test]
fn spine_index_of_href_links_resolved_paths() {
    let nav = three_chapter_navigator();
    assert_eq!(nav.spine_index_of_href("OEBPS/ch2.xhtml"), Some(1));
    assert_eq!(nav.spine_index_of_href("OEBPS/ch1.xhtml"), Some(0));
    assert_eq!(nav.spine_index_of_href("OEBPS/other.xhtml"), None);
    assert_eq!(nav.spine_index_of_href("ch2.xhtml"), None);
}

#[test]
fn duplicate_manifest_ids_take_the_earliest_declaration() {
    let manifest = vec![item("c1", "first.xhtml"), item("c1", "second.xhtml")];
    let found = epub_reader::epub::manifest_get(&manifest, "c1").unwrap();
    assert_eq!(found.href, "first.xhtml");
}

#[test]
fn get_toc_returns_entries_in_order() {
    let toc = vec![
        TocEntry { label: "One".to_string(), href: "OEBPS/ch1.xhtml".to_string(), id: None },
        TocEntry {
            label: "Two".to_string(),
            href: "OEBPS/ch2.xhtml".to_string(),
            id: Some("p2".to_string()),
        },
    ];
    let nav = Navigator::new(Vec::new(), toc, Vec::new(), "OEBPS".to_string());
    let got = nav.get_toc();
    assert_eq!(got.len(), 2);
    assert_eq!(got[0].label, "One");
    assert_eq!(got[1].href, "OEBPS/ch2.xhtml");
    assert_eq!(got[1].id.as_deref(), Some("p2"));
}
