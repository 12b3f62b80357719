use std::io::Write;

use epub_reader::epub::EpubDocument;
use epub_reader::errors::{Diagnostic, EpubError};

fn build_archive(files: &[(&str, &str)]) -> Vec<u8> {
    let mut writer = zip::ZipWriter::new(std::io::Cursor::new(Vec::new()));
    let options = zip::write::SimpleFileOptions::default();
    for (name, content) in files {
        writer.start_file(*name, options).unwrap();
        writer.write_all(content.as_bytes()).unwrap();
    }
    writer.finish().unwrap().into_inner()
}

const CONTAINER: &str = "<?xml version=\"1.0\"?>\n\
<container version=\"1.0\" xmlns=\"urn:oasis:names:tc:opendocument:xmlns:container\">\n\
  <rootfiles>\n\
    <rootfile full-path=\"OEBPS/content.opf\" media-type=\"application/oebps-package+xml\"/>\n\
  </rootfiles>\n\
</container>\n";

fn opf(manifest_items: &str, spine: &str) -> String {
    format!(
        "<?xml version=\"1.0\"?>\n\
<package xmlns=\"http://www.idpf.org/2007/opf\" xmlns:dc=\"http://purl.org/dc/elements/1.1/\" version=\"3.0\">\n\
  <metadata>\n\
    <dc:title>A Verified Book</dc:title>\n\
    <dc:creator>Somebody</dc:creator>\n\
    <dc:language>en</dc:language>\n\
  </metadata>\n\
  <manifest>\n{}\n  </manifest>\n\
  {}\n\
</package>\n",
        manifest_items, spine
    )
}

fn basic_book() -> Vec<u8> {
    let package = opf(
        "    <item id=\"c1\" href=\"ch1.xhtml\" media-type=\"application/xhtml+xml\"/>\n\
         <item id=\"c2\" href=\"ch2.xhtml\" media-type=\"application/xhtml+xml\"/>",
        "<spine><itemref idref=\"c1\"/><itemref idref=\"c2\"/></spine>",
    );
    build_archive(&[
        ("META-INF/container.xml", CONTAINER),
        ("OEBPS/content.opf", &package),
        ("OEBPS/ch1.xhtml", "<html><body><p>first chapter</p></body></html>"),
        ("OEBPS/ch2.xhtml", "<html><body><p>second chapter</p></body></html>"),
    ])
}

#[test]
fn open_resolves_chapter_paths_against_descriptor_directory() {
    let (doc, _diags) = EpubDocument::open(basic_book()).unwrap();
    let nav = doc.create_navigator();
    assert_eq!(nav.total_chapters(), 2);
    assert_eq!(nav.current_chapter_href().unwrap(), "OEBPS/ch1.xhtml");
}

#[test]
fn read_chapter_content_returns_entry_text() {
    let (mut doc, _diags) = EpubDocument::open(basic_book()).unwrap();
    let text = doc.read_chapter_content("OEBPS/ch1.xhtml").unwrap();
    assert_eq!(text, "<html><body><p>first chapter</p></body></html>");
}

#[test]
fn read_chapter_content_reports_missing_entry_with_path() {
    let (mut doc, _diags) = EpubDocument::open(basic_book()).unwrap();
    match doc.read_chapter_content("OEBPS/ghost.xhtml") {
        Err(EpubError::ContentReadError(p)) => assert_eq!(p, "OEBPS/ghost.xhtml"),
        other => panic!("unexpected result: {:?}", other),
    }
}

#[test]
fn open_parses_metadata_fields() {
    let (doc, _diags) = EpubDocument::open(basic_book()).unwrap();
    assert_eq!(doc.metadata.title.as_deref(), Some("A Verified Book"));
    assert_eq!(doc.metadata.creator.as_deref(), Some("Somebody"));
    assert_eq!(doc.metadata.language.as_deref(), Some("en"));
    assert_eq!(doc.metadata.publisher, None);
    assert_eq!(doc.metadata.date, None);
}

#[test]
fn empty_toc_is_not_fatal() {
    let (doc, diags) = EpubDocument::open(basic_book()).unwrap();
    assert!(doc.toc.is_empty());
    assert!(diags.contains(&Diagnostic::TocMissing));
}

const NAV_DOC: &str = "<html xmlns=\"http://www.w3.org/1999/xhtml\"><body>\n\
<nav epub:type=\"toc\"><ol>\n\
<li><a href=\"ch1.xhtml\">Chapter One</a></li>\n\
<li><a href=\"ch2.xhtml#part\">  Chapter Two  </a></li>\n\
<li><a href=\"\">No Target</a></li>\n\
<li><a href=\"ch9.xhtml\">   </a></li>\n\
</ol></nav>\n\
</body></html>";

const NCX_DOC: &str = "<?xml version=\"1.0\"?>\n\
<ncx xmlns=\"http://www.daisy.org/z3986/2005/ncx/\"><navMap>\n\
<navPoint id=\"np1\"><navLabel><text>Intro</text></navLabel>\n\
<content src=\"../Text/intro.xhtml#frag\"/>\n\
<navPoint id=\"np2\"><navLabel><text>Nested</text></navLabel><content src=\"ch2.xhtml\"/></navPoint>\n\
</navPoint>\n\
</navMap></ncx>";

fn book_with_nav_and_ncx() -> Vec<u8> {
    let package = opf(
        "    <item id=\"c1\" href=\"ch1.xhtml\" media-type=\"application/xhtml+xml\"/>\n\
         <item id=\"nav\" href=\"nav.xhtml\" media-type=\"application/xhtml+xml\" properties=\"nav\"/>\n\
         <item id=\"ncx\" href=\"toc.ncx\" media-type=\"application/x-dtbncx+xml\"/>",
        "<spine toc=\"ncx\"><itemref idref=\"c1\"/></spine>",
    );
    build_archive(&[
        ("META-INF/container.xml", CONTAINER),
        ("OEBPS/content.opf", &package),
        ("OEBPS/ch1.xhtml", "<html/>"),
        ("OEBPS/nav.xhtml", NAV_DOC),
        ("OEBPS/toc.ncx", NCX_DOC),
    ])
}

#[test]
fn nav_document_wins_over_ncx() {
    let (doc, diags) = EpubDocument::open(book_with_nav_and_ncx()).unwrap();
    let labels: Vec<&str> = doc.toc.iter().map(|e| e.label.as_str()).collect();
    assert_eq!(labels, vec!["Chapter One", "Chapter Two"]);
    assert_eq!(doc.toc[0].href, "OEBPS/ch1.xhtml");
    assert_eq!(doc.toc[1].href, "OEBPS/ch2.xhtml");
    assert!(diags.is_empty());
}

#[test]
fn nav_labels_are_trimmed_and_empty_entries_skipped() {
    let (doc, _diags) = EpubDocument::open(book_with_nav_and_ncx()).unwrap();
    assert_eq!(doc.toc.len(), 2);
    assert_eq!(doc.toc[1].label, "Chapter Two");
}

fn book_with_ncx_only() -> Vec<u8> {
    let package = opf(
        "    <item id=\"c1\" href=\"ch1.xhtml\" media-type=\"application/xhtml+xml\"/>\n\
         <item id=\"ncx\" href=\"toc.ncx\" media-type=\"application/x-dtbncx+xml\"/>",
        "<spine toc=\"ncx\"><itemref idref=\"c1\"/></spine>",
    );
    build_archive(&[
        ("META-INF/container.xml", CONTAINER),
        ("OEBPS/content.opf", &package),
        ("OEBPS/ch1.xhtml", "<html/>"),
        ("OEBPS/toc.ncx", NCX_DOC),
    ])
}

#[test]
fn ncx_entries_resolve_and_strip_fragments() {
    let (doc, _diags) = EpubDocument::open(book_with_ncx_only()).unwrap();
    assert_eq!(doc.toc.len(), 2);
    assert_eq!(doc.toc[0].label, "Intro");
    assert_eq!(doc.toc[0].href, "OEBPS/Text/intro.xhtml");
    assert_eq!(doc.toc[0].id.as_deref(), Some("np1"));
    assert_eq!(doc.toc[1].label, "Nested");
    assert_eq!(doc.toc[1].href, "OEBPS/ch2.xhtml");
}

#[test]
fn unreadable_nav_falls_back_to_ncx() {
    let package = opf(
        "    <item id=\"c1\" href=\"ch1.xhtml\" media-type=\"application/xhtml+xml\"/>\n\
         <item id=\"nav\" href=\"missing-nav.xhtml\" media-type=\"application/xhtml+xml\" properties=\"nav\"/>\n\
         <item id=\"ncx\" href=\"toc.ncx\" media-type=\"application/x-dtbncx+xml\"/>",
        "<spine toc=\"ncx\"><itemref idref=\"c1\"/></spine>",
    );
    let bytes = build_archive(&[
        ("META-INF/container.xml", CONTAINER),
        ("OEBPS/content.opf", &package),
        ("OEBPS/toc.ncx", NCX_DOC),
    ]);
    let (doc, diags) = EpubDocument::open(bytes).unwrap();
    assert!(diags.contains(&Diagnostic::NavUnreadable));
    assert_eq!(doc.toc.len(), 2);
    assert_eq!(doc.toc[0].label, "Intro");
}

#[test]
fn empty_nav_falls_back_to_ncx() {
    let empty_nav = "<html><body><nav epub:type=\"toc\"><ol></ol></nav></body></html>";
    let package = opf(
        "    <item id=\"c1\" href=\"ch1.xhtml\" media-type=\"application/xhtml+xml\"/>\n\
         <item id=\"nav\" href=\"nav.xhtml\" media-type=\"application/xhtml+xml\" properties=\"nav\"/>\n\
         <item id=\"ncx\" href=\"toc.ncx\" media-type=\"application/x-dtbncx+xml\"/>",
        "<spine toc=\"ncx\"><itemref idref=\"c1\"/></spine>",
    );
    let bytes = build_archive(&[
        ("META-INF/container.xml", CONTAINER),
        ("OEBPS/content.opf", &package),
        ("OEBPS/nav.xhtml", empty_nav),
        ("OEBPS/toc.ncx", NCX_DOC),
    ]);
    let (doc, diags) = EpubDocument::open(bytes).unwrap();
    assert!(diags.contains(&Diagnostic::NavEmpty));
    assert_eq!(doc.toc.len(), 2);
    assert_eq!(doc.toc[1].label, "Nested");
}

#[test]
fn anchors_outside_list_structure_are_not_toc_entries() {
    let nav = "<html><body>\
<a href=\"stray1.xhtml\">Stray Before</a>\
<nav type=\"toc\"><a href=\"stray2.xhtml\">Not In List</a>\
<ol><li><a href=\"ch1.xhtml\">Real Entry</a></li></ol></nav>\
<nav><ol><li><a href=\"stray3.xhtml\">Unmarked Nav</a></li></ol></nav>\
</body></html>";
    let package = opf(
        "    <item id=\"c1\" href=\"ch1.xhtml\" media-type=\"application/xhtml+xml\"/>\n\
         <item id=\"nav\" href=\"nav.xhtml\" media-type=\"application/xhtml+xml\" properties=\"nav\"/>",
        "<spine><itemref idref=\"c1\"/></spine>",
    );
    let bytes = build_archive(&[
        ("META-INF/container.xml", CONTAINER),
        ("OEBPS/content.opf", &package),
        ("OEBPS/nav.xhtml", nav),
    ]);
    let (doc, _diags) = EpubDocument::open(bytes).unwrap();
    assert_eq!(doc.toc.len(), 1);
    assert_eq!(doc.toc[0].label, "Real Entry");
    assert_eq!(doc.toc[0].href, "OEBPS/ch1.xhtml");
}

#[test]
fn ncx_without_navmap_leaves_parse_diagnostic() {
    let package = opf(
        "    <item id=\"c1\" href=\"ch1.xhtml\" media-type=\"application/xhtml+xml\"/>\n\
         <item id=\"ncx\" href=\"toc.ncx\" media-type=\"application/x-dtbncx+xml\"/>",
        "<spine toc=\"ncx\"><itemref idref=\"c1\"/></spine>",
    );
    let bytes = build_archive(&[
        ("META-INF/container.xml", CONTAINER),
        ("OEBPS/content.opf", &package),
        ("OEBPS/toc.ncx", "<ncx><head/></ncx>"),
    ]);
    let (doc, diags) = EpubDocument::open(bytes).unwrap();
    assert!(doc.toc.is_empty());
    assert!(diags.contains(&Diagnostic::NcxParseFailed));
    assert!(diags.contains(&Diagnostic::TocMissing));
}

#[test]
fn missing_container_is_reported() {
    let bytes = build_archive(&[("mimetype", "application/epub+zip")]);
    assert!(matches!(EpubDocument::open(bytes), Err(EpubError::MissingContainerXml)));
}

#[test]
fn malformed_container_is_a_parse_error() {
    let bytes = build_archive(&[("META-INF/container.xml", "this is <not xml")]);
    assert!(matches!(EpubDocument::open(bytes), Err(EpubError::XmlParseError)));
}

#[test]
fn container_without_rootfile_is_reported() {
    let bytes = build_archive(&[(
        "META-INF/container.xml",
        "<container><rootfiles></rootfiles></container>",
    )]);
    assert!(matches!(EpubDocument::open(bytes), Err(EpubError::MissingRootfileElement)));
}

#[test]
fn rootfile_without_full_path_is_reported() {
    let bytes = build_archive(&[(
        "META-INF/container.xml",
        "<container><rootfiles><rootfile media-type=\"application/oebps-package+xml\"/></rootfiles></container>",
    )]);
    assert!(matches!(EpubDocument::open(bytes), Err(EpubError::MissingFullPathAttribute)));
}

#[test]
fn missing_descriptor_entry_is_reported_with_path() {
    let bytes = build_archive(&[("META-INF/container.xml", CONTAINER)]);
    match EpubDocument::open(bytes) {
        Err(EpubError::ContentReadError(p)) => assert_eq!(p, "OEBPS/content.opf"),
        Err(other) => panic!("unexpected error: {:?}", other),
        Ok(_) => panic!("the package opened despite its missing descriptor"),
    }
}

#[test]
fn descriptor_without_package_element_is_reported() {
    let bytes = build_archive(&[
        ("META-INF/container.xml", CONTAINER),
        ("OEBPS/content.opf", "<bundle><other/></bundle>"),
    ]);
    assert!(matches!(EpubDocument::open(bytes), Err(EpubError::MissingPackageElement)));
}

#[test]
fn package_without_spine_is_reported() {
    let bytes = build_archive(&[
        ("META-INF/container.xml", CONTAINER),
        ("OEBPS/content.opf", "<package><metadata/><manifest/></package>"),
    ]);
    assert!(matches!(EpubDocument::open(bytes), Err(EpubError::MissingSpineElement)));
}

#[test]
fn manifest_item_missing_attribute_is_fatal() {
    let bytes = build_archive(&[
        ("META-INF/container.xml", CONTAINER),
        (
            "OEBPS/content.opf",
            "<package><metadata/><manifest><item id=\"c1\"/></manifest><spine/></package>",
        ),
    ]);
    assert!(matches!(EpubDocument::open(bytes), Err(EpubError::XmlTextExtractionError)));
}

#[test]
fn media_type_mismatch_is_only_a_diagnostic() {
    let container = "<container><rootfiles>\
<rootfile full-path=\"content.opf\" media-type=\"text/plain\"/>\
</rootfiles></container>";
    let package = "<package><metadata/><manifest/><spine/></package>";
    let bytes = build_archive(&[
        ("META-INF/container.xml", container),
        ("content.opf", package),
    ]);
    let (doc, diags) = EpubDocument::open(bytes).unwrap();
    assert!(diags.contains(&Diagnostic::RootfileMediaType));
    assert_eq!(doc.root_path, "");
    assert_eq!(doc.create_navigator().total_chapters(), 0);
}

#[test]
fn unreadable_byte_source_fails_to_open() {
    let bytes = b"this is not a zip archive at all".to_vec();
    assert!(matches!(EpubDocument::open(bytes), Err(EpubError::ArchiveOpen(_))));
}

#[test]
fn unknown_ncx_id_leaves_diagnostics() {
    let package = opf(
        "    <item id=\"c1\" href=\"ch1.xhtml\" media-type=\"application/xhtml+xml\"/>",
        "<spine toc=\"ghost\"><itemref idref=\"c1\"/></spine>",
    );
    let bytes = build_archive(&[
        ("META-INF/container.xml", CONTAINER),
        ("OEBPS/content.opf", &package),
    ]);
    let (doc, diags) = EpubDocument::open(bytes).unwrap();
    assert!(doc.toc.is_empty());
    assert!(diags.contains(&Diagnostic::NcxIdUnknown));
    assert!(diags.contains(&Diagnostic::TocMissing));
}
