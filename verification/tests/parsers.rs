use epub_reader::errors::EpubError;
use epub_reader::metadata::Metadata;
use epub_reader::opf::{find_package_element, parse_container_doc, parse_manifest, parse_spine};
use epub_reader::xml::XmlNode;

fn elem(name: &str, attrs: &[(&str, &str)], text: Option<&str>, children: Vec<XmlNode>) -> XmlNode {
    XmlNode {
        name: name.to_string(),
        attrs: attrs.iter().map(|(k, v)| (k.to_string(), v.to_string())).collect(),
        text: text.map(|t| t.to_string()),
        children,
    }
}

#[test]
fn package_element_is_root_when_root_is_package() {
    let root = elem("package", &[], None, vec![]);
    let found = find_package_element(&root).unwrap();
    assert_eq!(found.name, "package");
}

#[test]
fn package_element_is_found_among_children() {
    let root = elem(
        "wrapper",
        &[],
        None,
        vec![elem("other", &[], None, vec![]), elem("package", &[("version", "3.0")], None, vec![])],
    );
    let found = find_package_element(&root).unwrap();
    assert_eq!(found.attrs[0].1, "3.0");
}

#[test]
fn package_element_missing_is_an_error() {
    let root = elem("wrapper", &[], None, vec![elem("other", &[], None, vec![])]);
    assert!(matches!(find_package_element(&root), Err(EpubError::MissingPackageElement)));
}

#[test]
fn container_doc_yields_full_path_and_media_check() {
    let rootfile = elem(
        "rootfile",
        &[("full-path", "OEBPS/content.opf"), ("media-type", "application/oebps-package+xml")],
        None,
        vec![],
    );
    let root = elem("container", &[], None, vec![elem("rootfiles", &[], None, vec![rootfile])]);
    let (path, media_ok) = parse_container_doc(&root).unwrap();
    assert_eq!(path, "OEBPS/content.opf");
    assert!(media_ok);
}

#[test]
fn container_doc_reports_media_type_mismatch() {
    let rootfile = elem(
        "rootfile",
        &[("full-path", "content.opf"), ("media-type", "text/plain")],
        None,
        vec![],
    );
    let root = elem("container", &[], None, vec![elem("rootfiles", &[], None, vec![rootfile])]);
    let (path, media_ok) = parse_container_doc(&root).unwrap();
    assert_eq!(path, "content.opf");
    assert!(!media_ok);
}

#[test]
fn container_doc_without_rootfile_fails() {
    let root = elem("container", &[], None, vec![elem("rootfiles", &[], None, vec![])]);
    assert!(matches!(parse_container_doc(&root), Err(EpubError::MissingRootfileElement)));
}

#[test]
fn container_doc_without_full_path_fails() {
    let rootfile = elem("rootfile", &[("media-type", "application/oebps-package+xml")], None, vec![]);
    let root = elem("container", &[], None, vec![rootfile]);
    assert!(matches!(parse_container_doc(&root), Err(EpubError::MissingFullPathAttribute)));
}

#[test]
fn manifest_parse_collects_items_and_properties() {
    let node = elem(
        "manifest",
        &[],
        None,
        vec![
            elem(
                "item",
                &[("id", "c1"), ("href", "ch1.xhtml"), ("media-type", "application/xhtml+xml")],
                None,
                vec![],
            ),
            elem("ignored", &[], None, vec![]),
            elem(
                "item",
                &[
                    ("id", "nav"),
                    ("href", "nav.xhtml"),
                    ("media-type", "application/xhtml+xml"),
                    ("properties", "nav"),
                ],
                None,
                vec![],
            ),
        ],
    );
    let items = parse_manifest(&node).unwrap();
    assert_eq!(items.len(), 2);
    assert_eq!(items[0].id, "c1");
    assert_eq!(items[0].href, "ch1.xhtml");
    assert_eq!(items[0].properties, None);
    assert_eq!(items[1].properties.as_deref(), Some("nav"));
}

#[test]
fn manifest_item_without_href_fails() {
    let node = elem(
        "manifest",
        &[],
        None,
        vec![elem("item", &[("id", "c1"), ("media-type", "application/xhtml+xml")], None, vec![])],
    );
    assert!(matches!(parse_manifest(&node), Err(EpubError::XmlTextExtractionError)));
}

#[test]
fn spine_parse_keeps_reading_order() {
    let node = elem(
        "spine",
        &[("toc", "ncx")],
        None,
        vec![
            elem("itemref", &[("idref", "c1")], None, vec![]),
            elem("itemref", &[("idref", "c2")], None, vec![]),
        ],
    );
    let ids = parse_spine(&node).unwrap();
    assert_eq!(ids, vec!["c1".to_string(), "c2".to_string()]);
}

#[test]
fn spine_entry_without_idref_fails() {
    let node = elem("spine", &[], None, vec![elem("itemref", &[], None, vec![])]);
    assert!(matches!(parse_spine(&node), Err(EpubError::XmlTextExtractionError)));
}

#[test]
fn metadata_parse_takes_first_occurrence_text() {
    let node = elem(
        "metadata",
        &[],
        None,
        vec![
            elem("title", &[], Some("First Title"), vec![]),
            elem("title", &[], Some("Second Title"), vec![]),
            elem("creator", &[], Some("An Author"), vec![]),
            elem("unknown", &[], Some("ignored"), vec![]),
        ],
    );
    let m = Metadata::parse(&node).unwrap();
    assert_eq!(m.title.as_deref(), Some("First Title"));
    assert_eq!(m.creator.as_deref(), Some("An Author"));
    assert_eq!(m.language, None);
    assert_eq!(m.identifier, None);
    assert_eq!(m.publisher, None);
    assert_eq!(m.date, None);
}
