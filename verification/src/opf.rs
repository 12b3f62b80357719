use vstd::prelude::*;
use crate::epub::{ItemV, ManifestItem};
use crate::errors::EpubError;
use crate::strutil::str_eq;
use crate::xml::{XmlNode, attr_in, find_in_tree, find_named};

verus! {

/// The package element of a descriptor tree: the root element itself when it
/// is named `package`, else its first child so named.
pub open spec fn package_element(root: XmlNode) -> Option<XmlNode> {
    if root.name@ == "package"@ {
        Some(root)
    } else {
        find_named(root.children@, "package"@)
    }
}

/// The descriptor path declared by a container document: the `full-path`
/// attribute of the first rootfile element, in pre-order; its absence is the
/// container's own failure.
pub open spec fn container_opf_path(root: XmlNode) -> Result<Seq<char>, EpubError> {
    match find_in_tree(root, "rootfile"@) {
        None => Err(EpubError::MissingRootfileElement),
        Some(rf) => match attr_in(rf.attrs@, "full-path"@) {
            None => Err(EpubError::MissingFullPathAttribute),
            Some(p) => Ok(p),
        },
    }
}

/// Whether the rootfile's declared media type is the package media type;
/// vacuously true when there is no rootfile element.
pub open spec fn container_media_ok(root: XmlNode) -> bool {
    match find_in_tree(root, "rootfile"@) {
        None => true,
        Some(rf) => attr_in(rf.attrs@, "media-type"@) == Some("application/oebps-package+xml"@),
    }
}

/// The items declared by the manifest element's children, front to back:
/// every element named `item` must carry `id`, `href` and `media-type`
/// (`properties` is optional), and other children are ignored.
pub open spec fn parse_manifest_spec(children: Seq<XmlNode>) -> Result<Seq<ItemV>, EpubError>
    decreases children.len(),
{
    if children.len() == 0 {
        Ok(Seq::empty())
    } else {
        match parse_manifest_spec(children.drop_last()) {
            Err(e) => Err(e),
            Ok(items) => {
                let c = children.last();
                if c.name@ != "item"@ {
                    Ok(items)
                } else {
                    match attr_in(c.attrs@, "id"@) {
                        None => Err(EpubError::XmlTextExtractionError),
                        Some(id) => match attr_in(c.attrs@, "href"@) {
                            None => Err(EpubError::XmlTextExtractionError),
                            Some(href) => match attr_in(c.attrs@, "media-type"@) {
                                None => Err(EpubError::XmlTextExtractionError),
                                Some(mt) => Ok(
                                    items.push(
                                        ItemV {
                                            id: id,
                                            href: href,
                                            media_type: mt,
                                            properties: attr_in(c.attrs@, "properties"@),
                                        },
                                    ),
                                ),
                            },
                        },
                    }
                }
            },
        }
    }
}

/// The spine ids declared by the spine element's children, front to back:
/// every element named `itemref` must carry `idref`, and other children are
/// ignored.
pub open spec fn parse_spine_spec(children: Seq<XmlNode>) -> Result<Seq<Seq<char>>, EpubError>
    decreases children.len(),
{
    if children.len() == 0 {
        Ok(Seq::empty())
    } else {
        match parse_spine_spec(children.drop_last()) {
            Err(e) => Err(e),
            Ok(ids) => {
                let c = children.last();
                if c.name@ != "itemref"@ {
                    Ok(ids)
                } else {
                    match attr_in(c.attrs@, "idref"@) {
                        None => Err(EpubError::XmlTextExtractionError),
                        Some(idref) => Ok(ids.push(idref)),
                    }
                }
            },
        }
    }
}

/// Once a prefix of the children fails, the whole manifest fails the same
/// way.
proof fn lemma_manifest_prefix_err(children: Seq<XmlNode>, k: int)
    requires
        0 <= k <= children.len(),
        parse_manifest_spec(children.take(k)) is Err,
    ensures
        parse_manifest_spec(children) == parse_manifest_spec(children.take(k)),
    decreases children.len() - k,
{
    if k < children.len() {
        assert(children.take(k + 1).drop_last() =~= children.take(k));
        lemma_manifest_prefix_err(children, k + 1);
    } else {
        assert(children.take(k) =~= children);
    }
}

/// Once a prefix of the children fails, the whole spine fails the same way.
proof fn lemma_spine_prefix_err(children: Seq<XmlNode>, k: int)
    requires
        0 <= k <= children.len(),
        parse_spine_spec(children.take(k)) is Err,
    ensures
        parse_spine_spec(children) == parse_spine_spec(children.take(k)),
    decreases children.len() - k,
{
    if k < children.len() {
        assert(children.take(k + 1).drop_last() =~= children.take(k));
        lemma_spine_prefix_err(children, k + 1);
    } else {
        assert(children.take(k) =~= children);
    }
}

/// Locates the package element of a parsed descriptor.
pub fn find_package_element(root: &XmlNode) -> (r: Result<&XmlNode, EpubError>)
    ensures
        r matches Ok(p) ==> package_element(*root) == Some(*p),
        r matches Err(e) ==> package_element(*root) is None && e
            == EpubError::MissingPackageElement,
{
    if str_eq(root.name.as_str(), "package") {
        Ok(root)
    } else {
        match root.child_named("package") {
            Some(p) => Ok(p),
            None => Err(EpubError::MissingPackageElement),
        }
    }
}

/// Reads the descriptor path out of a parsed container document, and reports
/// whether the rootfile's declared media type is the expected package media
/// type (a mismatch is a diagnostic for the caller, not a failure).
pub fn parse_container_doc(root: &XmlNode) -> (r: Result<(String, bool), EpubError>)
    ensures
        r matches Ok(p) ==> container_opf_path(*root) == Ok::<Seq<char>, EpubError>(p.0@) && p.1
            == container_media_ok(*root),
        r matches Err(e) ==> container_opf_path(*root) == Err::<Seq<char>, EpubError>(e),
{
    match root.find_element("rootfile") {
        None => Err(EpubError::MissingRootfileElement),
        Some(rf) => {
            match rf.attr("full-path") {
                None => Err(EpubError::MissingFullPathAttribute),
                Some(p) => {
                    let media_ok = match rf.attr("media-type") {
                        Some(m) => str_eq(m.as_str(), "application/oebps-package+xml"),
                        None => false,
                    };
                    Ok((p.clone(), media_ok))
                },
            }
        },
    }
}

/// Collects the manifest's items. Fails when a declared item lacks one of
/// its mandatory attributes.
pub fn parse_manifest(manifest_node: &XmlNode) -> (r: Result<Vec<ManifestItem>, EpubError>)
    ensures
        r matches Ok(v) ==> parse_manifest_spec(manifest_node.children@) == Ok::<
            Seq<ItemV>,
            EpubError,
        >(v.deep_view()),
        r matches Err(e) ==> parse_manifest_spec(manifest_node.children@) == Err::<
            Seq<ItemV>,
            EpubError,
        >(e),
{
    let mut items: Vec<ManifestItem> = Vec::new();
    let n = manifest_node.children.len();
    let mut i: usize = 0;
    proof {
        assert(manifest_node.children@.take(0) =~= Seq::<XmlNode>::empty());
        assert(items.deep_view() =~= Seq::<ItemV>::empty());
    }
    while i < n
        invariant
            n == manifest_node.children@.len(),
            i <= n,
            parse_manifest_spec(manifest_node.children@.take(i as int)) == Ok::<
                Seq<ItemV>,
                EpubError,
            >(items.deep_view()),
        decreases n - i,
    {
        proof {
            assert(manifest_node.children@.take(i + 1).drop_last() =~= manifest_node.children@.take(
                i as int,
            ));
            assert(manifest_node.children@.take(i + 1).last() == manifest_node.children@[i as int]);
        }
        let c = &manifest_node.children[i];
        if str_eq(c.name.as_str(), "item") {
            let id = match c.attr("id") {
                Some(s) => s,
                None => {
                    proof {
                        lemma_manifest_prefix_err(manifest_node.children@, i + 1);
                    }
                    return Err(EpubError::XmlTextExtractionError);
                },
            };
            let href = match c.attr("href") {
                Some(s) => s,
                None => {
                    proof {
                        lemma_manifest_prefix_err(manifest_node.children@, i + 1);
                    }
                    return Err(EpubError::XmlTextExtractionError);
                },
            };
            let media_type = match c.attr("media-type") {
                Some(s) => s,
                None => {
                    proof {
                        lemma_manifest_prefix_err(manifest_node.children@, i + 1);
                    }
                    return Err(EpubError::XmlTextExtractionError);
                },
            };
            let properties = match c.attr("properties") {
                Some(p) => Some(p.clone()),
                None => None,
            };
            let ghost old_dv = items.deep_view();
            items.push(
                ManifestItem {
                    id: id.clone(),
                    href: href.clone(),
                    media_type: media_type.clone(),
                    properties,
                },
            );
            proof {
                assert(items.deep_view() =~= old_dv.push(
                    ItemV {
                        id: id@,
                        href: href@,
                        media_type: media_type@,
                        properties: attr_in(c.attrs@, "properties"@),
                    },
                ));
            }
        }
        i += 1;
    }
    proof {
        assert(manifest_node.children@.take(n as int) =~= manifest_node.children@);
    }
    Ok(items)
}

/// Collects the spine's reading order. Fails when an entry lacks its id
/// reference.
pub fn parse_spine(spine_node: &XmlNode) -> (r: Result<Vec<String>, EpubError>)
    ensures
        r matches Ok(v) ==> parse_spine_spec(spine_node.children@) == Ok::<
            Seq<Seq<char>>,
            EpubError,
        >(v.deep_view()),
        r matches Err(e) ==> parse_spine_spec(spine_node.children@) == Err::<
            Seq<Seq<char>>,
            EpubError,
        >(e),
{
    let mut ids: Vec<String> = Vec::new();
    let n = spine_node.children.len();
    let mut i: usize = 0;
    proof {
        assert(spine_node.children@.take(0) =~= Seq::<XmlNode>::empty());
        assert(ids.deep_view() =~= Seq::<Seq<char>>::empty());
    }
    while i < n
        invariant
            n == spine_node.children@.len(),
            i <= n,
            parse_spine_spec(spine_node.children@.take(i as int)) == Ok::<
                Seq<Seq<char>>,
                EpubError,
            >(ids.deep_view()),
        decreases n - i,
    {
        proof {
            assert(spine_node.children@.take(i + 1).drop_last() =~= spine_node.children@.take(
                i as int,
            ));
            assert(spine_node.children@.take(i + 1).last() == spine_node.children@[i as int]);
        }
        let c = &spine_node.children[i];
        if str_eq(c.name.as_str(), "itemref") {
            match c.attr("idref") {
                Some(idref) => {
                    let ghost old_dv = ids.deep_view();
                    ids.push(idref.clone());
                    proof {
                        assert(ids.deep_view() =~= old_dv.push(idref@));
                    }
                },
                None => {
                    proof {
                        lemma_spine_prefix_err(spine_node.children@, i + 1);
                    }
                    return Err(EpubError::XmlTextExtractionError);
                },
            }
        }
        i += 1;
    }
    proof {
        assert(spine_node.children@.take(n as int) =~= spine_node.children@);
    }
    Ok(ids)
}

} // verus!
