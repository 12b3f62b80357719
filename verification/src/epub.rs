use vstd::prelude::*;
use crate::archive::{ByteArchive, archive_entries, read_entry, read_text, zip_entries, zip_open};
use crate::errors::{Diagnostic, EpubError, ErrV};
use crate::html::{html_doc, parse_html};
use crate::metadata::{Metadata, MetadataV, metadata_of};
use crate::navigation::{Navigator, TocEntry, TocEntryV};
use crate::opf::{
    container_media_ok, container_opf_path, find_package_element, package_element, parse_container_doc,
    parse_manifest, parse_manifest_spec, parse_spine, parse_spine_spec,
};
use crate::paths::{build_full_path, dirname, dirname_spec, join_root_spec};
use crate::strutil::str_eq;
use crate::toc::{collect_nav_entries, collect_navpoints, nav_entries_tree, navpoints_under};
use crate::xml::{XmlNode, attr_in, find_in_tree, find_named, parse_xml, xml_doc};

verus! {

/// One declared content resource of the package.
///
/// `href` is kept as written in the descriptor, relative to the package's
/// root directory; it is joined with that directory when a chapter path is
/// requested. `properties` carries format hints, among them the mark of the
/// navigation document.
pub struct ManifestItem {
    pub id: String,
    pub href: String,
    pub media_type: String,
    pub properties: Option<String>,
}

/// The mathematical value of a `ManifestItem`: its fields as character
/// sequences.
pub struct ItemV {
    pub id: Seq<char>,
    pub href: Seq<char>,
    pub media_type: Seq<char>,
    pub properties: Option<Seq<char>>,
}

impl View for ManifestItem {
    type V = ItemV;

    open spec fn view(&self) -> ItemV {
        ItemV {
            id: self.id@,
            href: self.href@,
            media_type: self.media_type@,
            properties: self.properties.deep_view(),
        }
    }
}

impl DeepView for ManifestItem {
    type V = ItemV;

    open spec fn deep_view(&self) -> ItemV {
        self.view()
    }
}

/// The manifest maps each id to one item: no two items share an id. A
/// well-formed package declares its manifest this way; the parsers do not
/// enforce it, so it is stated here and honoured by `manifest_lookup` as
/// `lemma_manifest_lookup_unique` shows.
pub open spec fn manifest_ids_unique(m: Seq<ItemV>) -> bool {
    forall|i: int, j: int| 0 <= i < j < m.len() ==> m[i].id != m[j].id
}

/// The first item of `m` whose id is `id`. With unique ids the choice of
/// match is immaterial (`lemma_manifest_lookup_unique`); on a malformed
/// package that declares an id twice, the earliest declaration wins.
pub open spec fn manifest_lookup(m: Seq<ItemV>, id: Seq<char>) -> Option<ItemV>
    decreases m.len(),
{
    if m.len() == 0 {
        None
    } else if m[0].id == id {
        Some(m[0])
    } else {
        manifest_lookup(m.drop_first(), id)
    }
}

/// On a manifest with unique ids, looking up the id of any item gives
/// exactly that item: the lookup behaves as the id-keyed map the manifest
/// stands for.
pub proof fn lemma_manifest_lookup_unique(m: Seq<ItemV>, i: int)
    requires
        manifest_ids_unique(m),
        0 <= i < m.len(),
    ensures
        manifest_lookup(m, m[i].id) == Some(m[i]),
    decreases m.len(),
{
    if i > 0 {
        assert(m[0].id != m[i].id);
        assert(manifest_ids_unique(m.drop_first())) by {
            assert(forall|a: int, b: int|
                0 <= a < b < m.drop_first().len() ==> m.drop_first()[a] == m[a + 1]
                    && m.drop_first()[b] == m[b + 1]);
        }
        lemma_manifest_lookup_unique(m.drop_first(), i - 1);
        assert(m.drop_first()[i - 1] == m[i]);
    }
}

/// The first manifest item with the given id.
pub fn manifest_get<'a>(m: &'a Vec<ManifestItem>, id: &str) -> (r: Option<&'a ManifestItem>)
    ensures
        r matches Some(it) ==> manifest_lookup(m.deep_view(), id@) == Some(it.deep_view()),
        r is None ==> manifest_lookup(m.deep_view(), id@) is None,
{
    let n = m.len();
    let mut i: usize = 0;
    proof {
        assert(m.deep_view().skip(0) =~= m.deep_view());
    }
    while i < n
        invariant
            n == m@.len(),
            i <= n,
            m.deep_view().len() == n,
            manifest_lookup(m.deep_view(), id@) == manifest_lookup(
                m.deep_view().skip(i as int),
                id@,
            ),
        decreases n - i,
    {
        proof {
            assert(m.deep_view().skip(i as int)[0] == m.deep_view()[i as int]);
            assert(m.deep_view().skip(i as int).drop_first() =~= m.deep_view().skip(i as int + 1));
        }
        if str_eq(m[i].id.as_str(), id) {
            return Some(&m[i]);
        }
        i += 1;
    }
    proof {
        assert(m.deep_view().skip(n as int) =~= Seq::<ItemV>::empty());
    }
    None
}

/// The first manifest item whose properties mark it as the navigation
/// document.
pub open spec fn nav_item_of(m: Seq<ItemV>) -> Option<ItemV>
    decreases m.len(),
{
    if m.len() == 0 {
        None
    } else if m[0].properties == Some("nav"@) {
        Some(m[0])
    } else {
        nav_item_of(m.drop_first())
    }
}

/// The first manifest item marked as the navigation document.
fn find_nav_item<'a>(m: &'a Vec<ManifestItem>) -> (r: Option<&'a ManifestItem>)
    ensures
        r matches Some(it) ==> nav_item_of(m.deep_view()) == Some(it.deep_view()),
        r is None ==> nav_item_of(m.deep_view()) is None,
{
    let n = m.len();
    let mut i: usize = 0;
    proof {
        assert(m.deep_view().skip(0) =~= m.deep_view());
    }
    while i < n
        invariant
            n == m@.len(),
            i <= n,
            m.deep_view().len() == n,
            nav_item_of(m.deep_view()) == nav_item_of(m.deep_view().skip(i as int)),
        decreases n - i,
    {
        proof {
            assert(m.deep_view().skip(i as int)[0] == m.deep_view()[i as int]);
            assert(m.deep_view().skip(i as int).drop_first() =~= m.deep_view().skip(i as int + 1));
        }
        let marked = match &m[i].properties {
            Some(p) => str_eq(p.as_str(), "nav"),
            None => false,
        };
        if marked {
            return Some(&m[i]);
        }
        i += 1;
    }
    proof {
        assert(m.deep_view().skip(n as int) =~= Seq::<ItemV>::empty());
    }
    None
}

/// What the nav source yields: the manifest's nav-marked item is read and
/// its anchors collected; `None` when there is no such item, its entry
/// cannot be read, or it yields no entries.
pub open spec fn nav_toc_outcome(
    entries: Map<Seq<char>, Option<Seq<char>>>,
    manifest: Seq<ItemV>,
    root: Seq<char>,
) -> Option<Seq<TocEntryV>> {
    match nav_item_of(manifest) {
        None => None,
        Some(item) => {
            let path = join_root_spec(root, item.href);
            match read_text(entries, path) {
                None => None,
                Some(text) => {
                    let t = nav_entries_tree(
                        html_doc(text),
                        false,
                        false,
                        false,
                        dirname_spec(item.href),
                        root,
                    );
                    if t.len() > 0 {
                        Some(t)
                    } else {
                        None
                    }
                },
            }
        },
    }
}

/// What the NCX source yields: the spine's TOC id is looked up in the
/// manifest, the named entry read, and its navMap walked; `None` when any
/// step fails or yields no entries.
pub open spec fn ncx_toc_outcome(
    entries: Map<Seq<char>, Option<Seq<char>>>,
    manifest: Seq<ItemV>,
    root: Seq<char>,
    toc_attr: Option<Seq<char>>,
) -> Option<Seq<TocEntryV>> {
    match toc_attr {
        None => None,
        Some(id) => match manifest_lookup(manifest, id) {
            None => None,
            Some(item) => {
                let path = join_root_spec(root, item.href);
                match read_text(entries, path) {
                    None => None,
                    Some(text) => match xml_doc(text) {
                        None => None,
                        Some(tree) => match find_in_tree(tree, "navMap"@) {
                            None => None,
                            Some(nm) => {
                                let t = navpoints_under(nm, dirname_spec(item.href), root);
                                if t.len() > 0 {
                                    Some(t)
                                } else {
                                    None
                                }
                            },
                        },
                    },
                }
            },
        },
    }
}

/// The discovered table of contents: the nav source's entries when it
/// yields any, else the NCX source's, else the empty sequence. A package
/// whose nav source yields entries never has its NCX consulted.
pub open spec fn toc_of(
    entries: Map<Seq<char>, Option<Seq<char>>>,
    manifest: Seq<ItemV>,
    root: Seq<char>,
    toc_attr: Option<Seq<char>>,
) -> Seq<TocEntryV> {
    match nav_toc_outcome(entries, manifest, root) {
        Some(t) => t,
        None => match ncx_toc_outcome(entries, manifest, root, toc_attr) {
            Some(t) => t,
            None => Seq::empty(),
        },
    }
}

/// The diagnostic the nav source leaves when it yields nothing.
pub open spec fn nav_diag(
    entries: Map<Seq<char>, Option<Seq<char>>>,
    manifest: Seq<ItemV>,
    root: Seq<char>,
) -> Seq<Diagnostic> {
    match nav_item_of(manifest) {
        None => Seq::empty(),
        Some(item) => {
            let path = join_root_spec(root, item.href);
            match read_text(entries, path) {
                None => seq![Diagnostic::NavUnreadable],
                Some(text) => {
                    let t = nav_entries_tree(
                        html_doc(text),
                        false,
                        false,
                        false,
                        dirname_spec(item.href),
                        root,
                    );
                    if t.len() > 0 {
                        Seq::empty()
                    } else {
                        seq![Diagnostic::NavEmpty]
                    }
                },
            }
        },
    }
}

/// The diagnostic the NCX source leaves when it yields nothing.
pub open spec fn ncx_diag(
    entries: Map<Seq<char>, Option<Seq<char>>>,
    manifest: Seq<ItemV>,
    root: Seq<char>,
    toc_attr: Option<Seq<char>>,
) -> Seq<Diagnostic> {
    match toc_attr {
        None => seq![Diagnostic::NcxIdMissing],
        Some(id) => match manifest_lookup(manifest, id) {
            None => seq![Diagnostic::NcxIdUnknown],
            Some(item) => {
                let path = join_root_spec(root, item.href);
                match read_text(entries, path) {
                    None => seq![Diagnostic::NcxUnreadable],
                    Some(text) => match xml_doc(text) {
                        None => seq![Diagnostic::NcxParseFailed],
                        Some(tree) => match find_in_tree(tree, "navMap"@) {
                            None => seq![Diagnostic::NcxParseFailed],
                            Some(nm) => if navpoints_under(nm, dirname_spec(item.href), root).len()
                                > 0 {
                                Seq::empty()
                            } else {
                                seq![Diagnostic::NcxEmpty]
                            },
                        },
                    },
                }
            },
        },
    }
}

/// The diagnostics TOC discovery leaves: none when the nav source wins, the
/// nav source's notice when the NCX wins, and both sources' notices plus the
/// final notice when the table of contents stays empty.
pub open spec fn toc_diags(
    entries: Map<Seq<char>, Option<Seq<char>>>,
    manifest: Seq<ItemV>,
    root: Seq<char>,
    toc_attr: Option<Seq<char>>,
) -> Seq<Diagnostic> {
    if nav_toc_outcome(entries, manifest, root) is Some {
        Seq::empty()
    } else if ncx_toc_outcome(entries, manifest, root, toc_attr) is Some {
        nav_diag(entries, manifest, root)
    } else {
        nav_diag(entries, manifest, root) + ncx_diag(entries, manifest, root, toc_attr)
            + seq![Diagnostic::TocMissing]
    }
}

/// Discovery precedence: when the manifest's nav-marked item yields
/// entries, they are the discovered table of contents, whatever the NCX
/// source holds — the NCX is never consulted, and discovery leaves no
/// diagnostics.
pub proof fn lemma_toc_precedence(
    entries: Map<Seq<char>, Option<Seq<char>>>,
    manifest: Seq<ItemV>,
    root: Seq<char>,
    toc_attr: Option<Seq<char>>,
)
    requires
        nav_toc_outcome(entries, manifest, root) is Some,
    ensures
        toc_of(entries, manifest, root, toc_attr) == nav_toc_outcome(
            entries,
            manifest,
            root,
        )->Some_0,
        toc_diags(entries, manifest, root, toc_attr) == Seq::<Diagnostic>::empty(),
{
}

/// A package lacking both a nav source and a resolvable NCX still yields a
/// table of contents — the empty one — and discovery degrades to
/// diagnostics ending in the final notice, never to a failure.
pub proof fn lemma_empty_toc(
    entries: Map<Seq<char>, Option<Seq<char>>>,
    manifest: Seq<ItemV>,
    root: Seq<char>,
    toc_attr: Option<Seq<char>>,
)
    requires
        nav_toc_outcome(entries, manifest, root) is None,
        ncx_toc_outcome(entries, manifest, root, toc_attr) is None,
    ensures
        toc_of(entries, manifest, root, toc_attr) == Seq::<TocEntryV>::empty(),
        toc_diags(entries, manifest, root, toc_attr).len() > 0,
        toc_diags(entries, manifest, root, toc_attr).last() == Diagnostic::TocMissing,
{
}

/// The spec-level value of an optional id reference.
pub open spec fn opt_str_view(s: Option<&String>) -> Option<Seq<char>> {
    match s {
        Some(x) => Some(x@),
        None => None,
    }
}

/// Reads and parses the table of contents, trying the nav source first and
/// the NCX second; every failure along the way degrades to a diagnostic and
/// the next source, never to an error.
fn discover_toc(
    archive: &mut ByteArchive,
    manifest: &Vec<ManifestItem>,
    root: &str,
    toc_id: Option<&String>,
    diags: &mut Vec<Diagnostic>,
) -> (r: Vec<TocEntry>)
    ensures
        archive_entries(*final(archive)) == archive_entries(*old(archive)),
        r.deep_view() == toc_of(
            archive_entries(*old(archive)),
            manifest.deep_view(),
            root@,
            opt_str_view(toc_id),
        ),
        final(diags)@ == old(diags)@ + toc_diags(
            archive_entries(*old(archive)),
            manifest.deep_view(),
            root@,
            opt_str_view(toc_id),
        ),
{
    let ghost entries = archive_entries(*old(archive));
    match find_nav_item(manifest) {
        None => {},
        Some(item) => {
            let nav_path = build_full_path(root, item.href.as_str());
            match read_entry(archive, nav_path.as_str()) {
                Ok(text) => {
                    let tree = parse_html(text.as_str());
                    let nav_dir = dirname(item.href.as_str());
                    let mut out: Vec<TocEntry> = Vec::new();
                    proof {
                        assert(out.deep_view() =~= Seq::<TocEntryV>::empty());
                    }
                    collect_nav_entries(
                        &tree,
                        false,
                        false,
                        false,
                        nav_dir.as_str(),
                        root,
                        &mut out,
                    );
                    proof {
                        assert(out.deep_view() =~= nav_entries_tree(
                            html_doc(text@),
                            false,
                            false,
                            false,
                            dirname_spec(item.deep_view().href),
                            root@,
                        ));
                    }
                    if out.len() > 0 {
                        return out;
                    }
                    diags.push(Diagnostic::NavEmpty);
                },
                Err(_) => {
                    diags.push(Diagnostic::NavUnreadable);
                },
            }
        },
    }
    match toc_id {
        None => {
            diags.push(Diagnostic::NcxIdMissing);
        },
        Some(id) => {
            match manifest_get(manifest, id.as_str()) {
                None => {
                    diags.push(Diagnostic::NcxIdUnknown);
                },
                Some(item) => {
                    let ncx_path = build_full_path(root, item.href.as_str());
                    match read_entry(archive, ncx_path.as_str()) {
                        Err(_) => {
                            diags.push(Diagnostic::NcxUnreadable);
                        },
                        Ok(text) => {
                            match parse_xml(text.as_str()) {
                                None => {
                                    diags.push(Diagnostic::NcxParseFailed);
                                },
                                Some(tree) => {
                                    match tree.find_element("navMap") {
                                        None => {
                                            diags.push(Diagnostic::NcxParseFailed);
                                        },
                                        Some(nm) => {
                                            let ncx_dir = dirname(item.href.as_str());
                                            let mut out: Vec<TocEntry> = Vec::new();
                                            proof {
                                                assert(out.deep_view() =~= Seq::<
                                                    TocEntryV,
                                                >::empty());
                                            }
                                            collect_navpoints(
                                                nm,
                                                ncx_dir.as_str(),
                                                root,
                                                &mut out,
                                            );
                                            if out.len() > 0 {
                                                return out;
                                            }
                                            diags.push(Diagnostic::NcxEmpty);
                                        },
                                    }
                                },
                            }
                        },
                    }
                },
            }
        },
    }
    diags.push(Diagnostic::TocMissing);
    let empty_toc: Vec<TocEntry> = Vec::new();
    proof {
        assert(empty_toc.deep_view() =~= Seq::<TocEntryV>::empty());
    }
    empty_toc
}

/// A parsed package: the open archive handle, the mandatory sections, the
/// discovered table of contents, and the directory containing the package
/// descriptor. All of it is built at open time; only chapter content is read
/// on demand.
pub struct EpubDocument {
    pub archive: ByteArchive,
    pub metadata: Metadata,
    pub manifest: Vec<ManifestItem>,
    pub spine_ids: Vec<String>,
    pub toc: Vec<TocEntry>,
    pub root_path: String,
}

/// The mathematical value of an `EpubDocument`: what its archive holds and
/// the parsed sections.
#[verifier::ext_equal]
pub struct DocV {
    pub entries: Map<Seq<char>, Option<Seq<char>>>,
    pub metadata: MetadataV,
    pub manifest: Seq<ItemV>,
    pub spine: Seq<Seq<char>>,
    pub toc: Seq<TocEntryV>,
    pub root: Seq<char>,
}

impl View for EpubDocument {
    type V = DocV;

    open spec fn view(&self) -> DocV {
        DocV {
            entries: archive_entries(self.archive),
            metadata: self.metadata@,
            manifest: self.manifest.deep_view(),
            spine: self.spine_ids.deep_view(),
            toc: self.toc.deep_view(),
            root: self.root_path@,
        }
    }
}

/// The fixed name of the container pointer entry.
pub open spec fn container_path() -> Seq<char> {
    "META-INF/container.xml"@
}

/// What opening an archive with these entries yields: the document's value
/// and the diagnostics on success, the specific failure otherwise.
pub open spec fn open_outcome(entries: Map<Seq<char>, Option<Seq<char>>>) -> Result<
    (DocV, Seq<Diagnostic>),
    ErrV,
> {
    match read_text(entries, container_path()) {
        None => Err(ErrV::MissingContainerXml),
        Some(ct) => match xml_doc(ct) {
            None => Err(ErrV::XmlParseError),
            Some(ctree) => match container_opf_path(ctree) {
                Err(e) => Err(e@),
                Ok(opf_path) => {
                    let root = dirname_spec(opf_path);
                    if !entries.contains_key(opf_path) {
                        Err(ErrV::ContentReadError(opf_path))
                    } else if entries[opf_path] is None {
                        Err(ErrV::ArchiveRead)
                    } else {
                        match xml_doc(entries[opf_path]->Some_0) {
                            None => Err(ErrV::XmlParseError),
                            Some(otree) => match package_element(otree) {
                                None => Err(ErrV::MissingPackageElement),
                                Some(pkg) => match find_named(pkg.children@, "metadata"@) {
                                    None => Err(ErrV::MissingMetadataElement),
                                    Some(mnode) => match find_named(pkg.children@, "manifest"@) {
                                        None => Err(ErrV::MissingManifestElement),
                                        Some(mfnode) => match find_named(
                                            pkg.children@,
                                            "spine"@,
                                        ) {
                                            None => Err(ErrV::MissingSpineElement),
                                            Some(spnode) => match parse_manifest_spec(
                                                mfnode.children@,
                                            ) {
                                                Err(e) => Err(e@),
                                                Ok(manifest) => match parse_spine_spec(
                                                    spnode.children@,
                                                ) {
                                                    Err(e) => Err(e@),
                                                    Ok(spine) => Ok(
                                                        (
                                                            DocV {
                                                                entries,
                                                                metadata: metadata_of(mnode),
                                                                manifest,
                                                                spine,
                                                                toc: toc_of(
                                                                    entries,
                                                                    manifest,
                                                                    root,
                                                                    attr_in(
                                                                        spnode.attrs@,
                                                                        "toc"@,
                                                                    ),
                                                                ),
                                                                root,
                                                            },
                                                            (if container_media_ok(ctree) {
                                                                Seq::<Diagnostic>::empty()
                                                            } else {
                                                                seq![Diagnostic::RootfileMediaType]
                                                            }) + toc_diags(
                                                                entries,
                                                                manifest,
                                                                root,
                                                                attr_in(spnode.attrs@, "toc"@),
                                                            ),
                                                        ),
                                                    ),
                                                },
                                            },
                                        },
                                    },
                                },
                            },
                        }
                    }
                },
            },
        },
    }
}

impl EpubDocument {
    /// Opens a package from an already-opened archive. The mandatory
    /// sections are parsed eagerly and a failure among them is the
    /// operation's failure; the table of contents degrades to diagnostics
    /// instead.
    pub fn open_from_archive(archive: ByteArchive) -> (r: Result<
        (EpubDocument, Vec<Diagnostic>),
        EpubError,
    >)
        ensures
            open_outcome(archive_entries(archive)) matches Ok(p) ==> (r matches Ok(pair)
                && pair.0@ == p.0 && pair.1@ == p.1),
            open_outcome(archive_entries(archive)) matches Err(ev) ==> (r matches Err(e) && e@
                == ev),
    {
        let ghost entries = archive_entries(archive);
        let mut archive = archive;
        let mut diags: Vec<Diagnostic> = Vec::new();
        let container_text = match read_entry(&mut archive, "META-INF/container.xml") {
            Ok(s) => s,
            Err(_) => {
                return Err(EpubError::MissingContainerXml);
            },
        };
        let ctree = match parse_xml(container_text.as_str()) {
            Some(t) => t,
            None => {
                return Err(EpubError::XmlParseError);
            },
        };
        let (opf_path, media_ok) = match parse_container_doc(&ctree) {
            Ok(p) => p,
            Err(e) => {
                return Err(e);
            },
        };
        if !media_ok {
            diags.push(Diagnostic::RootfileMediaType);
        }
        let root_path = dirname(opf_path.as_str());
        let opf_text = match read_entry(&mut archive, opf_path.as_str()) {
            Ok(s) => s,
            Err(e) => {
                return Err(e);
            },
        };
        let otree = match parse_xml(opf_text.as_str()) {
            Some(t) => t,
            None => {
                return Err(EpubError::XmlParseError);
            },
        };
        let pkg = match find_package_element(&otree) {
            Ok(p) => p,
            Err(e) => {
                return Err(e);
            },
        };
        let mnode = match pkg.child_named("metadata") {
            Some(n) => n,
            None => {
                return Err(EpubError::MissingMetadataElement);
            },
        };
        let mfnode = match pkg.child_named("manifest") {
            Some(n) => n,
            None => {
                return Err(EpubError::MissingManifestElement);
            },
        };
        let spnode = match pkg.child_named("spine") {
            Some(n) => n,
            None => {
                return Err(EpubError::MissingSpineElement);
            },
        };
        let metadata = match Metadata::parse(mnode) {
            Ok(m) => m,
            Err(e) => {
                return Err(e);
            },
        };
        let manifest = match parse_manifest(mfnode) {
            Ok(m) => m,
            Err(e) => {
                return Err(e);
            },
        };
        let spine_ids = match parse_spine(spnode) {
            Ok(s) => s,
            Err(e) => {
                return Err(e);
            },
        };
        let toc_id = spnode.attr("toc");
        let toc = discover_toc(&mut archive, &manifest, root_path.as_str(), toc_id, &mut diags);
        let doc = EpubDocument { archive, metadata, manifest, spine_ids, toc, root_path };
        proof {
            assert(doc@ =~= open_outcome(entries)->Ok_0.0);
            assert(diags@ =~= open_outcome(entries)->Ok_0.1);
        }
        Ok((doc, diags))
    }

    /// Opens a package from the bytes of its archive. Bytes that are no
    /// readable zip archive fail with the archive-open error; any other
    /// outcome follows `open_outcome` of what the archive holds.
    pub fn open(bytes: Vec<u8>) -> (r: Result<(EpubDocument, Vec<Diagnostic>), EpubError>)
        ensures
            zip_entries(bytes@) matches Some(es) ==> ({
                &&& (open_outcome(es) matches Ok(p) ==> r matches Ok(pair) && pair.0@ == p.0
                    && pair.1@ == p.1)
                &&& (open_outcome(es) matches Err(ev) ==> r matches Err(e) && e@ == ev)
            }),
            zip_entries(bytes@) is None ==> (r matches Err(e) && e matches EpubError::ArchiveOpen(
                _,
            )),
    {
        let archive = match zip_open(bytes) {
            Ok(a) => a,
            Err(e) => {
                return Err(e);
            },
        };
        Self::open_from_archive(archive)
    }

    /// Reads the named archive entry as text. A missing entry is reported
    /// as a content-read error carrying the requested path; an entry that
    /// cannot be read as text is reported as an archive-read error.
    pub fn read_chapter_content(&mut self, href: &str) -> (r: Result<String, EpubError>)
        ensures
            final(self)@ == old(self)@,
            r matches Ok(s) ==> read_text(old(self)@.entries, href@) == Some(s@),
            r is Err ==> read_text(old(self)@.entries, href@) is None,
            r matches Err(e) ==> match e {
                EpubError::ContentReadError(p) => p@ == href@ && !old(
                    self,
                )@.entries.contains_key(href@),
                EpubError::ArchiveRead(_) => old(self)@.entries.contains_key(href@) && old(
                    self,
                )@.entries[href@] is None,
                _ => false,
            },
    {
        let r = read_entry(&mut self.archive, href);
        proof {
            assert(final(self)@ =~= old(self)@);
        }
        r
    }

    /// A navigation snapshot over this document's spine, table of contents
    /// and manifest, starting at the first chapter.
    pub fn create_navigator(&self) -> (r: Navigator)
        ensures
            r.wf(),
            r.current_spine_index == 0,
            r.spine_ids.deep_view() == self@.spine,
            r.toc.deep_view() == self@.toc,
            r.manifest.deep_view() == self@.manifest,
            r.root_path@ == self@.root,
    {
        Navigator::new(
            clone_strings(&self.spine_ids),
            clone_toc_entries(&self.toc),
            clone_manifest_items(&self.manifest),
            self.root_path.clone(),
        )
    }
}

/// Copies a list of ids.
fn clone_strings(v: &Vec<String>) -> (r: Vec<String>)
    ensures
        r.deep_view() == v.deep_view(),
{
    let mut r: Vec<String> = Vec::new();
    let n = v.len();
    let mut i: usize = 0;
    while i < n
        invariant
            n == v@.len(),
            i <= n,
            r.deep_view() =~= v.deep_view().take(i as int),
        decreases n - i,
    {
        r.push(v[i].clone());
        proof {
            assert(v.deep_view().take(i + 1) =~= v.deep_view().take(i as int).push(
                v.deep_view()[i as int],
            ));
            assert(r.deep_view() =~= v.deep_view().take(i + 1));
        }
        i += 1;
    }
    proof {
        assert(v.deep_view().take(n as int) =~= v.deep_view());
    }
    r
}

/// Copies an optional text field.
fn clone_opt_string(t: &Option<String>) -> (r: Option<String>)
    ensures
        r.deep_view() == t.deep_view(),
{
    match t {
        Some(s) => Some(s.clone()),
        None => None,
    }
}

/// Copies a table of contents.
fn clone_toc_entries(v: &Vec<TocEntry>) -> (r: Vec<TocEntry>)
    ensures
        r.deep_view() == v.deep_view(),
{
    let mut r: Vec<TocEntry> = Vec::new();
    let n = v.len();
    let mut i: usize = 0;
    while i < n
        invariant
            n == v@.len(),
            i <= n,
            r.deep_view() =~= v.deep_view().take(i as int),
        decreases n - i,
    {
        let e = &v[i];
        r.push(
            TocEntry { label: e.label.clone(), href: e.href.clone(), id: clone_opt_string(&e.id) },
        );
        proof {
            assert(v.deep_view().take(i + 1) =~= v.deep_view().take(i as int).push(
                v.deep_view()[i as int],
            ));
            assert(r.deep_view() =~= v.deep_view().take(i + 1));
        }
        i += 1;
    }
    proof {
        assert(v.deep_view().take(n as int) =~= v.deep_view());
    }
    r
}

/// Copies a manifest.
fn clone_manifest_items(v: &Vec<ManifestItem>) -> (r: Vec<ManifestItem>)
    ensures
        r.deep_view() == v.deep_view(),
{
    let mut r: Vec<ManifestItem> = Vec::new();
    let n = v.len();
    let mut i: usize = 0;
    while i < n
        invariant
            n == v@.len(),
            i <= n,
            r.deep_view() =~= v.deep_view().take(i as int),
        decreases n - i,
    {
        let it = &v[i];
        r.push(
            ManifestItem {
                id: it.id.clone(),
                href: it.href.clone(),
                media_type: it.media_type.clone(),
                properties: clone_opt_string(&it.properties),
            },
        );
        proof {
            assert(v.deep_view().take(i + 1) =~= v.deep_view().take(i as int).push(
                v.deep_view()[i as int],
            ));
            assert(r.deep_view() =~= v.deep_view().take(i + 1));
        }
        i += 1;
    }
    proof {
        assert(v.deep_view().take(n as int) =~= v.deep_view());
    }
    r
}

} // verus!
