use vstd::prelude::*;
use crate::html::HtmlNode;
use crate::navigation::{TocEntry, TocEntryV};
use crate::paths::{build_full_path, join_root_spec, resolve_relative_path, resolve_spec};
use crate::strutil::{str_eq, trim_spec, trim_str};
use crate::xml::{XmlNode, attr_in, attr_lookup, find_named};

verus! {

/// Zero or one entries, as a sequence.
pub open spec fn opt_entry_seq(e: Option<TocEntryV>) -> Seq<TocEntryV> {
    match e {
        Some(x) => seq![x],
        None => Seq::empty(),
    }
}

/// The entry a navPoint yields: the trimmed text of its navLabel's text
/// child as the label, the content element's `src` resolved against the NCX
/// document's directory and re-rooted as the target. A navPoint without a
/// content src, or with an empty label or src, yields nothing.
pub open spec fn navpoint_entry(n: XmlNode, dir: Seq<char>, root: Seq<char>) -> Option<TocEntryV> {
    let label = match find_named(n.children@, "navLabel"@) {
        None => Seq::<char>::empty(),
        Some(nl) => match find_named(nl.children@, "text"@) {
            None => Seq::<char>::empty(),
            Some(t) => match t.text {
                None => Seq::<char>::empty(),
                Some(s) => trim_spec(s@),
            },
        },
    };
    match find_named(n.children@, "content"@) {
        None => None,
        Some(c) => match attr_in(c.attrs@, "src"@) {
            None => None,
            Some(src) => if label.len() > 0 && src.len() > 0 {
                Some(
                    TocEntryV {
                        label,
                        href: join_root_spec(root, resolve_spec(dir, src)),
                        id: attr_in(n.attrs@, "id"@),
                    },
                )
            } else {
                None
            },
        },
    }
}

/// The entries of the navPoints under `n`, in document order; the walk
/// continues into the children of every navPoint whether or not that
/// navPoint itself yielded an entry.
pub open spec fn navpoints_under(n: XmlNode, dir: Seq<char>, root: Seq<char>) -> Seq<TocEntryV>
    decreases n,
{
    navpoints_forest(n.children@, dir, root)
}

/// The entries of the navPoints of a forest, in document order.
pub open spec fn navpoints_forest(s: Seq<XmlNode>, dir: Seq<char>, root: Seq<char>) -> Seq<
    TocEntryV,
>
    decreases s,
{
    if s.len() == 0 {
        Seq::empty()
    } else {
        navpoints_forest(s.drop_last(), dir, root) + (if s.last().name@ == "navPoint"@ {
            opt_entry_seq(navpoint_entry(s.last(), dir, root)) + navpoints_under(
                s.last(),
                dir,
                root,
            )
        } else {
            Seq::empty()
        })
    }
}

/// The entry one navPoint yields, if any.
fn navpoint_entry_exec(n: &XmlNode, dir: &str, root: &str) -> (r: Option<TocEntry>)
    ensures
        r matches Some(e) ==> navpoint_entry(*n, dir@, root@) == Some(e.deep_view()),
        r is None ==> navpoint_entry(*n, dir@, root@) is None,
{
    let label: String = match n.child_named("navLabel") {
        Some(nl) => match nl.child_named("text") {
            Some(t) => match &t.text {
                Some(s) => trim_str(s.as_str()),
                None => String::new(),
            },
            None => String::new(),
        },
        None => String::new(),
    };
    match n.child_named("content") {
        None => None,
        Some(c) => match c.attr("src") {
            None => None,
            Some(src) => {
                if label.as_str().unicode_len() > 0 && src.as_str().unicode_len() > 0 {
                    let resolved = resolve_relative_path(dir, src.as_str());
                    let href = build_full_path(root, resolved.as_str());
                    let id = match n.attr("id") {
                        Some(s) => Some(s.clone()),
                        None => None,
                    };
                    Some(TocEntry { label, href, id })
                } else {
                    None
                }
            },
        },
    }
}

/// Walks the navPoints under `n` and appends their entries in document
/// order.
pub fn collect_navpoints(n: &XmlNode, dir: &str, root: &str, out: &mut Vec<TocEntry>)
    ensures
        final(out).deep_view() == old(out).deep_view() + navpoints_under(*n, dir@, root@),
    decreases *n,
{
    let m = n.children.len();
    let mut i: usize = 0;
    proof {
        assert(n.children@.take(0) =~= Seq::<XmlNode>::empty());
        assert(out.deep_view() + navpoints_forest(n.children@.take(0), dir@, root@)
            =~= out.deep_view());
    }
    while i < m
        invariant
            m == n.children@.len(),
            i <= m,
            out.deep_view() == old(out).deep_view() + navpoints_forest(
                n.children@.take(i as int),
                dir@,
                root@,
            ),
        decreases m - i,
    {
        proof {
            assert(n.children@.take(i + 1).drop_last() =~= n.children@.take(i as int));
            assert(n.children@.take(i + 1).last() == n.children@[i as int]);
        }
        let child = &n.children[i];
        if str_eq(child.name.as_str(), "navPoint") {
            match navpoint_entry_exec(child, dir, root) {
                Some(e) => {
                    let ghost od = out.deep_view();
                    let ghost ev = e.deep_view();
                    out.push(e);
                    proof {
                        assert(out.deep_view() =~= od.push(ev));
                        assert(od.push(ev) =~= od + opt_entry_seq(
                            navpoint_entry(n.children@[i as int], dir@, root@),
                        ));
                    }
                },
                None => {},
            }
            collect_navpoints(child, dir, root, out);
        }
        proof {
            assert(out.deep_view() =~= old(out).deep_view() + navpoints_forest(
                n.children@.take(i + 1),
                dir@,
                root@,
            ));
        }
        i += 1;
    }
    proof {
        assert(n.children@.take(m as int) =~= n.children@);
    }
}

/// Whether a nav element's type attribute marks it as a table of contents;
/// the attribute is accepted with or without its namespace prefix.
pub open spec fn nav_is_toc(n: HtmlNode) -> bool {
    attr_in(n.attrs@, "epub:type"@) == Some("toc"@) || attr_in(n.attrs@, "type"@) == Some("toc"@)
}

/// The entry an anchor yields: its trimmed descendant text as the label and
/// its `href` resolved against the nav document's directory and re-rooted as
/// the target. An anchor with an empty label or href yields nothing.
pub open spec fn nav_anchor_entry(n: HtmlNode, dir: Seq<char>, root: Seq<char>) -> Option<
    TocEntryV,
> {
    match attr_in(n.attrs@, "href"@) {
        None => None,
        Some(href) => {
            let label = trim_spec(n.text_all@);
            if label.len() > 0 && href.len() > 0 {
                Some(
                    TocEntryV {
                        label,
                        href: join_root_spec(root, resolve_spec(dir, href)),
                        id: attr_in(n.attrs@, "id"@),
                    },
                )
            } else {
                None
            }
        },
    }
}

/// The entries of the anchors inside a `li` inside an `ol` inside a nav
/// element marked as the table of contents, in document order. The three
/// flags say which of those ancestors the walk has already passed.
pub open spec fn nav_entries_tree(
    n: HtmlNode,
    in_nav: bool,
    in_ol: bool,
    in_li: bool,
    dir: Seq<char>,
    root: Seq<char>,
) -> Seq<TocEntryV>
    decreases n,
{
    (if in_li && n.name@ == "a"@ {
        opt_entry_seq(nav_anchor_entry(n, dir, root))
    } else {
        Seq::empty()
    }) + nav_entries_forest(
        n.children@,
        in_nav || (n.name@ == "nav"@ && nav_is_toc(n)),
        in_ol || (in_nav && n.name@ == "ol"@),
        in_li || (in_ol && n.name@ == "li"@),
        dir,
        root,
    )
}

/// The anchor entries of a forest, in document order.
pub open spec fn nav_entries_forest(
    s: Seq<HtmlNode>,
    in_nav: bool,
    in_ol: bool,
    in_li: bool,
    dir: Seq<char>,
    root: Seq<char>,
) -> Seq<TocEntryV>
    decreases s,
{
    if s.len() == 0 {
        Seq::empty()
    } else {
        nav_entries_forest(s.drop_last(), in_nav, in_ol, in_li, dir, root) + nav_entries_tree(
            s.last(),
            in_nav,
            in_ol,
            in_li,
            dir,
            root,
        )
    }
}

/// Whether this element is a nav marked as the table of contents.
fn nav_is_toc_exec(n: &HtmlNode) -> (r: bool)
    ensures
        r == nav_is_toc(*n),
{
    let a = match attr_lookup(&n.attrs, "epub:type") {
        Some(v) => str_eq(v.as_str(), "toc"),
        None => false,
    };
    let b = match attr_lookup(&n.attrs, "type") {
        Some(v) => str_eq(v.as_str(), "toc"),
        None => false,
    };
    a || b
}

/// The entry one anchor yields, if any.
fn nav_anchor_entry_exec(n: &HtmlNode, dir: &str, root: &str) -> (r: Option<TocEntry>)
    ensures
        r matches Some(e) ==> nav_anchor_entry(*n, dir@, root@) == Some(e.deep_view()),
        r is None ==> nav_anchor_entry(*n, dir@, root@) is None,
{
    match attr_lookup(&n.attrs, "href") {
        None => None,
        Some(href) => {
            let label = trim_str(n.text_all.as_str());
            if label.as_str().unicode_len() > 0 && href.as_str().unicode_len() > 0 {
                let resolved = resolve_relative_path(dir, href.as_str());
                let full = build_full_path(root, resolved.as_str());
                let id = match attr_lookup(&n.attrs, "id") {
                    Some(s) => Some(s.clone()),
                    None => None,
                };
                Some(TocEntry { label, href: full, id })
            } else {
                None
            }
        },
    }
}

/// Walks the tree under `n` and appends the table-of-contents anchors in
/// document order.
pub fn collect_nav_entries(
    n: &HtmlNode,
    in_nav: bool,
    in_ol: bool,
    in_li: bool,
    dir: &str,
    root: &str,
    out: &mut Vec<TocEntry>,
)
    ensures
        final(out).deep_view() == old(out).deep_view() + nav_entries_tree(
            *n,
            in_nav,
            in_ol,
            in_li,
            dir@,
            root@,
        ),
    decreases *n,
{
    let ghost own = if in_li && n.name@ == "a"@ {
        opt_entry_seq(nav_anchor_entry(*n, dir@, root@))
    } else {
        Seq::<TocEntryV>::empty()
    };
    if in_li && str_eq(n.name.as_str(), "a") {
        match nav_anchor_entry_exec(n, dir, root) {
            Some(e) => {
                let ghost od = out.deep_view();
                let ghost ev = e.deep_view();
                out.push(e);
                proof {
                    assert(out.deep_view() =~= od.push(ev));
                    assert(od.push(ev) =~= od + own);
                }
            },
            None => {},
        }
    }
    proof {
        assert(out.deep_view() =~= old(out).deep_view() + own);
    }
    let c_nav = in_nav || (str_eq(n.name.as_str(), "nav") && nav_is_toc_exec(n));
    let c_ol = in_ol || (in_nav && str_eq(n.name.as_str(), "ol"));
    let c_li = in_li || (in_ol && str_eq(n.name.as_str(), "li"));
    let m = n.children.len();
    let mut i: usize = 0;
    proof {
        assert(n.children@.take(0) =~= Seq::<HtmlNode>::empty());
    }
    while i < m
        invariant
            m == n.children@.len(),
            i <= m,
            c_nav == (in_nav || (n.name@ == "nav"@ && nav_is_toc(*n))),
            c_ol == (in_ol || (in_nav && n.name@ == "ol"@)),
            c_li == (in_li || (in_ol && n.name@ == "li"@)),
            out.deep_view() == old(out).deep_view() + own + nav_entries_forest(
                n.children@.take(i as int),
                c_nav,
                c_ol,
                c_li,
                dir@,
                root@,
            ),
        decreases m - i,
    {
        proof {
            assert(n.children@.take(i + 1).drop_last() =~= n.children@.take(i as int));
            assert(n.children@.take(i + 1).last() == n.children@[i as int]);
        }
        let child = &n.children[i];
        collect_nav_entries(child, c_nav, c_ol, c_li, dir, root, out);
        proof {
            assert(out.deep_view() =~= old(out).deep_view() + own + nav_entries_forest(
                n.children@.take(i + 1),
                c_nav,
                c_ol,
                c_li,
                dir@,
                root@,
            ));
        }
        i += 1;
    }
    proof {
        assert(n.children@.take(m as int) =~= n.children@);
    }
}

} // verus!
