use vstd::prelude::*;
use crate::errors::EpubError;
use crate::xml::{XmlNode, find_named};

verus! {

/// Descriptive fields of the package. Each is present or absent
/// independently; no invariant links them.
pub struct Metadata {
    pub title: Option<String>,
    pub creator: Option<String>,
    pub language: Option<String>,
    pub identifier: Option<String>,
    pub publisher: Option<String>,
    pub date: Option<String>,
}

/// The mathematical value of a `Metadata`.
pub struct MetadataV {
    pub title: Option<Seq<char>>,
    pub creator: Option<Seq<char>>,
    pub language: Option<Seq<char>>,
    pub identifier: Option<Seq<char>>,
    pub publisher: Option<Seq<char>>,
    pub date: Option<Seq<char>>,
}

impl View for Metadata {
    type V = MetadataV;

    open spec fn view(&self) -> MetadataV {
        MetadataV {
            title: self.title.deep_view(),
            creator: self.creator.deep_view(),
            language: self.language.deep_view(),
            identifier: self.identifier.deep_view(),
            publisher: self.publisher.deep_view(),
            date: self.date.deep_view(),
        }
    }
}

/// The text of the first child element of `n` named `name`, absent when
/// there is no such child or it holds no text.
pub open spec fn meta_text(n: XmlNode, name: Seq<char>) -> Option<Seq<char>> {
    match find_named(n.children@, name) {
        None => None,
        Some(c) => c.text.deep_view(),
    }
}

/// The metadata section's recognized fields, each the first-occurrence text
/// of its element.
pub open spec fn metadata_of(n: XmlNode) -> MetadataV {
    MetadataV {
        title: meta_text(n, "title"@),
        creator: meta_text(n, "creator"@),
        language: meta_text(n, "language"@),
        identifier: meta_text(n, "identifier"@),
        publisher: meta_text(n, "publisher"@),
        date: meta_text(n, "date"@),
    }
}

/// Clones an optional text field.
fn clone_opt_text(t: &Option<String>) -> (r: Option<String>)
    ensures
        r.deep_view() == t.deep_view(),
{
    match t {
        Some(s) => Some(s.clone()),
        None => None,
    }
}

impl Metadata {
    /// Extracts the first-occurrence text of each recognized element of the
    /// metadata section, namespace prefixes ignored; unrecognized elements
    /// are skipped and absent fields are not an error.
    pub fn parse(metadata_node: &XmlNode) -> (r: Result<Metadata, EpubError>)
        ensures
            r matches Ok(m) && m@ == metadata_of(*metadata_node),
    {
        let title = match metadata_node.child_named("title") {
            Some(c) => clone_opt_text(&c.text),
            None => None,
        };
        let creator = match metadata_node.child_named("creator") {
            Some(c) => clone_opt_text(&c.text),
            None => None,
        };
        let language = match metadata_node.child_named("language") {
            Some(c) => clone_opt_text(&c.text),
            None => None,
        };
        let identifier = match metadata_node.child_named("identifier") {
            Some(c) => clone_opt_text(&c.text),
            None => None,
        };
        let publisher = match metadata_node.child_named("publisher") {
            Some(c) => clone_opt_text(&c.text),
            None => None,
        };
        let date = match metadata_node.child_named("date") {
            Some(c) => clone_opt_text(&c.text),
            None => None,
        };
        Ok(Metadata { title, creator, language, identifier, publisher, date })
    }
}

} // verus!
