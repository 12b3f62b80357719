use vstd::prelude::*;

verus! {

/// An element of a parsed markup document as the nav parser sees it: the
/// lowercased tag name, the attributes (keyed by their local names), the
/// concatenation of all descendant text, and the element children in
/// document order.
pub struct HtmlNode {
    pub name: String,
    pub attrs: Vec<(String, String)>,
    pub text_all: String,
    pub children: Vec<HtmlNode>,
}

#[verifier::external_type_specification]
#[verifier::external_body]
pub struct ExElementRef<'a>(scraper::ElementRef<'a>);

/// The element tree that `parse_html` hands back for a given input. The
/// markup parser is error-recovering and always yields a tree, and its
/// result depends on the input characters alone.
pub uninterp spec fn html_doc(text: Seq<char>) -> HtmlNode;

/// Conversion step of `parse_html`; relies on scraper's `ElementRef`
/// accessors: `value().name()` is the lowercased tag name, `value().attrs()`
/// yields the attributes (local name and value) in a deterministic order,
/// `text()` yields the descendant text in document order, and
/// `child_elements()` yields the element children in document order.
#[verifier::external_body]
fn html_from_element(e: scraper::ElementRef<'_>) -> HtmlNode {
    HtmlNode {
        name: e.value().name().to_string(),
        attrs: e.value().attrs().map(|(k, v)| (k.to_string(), v.to_string())).collect(),
        text_all: e.text().collect::<String>(),
        children: e.child_elements().map(html_from_element).collect(),
    }
}

/// Relies on `scraper::Html::parse_document`: an error-recovering HTML
/// parser that always yields a document tree, deterministically in the input
/// alone; `root_element()` is the document's root element.
#[verifier::external_body]
pub fn parse_html(text: &str) -> (r: HtmlNode)
    ensures
        r == html_doc(text@),
{
    let document = scraper::Html::parse_document(text);
    html_from_element(document.root_element())
}

} // verus!
