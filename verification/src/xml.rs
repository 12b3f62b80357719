use vstd::prelude::*;
use crate::strutil::str_eq;

verus! {

/// An XML element as the package parsers see it: the tag name with any
/// namespace prefix dropped, the attributes in document order, the text of
/// the first text child (if the first child is one), and the element
/// children in document order.
///
/// Non-element nodes (comments, processing instructions, standalone text)
/// are not represented; the parsers in this crate never look at them except
/// through the `text` field.
pub struct XmlNode {
    pub name: String,
    pub attrs: Vec<(String, String)>,
    pub text: Option<String>,
    pub children: Vec<XmlNode>,
}

/// The value of the first attribute named `key`, searched front to back.
pub open spec fn attr_in(attrs: Seq<(String, String)>, key: Seq<char>) -> Option<Seq<char>>
    decreases attrs.len(),
{
    if attrs.len() == 0 {
        None
    } else if attrs[0].0@ == key {
        Some(attrs[0].1@)
    } else {
        attr_in(attrs.drop_first(), key)
    }
}

/// The first node of `s` whose name is `name`.
pub open spec fn find_named(s: Seq<XmlNode>, name: Seq<char>) -> Option<XmlNode>
    decreases s.len(),
{
    if s.len() == 0 {
        None
    } else if s[0].name@ == name {
        Some(s[0])
    } else {
        find_named(s.drop_first(), name)
    }
}

/// The first node named `name` in a pre-order walk of the tree rooted at `n`,
/// the root itself included.
pub open spec fn find_in_tree(n: XmlNode, name: Seq<char>) -> Option<XmlNode>
    decreases n,
{
    if n.name@ == name {
        Some(n)
    } else {
        find_in_forest(n.children@, name)
    }
}

/// The first node named `name` in a pre-order walk of a forest.
pub open spec fn find_in_forest(s: Seq<XmlNode>, name: Seq<char>) -> Option<XmlNode>
    decreases s,
{
    if s.len() == 0 {
        None
    } else {
        match find_in_tree(s[0], name) {
            Some(m) => Some(m),
            None => find_in_forest(s.drop_first(), name),
        }
    }
}

/// The value of the first attribute named `key` in an attribute list.
pub fn attr_lookup<'a>(attrs: &'a Vec<(String, String)>, key: &str) -> (r: Option<&'a String>)
    ensures
        r matches Some(v) ==> attr_in(attrs@, key@) == Some(v@),
        r is None ==> attr_in(attrs@, key@) is None,
{
    let n = attrs.len();
    let mut i: usize = 0;
    proof {
        assert(attrs@.skip(0) =~= attrs@);
    }
    while i < n
        invariant
            n == attrs@.len(),
            i <= n,
            attr_in(attrs@, key@) == attr_in(attrs@.skip(i as int), key@),
        decreases n - i,
    {
        proof {
            assert(attrs@.skip(i as int)[0] == attrs@[i as int]);
            assert(attrs@.skip(i as int).drop_first() =~= attrs@.skip(i as int + 1));
        }
        if str_eq(attrs[i].0.as_str(), key) {
            return Some(&attrs[i].1);
        }
        i += 1;
    }
    proof {
        assert(attrs@.skip(n as int) =~= Seq::<(String, String)>::empty());
    }
    None
}

impl XmlNode {
    /// The value of the first attribute named `key`.
    pub fn attr(&self, key: &str) -> (r: Option<&String>)
        ensures
            r matches Some(v) ==> attr_in(self.attrs@, key@) == Some(v@),
            r is None ==> attr_in(self.attrs@, key@) is None,
    {
        attr_lookup(&self.attrs, key)
    }

    /// The first direct child element named `name`.
    pub fn child_named(&self, name: &str) -> (r: Option<&XmlNode>)
        ensures
            r matches Some(c) ==> find_named(self.children@, name@) == Some(*c),
            r is None ==> find_named(self.children@, name@) is None,
    {
        let n = self.children.len();
        let mut i: usize = 0;
        proof {
            assert(self.children@.skip(0) =~= self.children@);
        }
        while i < n
            invariant
                n == self.children@.len(),
                i <= n,
                find_named(self.children@, name@) == find_named(
                    self.children@.skip(i as int),
                    name@,
                ),
            decreases n - i,
        {
            proof {
                assert(self.children@.skip(i as int)[0] == self.children@[i as int]);
                assert(self.children@.skip(i as int).drop_first() =~= self.children@.skip(
                    i as int + 1,
                ));
            }
            if str_eq(self.children[i].name.as_str(), name) {
                return Some(&self.children[i]);
            }
            i += 1;
        }
        proof {
            assert(self.children@.skip(n as int) =~= Seq::<XmlNode>::empty());
        }
        None
    }

    /// The first node named `name` in a pre-order walk of this tree, the
    /// node itself included.
    pub fn find_element(&self, name: &str) -> (r: Option<&XmlNode>)
        ensures
            r matches Some(m) ==> find_in_tree(*self, name@) == Some(*m),
            r is None ==> find_in_tree(*self, name@) is None,
        decreases *self,
    {
        if str_eq(self.name.as_str(), name) {
            return Some(self);
        }
        let n = self.children.len();
        let mut i: usize = 0;
        proof {
            assert(self.children@.skip(0) =~= self.children@);
        }
        while i < n
            invariant
                n == self.children@.len(),
                i <= n,
                self.name@ != name@,
                find_in_forest(self.children@, name@) == find_in_forest(
                    self.children@.skip(i as int),
                    name@,
                ),
            decreases n - i,
        {
            proof {
                assert(self.children@.skip(i as int)[0] == self.children@[i as int]);
                assert(self.children@.skip(i as int).drop_first() =~= self.children@.skip(
                    i as int + 1,
                ));
            }
            let r = self.children[i].find_element(name);
            match r {
                Some(m) => {
                    return Some(m);
                },
                None => {},
            }
            i += 1;
        }
        proof {
            assert(self.children@.skip(n as int) =~= Seq::<XmlNode>::empty());
        }
        None
    }
}

#[verifier::external_type_specification]
#[verifier::external_body]
pub struct ExRoXmlNode<'a, 'input: 'a>(roxmltree::Node<'a, 'input>);

/// The element tree that `parse_xml` hands back for a given input, `None`
/// when the input is not well-formed XML. The result depends on the input
/// characters alone.
pub uninterp spec fn xml_doc(text: Seq<char>) -> Option<XmlNode>;

/// Conversion step of `parse_xml`; relies on roxmltree's `Node` accessors:
/// `tag_name().name()` is the tag name without its namespace prefix,
/// `attributes()` yields the attributes in document order, `text()` is an
/// element's text when its first child is a text node (and absent
/// otherwise), and `children()` yields all child nodes in document order,
/// of which the elements are kept.
#[verifier::external_body]
fn xml_from_node(n: roxmltree::Node<'_, '_>) -> XmlNode {
    XmlNode {
        name: n.tag_name().name().to_string(),
        attrs: n.attributes().map(|a| (a.name().to_string(), a.value().to_string())).collect(),
        text: n.text().map(str::to_string),
        children: n.children().filter(|c| c.is_element()).map(xml_from_node).collect(),
    }
}

/// Relies on `roxmltree::Document::parse`: it builds the document tree of a
/// well-formed XML text and rejects a malformed one, deterministically in the
/// input alone; `root_element()` is the document's root element.
#[verifier::external_body]
pub fn parse_xml(text: &str) -> (r: Option<XmlNode>)
    ensures
        r == xml_doc(text@),
{
    match roxmltree::Document::parse(text) {
        Ok(doc) => Some(xml_from_node(doc.root_element())),
        Err(_) => None,
    }
}

} // verus!
