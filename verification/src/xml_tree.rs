//! XML documents as plain trees, read with the `roxmltree` crate: each node
//! keeps the local name of its element (empty for text and comments), the
//! text `roxmltree` reports for it, and its children in order.

use vstd::prelude::*;
use crate::text::{chars_of, chars_eq};

verus! {

/// A node of a parsed XML document.
#[derive(Debug)]
pub struct XmlNode {
    /// The element's local name; empty for text, comments and the like.
    pub tag: String,
    /// What `roxmltree::Node::text` reports: an element's leading text
    /// child, or the text of a text or comment node.
    pub text: Option<String>,
    pub children: Vec<XmlNode>,
}

#[verifier::external_type_specification]
#[verifier::external_body]
pub struct ExRoxmlNode<'a, 'input: 'a>(roxmltree::Node<'a, 'input>);

/// The root element of the document `roxmltree::Document::parse` reads from
/// `xml`, as a plain tree, or `None` where it refuses the text.
pub uninterp spec fn xml_document(xml: Seq<char>) -> Option<XmlNode>;

/// Copies a `roxmltree` node and its descendants into plain values: the
/// local part of `Node::tag_name`, `Node::text` and `Node::children`.
/// Nothing is stated of it; the contract of `parse_xml_document` covers the
/// whole copy.
#[verifier::external_body]
fn xml_node_of(n: roxmltree::Node) -> XmlNode {
    XmlNode {
        tag: n.tag_name().name().to_string(),
        text: n.text().map(|t| t.to_string()),
        children: n.children().map(xml_node_of).collect(),
    }
}

/// `roxmltree::Document::parse(xml)`, giving its root element as a plain
/// tree. Trusted: the result is the crate's reading of the text, named
/// `xml_document`; it depends on the text alone.
#[verifier::external_body]
pub(crate) fn parse_xml_document(xml: &str) -> (r: Option<XmlNode>)
    ensures
        r == xml_document(xml@),
{
    roxmltree::Document::parse(xml).ok().map(|d| xml_node_of(d.root_element()))
}

/// The root element of the document in `xml`, or `None` where it is not
/// XML.
pub fn document_root(xml: &str) -> (r: Option<XmlNode>)
    ensures
        r == xml_document(xml@),
{
    parse_xml_document(xml)
}

/// The index of the first node among `cs` whose tag is `tag`.
pub open spec fn first_child(cs: Seq<XmlNode>, tag: Seq<char>) -> Option<int>
    decreases cs.len(),
{
    if cs.len() == 0 {
        None
    } else {
        match first_child(cs.drop_last(), tag) {
            Some(i) => Some(i),
            None => if cs.last().tag@ == tag {
                Some(cs.len() - 1)
            } else {
                None
            },
        }
    }
}

/// The first child of `n` whose tag is `tag`.
pub open spec fn child(n: XmlNode, tag: Seq<char>) -> Option<XmlNode> {
    match first_child(n.children@, tag) {
        Some(i) => Some(n.children@[i]),
        None => None,
    }
}

/// The text of `n`, or `default` where it has none.
pub open spec fn text_or(n: XmlNode, default: Seq<char>) -> Seq<char> {
    match n.text {
        Some(t) => t@,
        None => default,
    }
}

/// The index of the first child with a tag lies in range and names a child with that tag.
pub proof fn lemma_first_child_bounds(cs: Seq<XmlNode>, tag: Seq<char>)
    ensures
        first_child(cs, tag) matches Some(i) ==> 0 <= i < cs.len() && cs[i].tag@ == tag,
    decreases cs.len(),
{
    if cs.len() > 0 {
        lemma_first_child_bounds(cs.drop_last(), tag);
    }
}

/// Whether `n`'s tag is `tag`.
pub fn has_tag(n: &XmlNode, tag: &str) -> (b: bool)
    ensures
        b == (n.tag@ == tag@),
{
    let a = chars_of(n.tag.as_str());
    let b = chars_of(tag);
    chars_eq(&a, &b)
}

/// The index of the first child of `n` whose tag is `tag`.
pub fn find_child(n: &XmlNode, tag: &str) -> (r: Option<usize>)
    ensures
        match r {
            Some(i) => first_child(n.children@, tag@) == Some(i as int) && i < n.children@.len(),
            None => first_child(n.children@, tag@) is None,
        },
{
    let mut found: Option<usize> = None;
    let mut i: usize = 0;
    while i < n.children.len()
        invariant
            i <= n.children.len(),
            match found {
                Some(k) => first_child(n.children@.take(i as int), tag@) == Some(k as int) && k < i,
                None => first_child(n.children@.take(i as int), tag@) is None,
            },
        decreases n.children.len() - i,
    {
        let ghost t = n.children@.take(i as int);
        let ghost t1 = n.children@.take(i + 1);
        assert(t1.drop_last() =~= t);
        if found.is_none() && has_tag(&n.children[i], tag) {
            found = Some(i);
        }
        i = i + 1;
    }
    assert(n.children@.take(n.children.len() as int) =~= n.children@);
    found
}

/// The text of `n`, or `default` where it has none.
pub fn text_or_exec(n: &XmlNode, default: &str) -> (r: Vec<char>)
    ensures
        r@ == text_or(*n, default@),
{
    match &n.text {
        Some(t) => chars_of(t.as_str()),
        None => chars_of(default),
    }
}

} // verus!
