//! XML documents as a list of nodes, and the text below a node.
//!
//! A parsed document is the list of its nodes in document order, each with its
//! level in the tree: the root has level 1, its children level 2, and so on. The
//! nodes below a node are those that follow it up to the next node whose level is
//! not greater than its own.

use crate::segmentation::section_texts;
use crate::text::same_text;
use vstd::prelude::*;

verus! {

/// What a node of an XML document is.
#[derive(Clone, Copy, Debug, PartialEq, Eq, Structural)]
pub enum XmlNodeKind {
    Root,
    Element,
    ProcessingInstruction,
    Comment,
    Text,
}

/// An attribute of an element.
#[derive(Clone, Debug, PartialEq, Eq)]
pub struct XmlAttribute {
    /// The URI of the attribute's namespace, if it has one.
    pub namespace: Option<String>,
    /// The name, without its prefix.
    pub name: String,
    pub value: String,
}

/// A node of an XML document.
#[derive(Clone, Debug, PartialEq, Eq)]
pub struct XmlNode {
    pub kind: XmlNodeKind,
    /// The number of nodes on the way from the root to this node, both included.
    pub level: usize,
    /// The tag name of an element, without its prefix. Empty for other nodes.
    pub name: String,
    /// The text of a text node or a comment, and for an element the text of its first
    /// child, where that is a text node.
    pub text: Option<String>,
    /// The attributes of an element, in the order of the document.
    pub attributes: Vec<XmlAttribute>,
}

/// `roxmltree::Error`, taken as it comes: only its text is read.
#[verifier::external_type_specification]
#[verifier::external_body]
pub struct ExXmlError(roxmltree::Error);

/// `roxmltree::NodeType`, handed on to be told apart.
#[verifier::external_type_specification]
#[verifier::external_body]
pub struct ExXmlNodeType(roxmltree::NodeType);

/// `roxmltree::Attribute`, handed on to be copied.
#[verifier::external_type_specification]
#[verifier::external_body]
pub struct ExXmlAttribute<'input>(roxmltree::Attribute<'input>);

/// The nodes of the document that `roxmltree` parses a text into, in document
/// order; none where it rejects the text.
pub uninterp spec fn xml_nodes(text: Seq<char>) -> Option<Seq<XmlNode>>;

/// Tells the variants of `roxmltree::NodeType` apart.
#[verifier::external_body]
fn xml_node_kind(node_type: roxmltree::NodeType) -> XmlNodeKind {
    match node_type {
        roxmltree::NodeType::Root => XmlNodeKind::Root,
        roxmltree::NodeType::Element => XmlNodeKind::Element,
        roxmltree::NodeType::PI => XmlNodeKind::ProcessingInstruction,
        roxmltree::NodeType::Comment => XmlNodeKind::Comment,
        roxmltree::NodeType::Text => XmlNodeKind::Text,
    }
}

/// Copies what `roxmltree::Attribute::namespace`, `name` and `value` return.
#[verifier::external_body]
fn xml_attribute(attribute: &roxmltree::Attribute) -> XmlAttribute {
    XmlAttribute {
        namespace: attribute.namespace().map(String::from),
        name: attribute.name().to_string(),
        value: attribute.value().to_string(),
    }
}

/// Calls `roxmltree::Document::parse` and copies each node of `descendants()` with
/// what its `node_type`, `ancestors().count()`, `tag_name().name()`, `text` and
/// `attributes` return. Trusted: the nodes depend on the text alone.
#[verifier::external_body]
pub(crate) fn parse_xml(text: &str) -> (result: Result<Vec<XmlNode>, roxmltree::Error>)
    ensures
        match result {
            Ok(nodes) => xml_nodes(text@) == Some(nodes@),
            Err(_) => xml_nodes(text@) is None,
        },
{
    let document = roxmltree::Document::parse(text)?;
    let nodes = document.descendants().map(|node| XmlNode {
        kind: xml_node_kind(node.node_type()),
        level: node.ancestors().count(),
        name: node.tag_name().name().to_string(),
        text: node.text().map(String::from),
        attributes: node.attributes().iter().map(xml_attribute).collect(),
    });
    Ok(nodes.collect())
}

/// Whether a node is an element with the given tag name, whatever its namespace.
pub open spec fn is_element_named(node: XmlNode, name: Seq<char>) -> bool {
    node.kind == XmlNodeKind::Element && node.name@ == name
}

/// Whether a node is a text node that holds a text.
pub open spec fn holds_text(node: XmlNode) -> bool {
    node.kind == XmlNodeKind::Text && node.text is Some
}

/// The text that a node gives: see `XmlNode::text`.
pub open spec fn text_of(node: XmlNode) -> Option<Seq<char>> {
    match node.text {
        Some(text) => Some(text@),
        None => None,
    }
}

/// Whether an attribute has no namespace and the given name.
pub open spec fn is_plain_attribute(attribute: XmlAttribute, name: Seq<char>) -> bool {
    attribute.namespace is None && attribute.name@ == name
}

/// The value of the first attribute of a node that has no namespace and the
/// given name.
pub open spec fn attribute_value(node: XmlNode, name: Seq<char>) -> Option<Seq<char>> {
    if exists|i: int| is_first_plain_attribute(node, name, i) {
        Some(node.attributes[choose|i: int| is_first_plain_attribute(node, name, i)].value@)
    } else {
        None
    }
}

/// Whether `i` is the place of the first attribute of a node that has no namespace
/// and the given name.
pub open spec fn is_first_plain_attribute(node: XmlNode, name: Seq<char>, i: int) -> bool {
    &&& 0 <= i < node.attributes.len()
    &&& is_plain_attribute(node.attributes[i], name)
    &&& forall|j: int| 0 <= j < i ==> !is_plain_attribute(#[trigger] node.attributes[j], name)
}

/// The first place from `from` on whose node has a level of at most `level`; the
/// end of the list where there is none.
pub open spec fn level_run_end(nodes: Seq<XmlNode>, level: usize, from: int) -> int
    decreases nodes.len() - from,
{
    if from < 0 || from >= nodes.len() || nodes[from].level <= level {
        from
    } else {
        level_run_end(nodes, level, from + 1)
    }
}

/// The place after the last node below the node at `i`.
pub open spec fn subtree_end(nodes: Seq<XmlNode>, i: int) -> int {
    level_run_end(nodes, nodes[i].level, i + 1)
}

/// The node at `i` and the nodes below it, in document order. Empty where the
/// list has no node at `i`.
pub open spec fn subtree(nodes: Seq<XmlNode>, i: int) -> Seq<XmlNode> {
    if 0 <= i < nodes.len() {
        nodes.subrange(i, subtree_end(nodes, i))
    } else {
        Seq::empty()
    }
}

/// The texts of the text nodes among some nodes, in order.
pub open spec fn texts_of_text_nodes(nodes: Seq<XmlNode>) -> Seq<Seq<char>> {
    nodes.filter(|node: XmlNode| holds_text(node)).map_values(|node: XmlNode| node.text->0@)
}

/// The texts of the text nodes at and below the node at `i`.
pub open spec fn texts_under(nodes: Seq<XmlNode>, i: int) -> Seq<Seq<char>> {
    texts_of_text_nodes(subtree(nodes, i))
}

/// One more node at the end of a list of nodes adds its text if it is a text node
/// that holds one.
pub proof fn lemma_texts_of_text_nodes_push(nodes: Seq<XmlNode>, node: XmlNode)
    ensures
        texts_of_text_nodes(nodes.push(node)) == if holds_text(node) {
            texts_of_text_nodes(nodes).push(node.text->0@)
        } else {
            texts_of_text_nodes(nodes)
        },
{
    nodes.lemma_filter_push(node, |node: XmlNode| holds_text(node));
    assert(texts_of_text_nodes(nodes.push(node)) =~= if holds_text(node) {
        texts_of_text_nodes(nodes).push(node.text->0@)
    } else {
        texts_of_text_nodes(nodes)
    });
}

/// Whether a node is an element with the given tag name.
pub fn has_tag_name(node: &XmlNode, name: &str) -> (found: bool)
    ensures
        found == is_element_named(*node, name@),
{
    match node.kind {
        XmlNodeKind::Element => same_text(node.name.as_str(), name),
        _ => false,
    }
}

/// The value of the first attribute of a node that has no namespace and the given name.
pub fn attribute<'a>(node: &'a XmlNode, name: &str) -> (value: Option<&'a str>)
    ensures
        match value {
            Some(value) => attribute_value(*node, name@) == Some(value@),
            None => attribute_value(*node, name@) is None,
        },
{
    let mut i: usize = 0;
    while i < node.attributes.len()
        invariant
            i <= node.attributes.len(),
            forall|j: int| 0 <= j < i ==> !is_plain_attribute(#[trigger] node.attributes[j], name@),
        decreases node.attributes.len() - i,
    {
        let candidate = &node.attributes[i];
        if candidate.namespace.is_none() && same_text(candidate.name.as_str(), name) {
            assert(is_first_plain_attribute(*node, name@, i as int));
            return Some(candidate.value.as_str());
        }
        i += 1;
    }
    None
}

/// The place after the last node below the node at `i`.
pub fn find_subtree_end(nodes: &Vec<XmlNode>, i: usize) -> (end: usize)
    requires
        i < nodes.len(),
    ensures
        end == subtree_end(nodes@, i as int),
        i < end <= nodes.len(),
{
    let level = nodes[i].level;
    let mut end: usize = i + 1;
    while end < nodes.len() && nodes[end].level > level
        invariant
            i < end <= nodes.len(),
            level_run_end(nodes@, level, end as int) == level_run_end(nodes@, level, i + 1),
        decreases nodes.len() - end,
    {
        end += 1;
    }
    end
}

/// The texts of the text nodes at and below the node at `i`, in document order.
pub fn extract_text_from_node(nodes: &Vec<XmlNode>, i: usize) -> (texts: Vec<String>)
    ensures
        section_texts(texts@) == texts_under(nodes@, i as int),
{
    let mut texts: Vec<String> = Vec::new();
    if i >= nodes.len() {
        assert(section_texts(texts@) =~= texts_under(nodes@, i as int));
        return texts;
    }
    let end = find_subtree_end(nodes, i);
    let mut k: usize = i;
    assert(nodes@.subrange(i as int, i as int) =~= Seq::<XmlNode>::empty());
    assert(section_texts(texts@) =~= texts_of_text_nodes(Seq::<XmlNode>::empty()));
    while k < end
        invariant
            i <= k <= end <= nodes.len(),
            section_texts(texts@) == texts_of_text_nodes(nodes@.subrange(i as int, k as int)),
        decreases end - k,
    {
        let node = &nodes[k];
        proof {
            lemma_texts_of_text_nodes_push(nodes@.subrange(i as int, k as int), *node);
            assert(nodes@.subrange(i as int, k as int).push(*node) =~= nodes@.subrange(
                i as int,
                k + 1,
            ));
        }
        match node.kind {
            XmlNodeKind::Text => match &node.text {
                Some(text) => {
                    let ghost before = texts@;
                    texts.push(text.clone());
                    assert(section_texts(texts@) =~= section_texts(before).push(text@));
                },
                None => {},
            },
            _ => {},
        }
        k += 1;
    }
    texts
}

/// The texts of the text nodes at and below each of the nodes at `roots`, one root
/// after the other.
pub open spec fn texts_under_all(nodes: Seq<XmlNode>, roots: Seq<usize>) -> Seq<Seq<char>> {
    roots.map_values(|root: usize| texts_under(nodes, root as int)).flatten()
}

/// The texts of the text nodes at and below each of the given nodes.
pub fn extract_text_from_nodes(nodes: &Vec<XmlNode>, roots: &Vec<usize>) -> (texts: Vec<String>)
    ensures
        section_texts(texts@) == texts_under_all(nodes@, roots@),
{
    let ghost per_root = |root: usize| texts_under(nodes@, root as int);
    let mut texts: Vec<String> = Vec::new();
    let mut r: usize = 0;
    assert(section_texts(texts@) =~= roots@.take(0).map_values(per_root).flatten());
    while r < roots.len()
        invariant
            r <= roots.len(),
            per_root == |root: usize| texts_under(nodes@, root as int),
            section_texts(texts@) == roots@.take(r as int).map_values(per_root).flatten(),
        decreases roots.len() - r,
    {
        let mut part = extract_text_from_node(nodes, roots[r]);
        proof {
            let done = roots@.take(r as int);
            assert(done.push(roots[r as int]) =~= roots@.take(r + 1));
            assert(done.push(roots[r as int]).map_values(per_root) =~= done.map_values(
                per_root,
            ).push(section_texts(part@)));
            done.map_values(per_root).lemma_flatten_push(section_texts(part@));
        }
        let ghost before = texts@;
        let ghost added = part@;
        texts.append(&mut part);
        assert(section_texts(texts@) =~= section_texts(before) + section_texts(added));
        r += 1;
    }
    assert(roots@.take(roots.len() as int) =~= roots@);
    texts
}

} // verus!
