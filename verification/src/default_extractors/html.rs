//! HTML files.

use crate::error::ErrorKind;
use crate::extract::Extract;
use crate::extract::ExtractionError;
use crate::segmentation::section_texts;
use crate::text::same_text;
use core::str::from_utf8;
use vstd::prelude::*;
use vstd::string::StringExecFns;
use vstd::utf8::decode_utf8;
use vstd::utf8::valid_utf8;

verus! {

/// The rule for HTML: the text of an element that holds text directly is one
/// section, with the texts below it joined by spaces.
pub struct Html;

/// A node of an HTML document.
#[derive(Debug)]
pub enum HtmlNode {
    Text(String),
    Element { name: String, children: Vec<HtmlNode> },
    Comment(String),
}

/// `html_parser::Error`, taken as it comes: only its text is read.
#[verifier::external_type_specification]
#[verifier::external_body]
pub struct ExHtmlError(html_parser::Error);

/// `html_parser::Node`, handed on to be copied.
#[verifier::external_type_specification]
#[verifier::external_body]
pub struct ExHtmlNode(html_parser::Node);

/// Whether `infer` takes a buffer for HTML by its first bytes.
pub uninterp spec fn html_signature(buf: Seq<u8>) -> bool;

/// `infer::text::is_html` looks at the bytes alone.
pub assume_specification[ infer::text::is_html ](buf: &[u8]) -> (found: bool)
    ensures
        found == html_signature(buf@),
;

/// The top-level nodes that `html_parser` reads from a text, where it reads the
/// text at all.
pub uninterp spec fn html_nodes(text: Seq<char>) -> Option<Seq<HtmlNode>>;

/// Tells the variants of `html_parser::Node` apart and moves what they hold.
#[verifier::external_body]
fn html_node(node: html_parser::Node) -> HtmlNode {
    match node {
        html_parser::Node::Text(text) => HtmlNode::Text(text),
        html_parser::Node::Element(element) => HtmlNode::Element {
            name: element.name,
            children: element.children.into_iter().map(html_node).collect(),
        },
        html_parser::Node::Comment(text) => HtmlNode::Comment(text),
    }
}

/// Calls `html_parser::Dom::parse` and hands out the children of the document.
/// Trusted: the nodes that it reads depend on the text alone. Nothing is said of a
/// refusal: the parser also refuses where it is short of stack.
#[verifier::external_body]
fn parse_html(text: &str) -> (result: Result<Vec<HtmlNode>, html_parser::Error>)
    ensures
        result matches Ok(nodes) ==> html_nodes(text@) == Some(nodes@),
{
    let dom = html_parser::Dom::parse(text)?;
    Ok(dom.children.into_iter().map(html_node).collect())
}

/// Texts put together with a separator between each two.
pub open spec fn joined(texts: Seq<Seq<char>>, separator: Seq<char>) -> Seq<char>
    decreases texts.len(),
{
    if texts.len() == 0 {
        Seq::empty()
    } else if texts.len() == 1 {
        texts[0]
    } else {
        joined(texts.drop_last(), separator) + separator + texts.last()
    }
}

/// Whether one of the given nodes is a text.
pub open spec fn has_text_among(nodes: Seq<HtmlNode>) -> bool {
    exists|i: int| 0 <= i < nodes.len() && #[trigger] nodes[i] is Text
}

/// The sections of text in a node: a text is itself, a comment has none, and an
/// element has those of its children, joined into one by spaces where one of the
/// children is a text.
pub open spec fn html_texts(node: HtmlNode) -> Seq<Seq<char>>
    decreases node, 0nat,
{
    match node {
        HtmlNode::Text(text) => seq![text@],
        HtmlNode::Element { name, children } => {
            let inner = texts_of_nodes(children@, children@.len());
            if has_text_among(children@) {
                seq![joined(inner, " "@)]
            } else {
                inner
            }
        },
        HtmlNode::Comment(_) => Seq::empty(),
    }
}

/// The sections of text in the first `count` of some nodes, node after node.
pub open spec fn texts_of_nodes(nodes: Seq<HtmlNode>, count: nat) -> Seq<Seq<char>>
    decreases nodes, count,
{
    if count == 0 || count > nodes.len() {
        Seq::empty()
    } else {
        texts_of_nodes(nodes, (count - 1) as nat) + html_texts(nodes[count - 1])
    }
}

/// Puts texts together with a separator between each two.
pub fn join(texts: &Vec<String>, separator: &str) -> (text: String)
    ensures
        text@ == joined(section_texts(texts@), separator@),
{
    let mut text = String::new();
    let mut i: usize = 0;
    assert(section_texts(texts@).take(0) =~= Seq::<Seq<char>>::empty());
    while i < texts.len()
        invariant
            i <= texts.len(),
            text@ == joined(section_texts(texts@).take(i as int), separator@),
        decreases texts.len() - i,
    {
        proof {
            let next = section_texts(texts@).take(i + 1);
            assert(next.drop_last() =~= section_texts(texts@).take(i as int));
            assert(next.last() == texts[i as int]@);
        }
        let ghost before = text@;
        if i > 0 {
            text.append(separator);
        }
        text.append(texts[i].as_str());
        assert(i == 0 ==> text@ =~= texts[i as int]@);
        i += 1;
    }
    assert(section_texts(texts@).take(texts.len() as int) =~= section_texts(texts@));
    text
}

/// The sections of text in a node.
pub fn extract_text_from_node(node: &HtmlNode) -> (texts: Vec<String>)
    ensures
        section_texts(texts@) == html_texts(*node),
    decreases node,
{
    match node {
        HtmlNode::Text(text) => {
            let texts = vec![text.clone()];
            assert(section_texts(texts@) =~= seq![text@]);
            texts
        },
        HtmlNode::Element { name, children } => {
            let mut inner: Vec<String> = Vec::new();
            let mut any_text = false;
            let mut i: usize = 0;
            assert(section_texts(inner@) =~= Seq::<Seq<char>>::empty());
            while i < children.len()
                invariant
                    i <= children.len(),
                    *node == (HtmlNode::Element { name: *name, children: *children }),
                    section_texts(inner@) == texts_of_nodes(children@, i as nat),
                    any_text == has_text_among(children@.take(i as int)),
                decreases children.len() - i,
            {
                proof {
                    assert(decreases_to!(node => node->children));
                    assert(decreases_to!(node->children => (node->children)[i as int]));
                    let seen = children@.take(i as int);
                    let more = children@.take(i + 1);
                    assert(more[i as int] == children[i as int]);
                    assert(forall|k: int| 0 <= k < i ==> seen[k] == #[trigger] more[k]);
                    if has_text_among(seen) {
                        let k = choose|k: int| 0 <= k < seen.len() && #[trigger] seen[k] is Text;
                        assert(more[k] is Text);
                    }
                    if has_text_among(more) {
                        let k = choose|k: int| 0 <= k < more.len() && #[trigger] more[k] is Text;
                        if k < i {
                            assert(seen[k] is Text);
                        }
                    }
                }
                match &children[i] {
                    HtmlNode::Text(_) => {
                        any_text = true;
                    },
                    _ => {},
                }
                let mut part = extract_text_from_node(&children[i]);
                let ghost before = inner@;
                let ghost added = part@;
                inner.append(&mut part);
                assert(section_texts(inner@) =~= section_texts(before) + section_texts(added));
                i += 1;
            }
            assert(children@.take(children.len() as int) =~= children@);
            if any_text {
                let texts = vec![join(&inner, " ")];
                assert(section_texts(texts@) =~= seq![joined(section_texts(inner@), " "@)]);
                texts
            } else {
                inner
            }
        },
        HtmlNode::Comment(_) => {
            let texts: Vec<String> = Vec::new();
            assert(section_texts(texts@) =~= Seq::<Seq<char>>::empty());
            texts
        },
    }
}

/// The sections of text in the nodes of a document, node after node.
pub fn extract_html_sections(nodes: &Vec<HtmlNode>) -> (sections: Vec<String>)
    ensures
        section_texts(sections@) == texts_of_nodes(nodes@, nodes@.len()),
{
    let mut sections: Vec<String> = Vec::new();
    let mut i: usize = 0;
    assert(section_texts(sections@) =~= Seq::<Seq<char>>::empty());
    while i < nodes.len()
        invariant
            i <= nodes.len(),
            section_texts(sections@) == texts_of_nodes(nodes@, i as nat),
        decreases nodes.len() - i,
    {
        let mut part = extract_text_from_node(&nodes[i]);
        let ghost before = sections@;
        let ghost added = part@;
        sections.append(&mut part);
        assert(section_texts(sections@) =~= section_texts(before) + section_texts(added));
        i += 1;
    }
    sections
}

impl Extract for Html {
    open spec fn accepts(&self, buf: Seq<u8>, extension: Option<Seq<char>>) -> bool {
        extension == Some("html"@) || extension == Some("htmlx"@) || html_signature(buf)
    }

    /// A file that is not UTF-8 is refused for its encoding. Any other is either read,
    /// and then gives the sections of its nodes, or refused as markup: the parser
    /// gives up where it is short of stack, so a text that it reads at one time it
    /// may refuse at another.
    open spec fn yields(&self, buf: Seq<u8>, outcome: Result<Seq<Seq<char>>, ErrorKind>) -> bool {
        match outcome {
            Ok(sections) => valid_utf8(buf) && match html_nodes(decode_utf8(buf)) {
                Some(nodes) => sections == texts_of_nodes(nodes, nodes.len()),
                None => false,
            },
            Err(kind) => kind == if valid_utf8(buf) {
                ErrorKind::MalformedMarkup
            } else {
                ErrorKind::InvalidEncoding
            },
        }
    }

    fn can_extract(&self, buf: &[u8], extension: Option<&str>) -> (accepted: bool) {
        let by_extension = match extension {
            Some(x) => same_text(x, "html") || same_text(x, "htmlx"),
            None => false,
        };
        by_extension || infer::text::is_html(buf)
    }

    fn extract(&self, buf: &[u8]) -> (result: Result<Vec<String>, ExtractionError>) {
        let text = match from_utf8(buf) {
            Ok(text) => text,
            Err(error) => {
                return Err(
                    ExtractionError { kind: ErrorKind::InvalidEncoding, message: error.to_string() },
                );
            },
        };
        match parse_html(text) {
            Ok(nodes) => Ok(extract_html_sections(&nodes)),
            Err(error) => Err(
                ExtractionError { kind: ErrorKind::MalformedMarkup, message: error.to_string() },
            ),
        }
    }
}

} // verus!
