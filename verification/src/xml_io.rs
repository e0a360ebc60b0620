//! The trusted boundary to the `xmltree` crate: parsing text into the
//! library's tree, and serializing the tree back to text. The rewrite between
//! those two steps is `inject`, which is verified; `rewrite_document` strings
//! the three together for one document.

use vstd::prelude::*;
use crate::attrs::AttrMap;
use crate::inject::{inject, inject_rel};
use crate::tree::{XmlElement, XmlNode};

verus! {

/// Why rewriting one document failed.
#[derive(Debug, PartialEq, Eq)]
pub enum RewriteError {
    /// The text is not well-formed XML; the message is the parser's.
    Parse(String),
    /// The rewritten tree could not be serialized; the message is the writer's.
    Serialize(String),
}

/// Whether `xmltree::Element::parse` accepts the text: a fact of the text
/// alone.
pub uninterp spec fn xml_parses(text: Seq<char>) -> bool;

#[verifier::external_type_specification]
#[verifier::external_body]
pub struct ExElement(xmltree::Element);

#[verifier::external_type_specification]
#[verifier::external_body]
pub struct ExXmlNode(xmltree::XMLNode);

/// Relies on `xmltree`'s tree shape: every field of an element is carried
/// over one for one; attribute entries come out of a map, so their names are
/// unique (insertion through `AttrMap::insert` keeps them so).
#[verifier::external_body]
fn element_from_foreign(e: xmltree::Element) -> XmlElement {
    let mut attributes = AttrMap::new();
    for (k, v) in &e.attributes {
        attributes.insert(k, v);
    }
    let mut children: Vec<XmlNode> = Vec::new();
    for c in e.children {
        children.push(node_from_foreign(c));
    }
    XmlElement { name: e.name, attributes, children }
}

/// Relies on `xmltree::XMLNode`: one arm per node kind, fields moved over.
#[verifier::external_body]
fn node_from_foreign(n: xmltree::XMLNode) -> XmlNode {
    match n {
        xmltree::XMLNode::Element(e) => XmlNode::Element(element_from_foreign(e)),
        xmltree::XMLNode::Comment(s) => XmlNode::Comment(s),
        xmltree::XMLNode::CData(s) => XmlNode::CData(s),
        xmltree::XMLNode::Text(s) => XmlNode::Text(s),
        xmltree::XMLNode::ProcessingInstruction(a, b) => XmlNode::ProcessingInstruction(a, b),
    }
}

/// Relies on `xmltree::Element::new` and the element fields: the library's
/// tree is carried back one for one.
#[verifier::external_body]
fn element_to_foreign(e: &XmlElement) -> xmltree::Element {
    let mut out = xmltree::Element::new(&e.name);
    for p in e.attributes.entries() {
        out.attributes.insert(p.0.clone(), p.1.clone());
    }
    for c in &e.children {
        out.children.push(node_to_foreign(c));
    }
    out
}

/// Relies on `xmltree::XMLNode`: one arm per node kind, fields moved over.
#[verifier::external_body]
fn node_to_foreign(n: &XmlNode) -> xmltree::XMLNode {
    match n {
        XmlNode::Element(e) => xmltree::XMLNode::Element(element_to_foreign(e)),
        XmlNode::Comment(s) => xmltree::XMLNode::Comment(s.clone()),
        XmlNode::CData(s) => xmltree::XMLNode::CData(s.clone()),
        XmlNode::Text(s) => xmltree::XMLNode::Text(s.clone()),
        XmlNode::ProcessingInstruction(a, b) => {
            xmltree::XMLNode::ProcessingInstruction(a.clone(), b.clone())
        }
    }
}

/// Relies on `xmltree::Element::parse`: it returns `Ok` exactly on well-formed
/// XML, a fact of the text alone; a parsed element's attributes come out of a
/// map, so every element of the result has unique attribute names. The reader
/// underneath reports an error on input with no root element, so the `Ok`
/// branch always carries one.
#[verifier::external_body]
fn parse_root(text: &str) -> (r: Result<XmlElement, String>)
    ensures
        r is Ok <==> xml_parses(text@),
        r matches Ok(root) ==> root.wf(),
{
    match xmltree::Element::parse(text.as_bytes()) {
        Ok(e) => Ok(element_from_foreign(e)),
        Err(e) => Err(e.to_string()),
    }
}

/// Relies on `xmltree::Element::write_with_config` with the document
/// declaration turned off and indentation on: on success the output is the
/// root element's own markup, which begins with `<` and is never empty.
#[verifier::external_body]
fn serialize_root(root: &XmlElement) -> (r: Result<String, String>)
    ensures
        r matches Ok(s) ==> s@.len() > 0 && s@[0] == '<',
{
    let config = xmltree::EmitterConfig::new()
        .write_document_declaration(false)
        .perform_indent(true);
    let mut buf: Vec<u8> = Vec::new();
    if let Err(e) = element_to_foreign(root).write_with_config(&mut buf, config) {
        return Err(e.to_string());
    }
    match String::from_utf8(buf) {
        Ok(s) => Ok(s),
        Err(e) => Err(e.to_string()),
    }
}

/// Rewrite one document's text: parse it, establish the marker child under
/// the root, and serialize the tree back. Returns a parse error exactly when
/// the text is not well-formed XML; on success the output is the serialized
/// rewritten tree, with no XML declaration in front of the root element.
pub fn rewrite_document(text: &str) -> (r: Result<String, RewriteError>)
    ensures
        (r is Err && r->Err_0 is Parse) <==> !xml_parses(text@),
        r matches Ok(out) ==> out@.len() > 0 && out@[0] == '<',
{
    let mut root = match parse_root(text) {
        Ok(root) => root,
        Err(msg) => {
            return Err(RewriteError::Parse(msg));
        }
    };
    inject(&mut root);
    match serialize_root(&root) {
        Ok(s) => Ok(s),
        Err(msg) => Err(RewriteError::Serialize(msg)),
    }
}

} // verus!
