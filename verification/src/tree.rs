//! The document model: an ordered tree of element nodes, with the other node
//! kinds (text, comments, CDATA, processing instructions) carried through
//! opaquely. Only an element's direct children are ever inspected.

use vstd::prelude::*;
use crate::attrs::{attr_get, keys_unique, AttrMap};

verus! {

/// One node of a document tree.
#[derive(Debug, PartialEq, Eq)]
pub enum XmlNode {
    Element(XmlElement),
    Comment(String),
    CData(String),
    Text(String),
    ProcessingInstruction(String, Option<String>),
}

/// An element: a tag name, attributes, and an ordered child sequence.
#[derive(Debug, PartialEq, Eq)]
pub struct XmlElement {
    pub name: String,
    pub attributes: AttrMap,
    pub children: Vec<XmlNode>,
}

/// The attribute name whose presence this tool establishes.
pub open spec fn marker_name() -> Seq<char> {
    "vonr_enabled_bool"@
}

/// The attribute that names a configuration entry.
pub open spec fn name_key() -> Seq<char> {
    "name"@
}

/// The attribute that carries a configuration entry's value.
pub open spec fn value_key() -> Seq<char> {
    "value"@
}

/// The value the marker is set to.
pub open spec fn true_text() -> Seq<char> {
    "true"@
}

/// The tag given to a freshly created marker element.
pub open spec fn boolean_tag() -> Seq<char> {
    "boolean"@
}

/// The two attribute names the rewrite touches are distinct.
pub proof fn lemma_marker_keys_distinct()
    ensures
        name_key() != value_key(),
{
    reveal_strlit("name");
    reveal_strlit("value");
    assert("name"@.len() == 4);
    assert("value"@.len() == 5);
}

/// The node is an element whose `name` attribute is the marker name.
pub open spec fn is_target_node(n: XmlNode) -> bool {
    &&& n is Element
    &&& attr_get(n->Element_0.attributes@, name_key()) == Some(marker_name())
}

/// A target node whose `value` attribute reads `true`.
pub open spec fn is_enabled_target(n: XmlNode) -> bool {
    &&& is_target_node(n)
    &&& attr_get(n->Element_0.attributes@, value_key()) == Some(true_text())
}

/// An element node's own attribute names are unique.
pub open spec fn node_wf(n: XmlNode) -> bool {
    n is Element ==> keys_unique(n->Element_0.attributes@)
}

impl XmlElement {
    /// Well-formedness at the depth this tool works on: the element's own
    /// attribute names are unique, and so are those of each direct child.
    pub open spec fn wf(&self) -> bool {
        &&& keys_unique(self.attributes@)
        &&& forall|i: int| 0 <= i < self.children@.len() ==> node_wf(#[trigger] self.children@[i])
    }
}

/// How many direct children are target nodes.
pub open spec fn target_count(c: Seq<XmlNode>) -> nat
    decreases c.len(),
{
    if c.len() == 0 {
        0
    } else {
        target_count(c.drop_last()) + (if is_target_node(c.last()) { 1nat } else { 0nat })
    }
}

/// Some direct child is a target node.
pub open spec fn has_target(c: Seq<XmlNode>) -> bool {
    exists|i: int| 0 <= i < c.len() && is_target_node(c[i])
}

/// `i` is the position of the first target node.
pub open spec fn is_first_target(c: Seq<XmlNode>, i: int) -> bool {
    &&& 0 <= i < c.len()
    &&& is_target_node(c[i])
    &&& forall|j: int| 0 <= j < i ==> !is_target_node(c[j])
}

pub proof fn lemma_first_target_unique(c: Seq<XmlNode>, i: int, j: int)
    requires
        is_first_target(c, i),
        is_first_target(c, j),
    ensures
        i == j,
{
}

/// The count is zero exactly when no child is a target.
pub proof fn lemma_target_count_zero(c: Seq<XmlNode>)
    ensures
        (target_count(c) == 0) <==> (forall|j: int| 0 <= j < c.len() ==> !is_target_node(#[trigger] c[j])),
    decreases c.len(),
{
    if c.len() > 0 {
        lemma_target_count_zero(c.drop_last());
        assert forall|j: int| 0 <= j < c.drop_last().len() implies c.drop_last()[j] == c[j] by {}
        if target_count(c) == 0 {
            assert forall|j: int| 0 <= j < c.len() implies !is_target_node(#[trigger] c[j]) by {
                if j < c.len() - 1 {
                    assert(c[j] == c.drop_last()[j]);
                } else {
                    assert(c[j] == c.last());
                }
            }
        }
    }
}

/// Appending a child adds one to the count exactly when it is a target.
pub proof fn lemma_target_count_push(c: Seq<XmlNode>, n: XmlNode)
    ensures
        target_count(c.push(n)) == target_count(c) + (if is_target_node(n) { 1nat } else { 0nat }),
{
    assert(c.push(n).drop_last() =~= c);
    assert(c.push(n).last() == n);
}

/// Removing a child takes one off the count exactly when it is a target.
pub proof fn lemma_target_count_remove(c: Seq<XmlNode>, i: int)
    requires
        0 <= i < c.len(),
    ensures
        target_count(c) == target_count(c.remove(i))
            + (if is_target_node(c[i]) { 1nat } else { 0nat }),
    decreases c.len(),
{
    if i == c.len() - 1 {
        assert(c.remove(i) =~= c.drop_last());
    } else {
        let d = c.drop_last();
        lemma_target_count_remove(d, i);
        assert(c.remove(i).drop_last() =~= d.remove(i));
        assert(c.remove(i).last() == c.last());
    }
}

} // verus!
