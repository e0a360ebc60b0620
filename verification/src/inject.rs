//! The rewrite itself: find the first direct child carrying the marker name,
//! set its `value` attribute to `"true"` and move it to the end of the child
//! sequence; when no such child exists, append a fresh `boolean` element.

use vstd::prelude::*;
use crate::attrs::{attr_set, lemma_attr_set_unique};
use crate::tree::{
    boolean_tag, has_target, is_first_target, is_target_node, lemma_marker_keys_distinct,
    marker_name, name_key, node_wf, true_text, value_key, XmlElement, XmlNode,
};

verus! {

/// The rewritten element keeps the tag and children it had before; only its
/// `value` attribute is set to `"true"`.
pub open spec fn updated_element(before: XmlElement, after: XmlElement) -> bool {
    &&& after.name == before.name
    &&& after.children == before.children
    &&& after.attributes@ == attr_set(before.attributes@, value_key(), true_text())
}

/// A freshly created marker: tag `boolean`, no children, and exactly the
/// attributes `value="true"` then `name="vonr_enabled_bool"`.
pub open spec fn fresh_marker_node(n: XmlNode) -> bool {
    &&& n is Element
    &&& n->Element_0.name@ == boolean_tag()
    &&& n->Element_0.children@ == Seq::<XmlNode>::empty()
    &&& n->Element_0.attributes@ == seq![
        (value_key(), true_text()),
        (name_key(), marker_name()),
    ]
}

/// The new child sequence after a found marker at position `i` was taken out,
/// updated, and re-appended at the end.
pub open spec fn moved_update_shape(oc: Seq<XmlNode>, nc: Seq<XmlNode>, i: int) -> bool {
    &&& nc.len() == oc.len()
    &&& oc.len() > 0
    &&& nc.drop_last() == oc.remove(i)
    &&& oc[i] is Element
    &&& nc.last() is Element
    &&& updated_element(oc[i]->Element_0, nc.last()->Element_0)
}

/// How the rewrite relates a root's child sequence before and after: update
/// and move the first marker child when one exists, otherwise append a fresh
/// one.
pub open spec fn inject_rel(oc: Seq<XmlNode>, nc: Seq<XmlNode>) -> bool {
    if has_target(oc) {
        exists|i: int| is_first_target(oc, i) && moved_update_shape(oc, nc, i)
    } else {
        &&& nc.len() == oc.len() + 1
        &&& nc.drop_last() == oc
        &&& fresh_marker_node(nc.last())
    }
}

/// Position of the first direct child that is an element whose `name`
/// attribute equals the marker name.
pub fn find_target_index(children: &Vec<XmlNode>) -> (r: Option<usize>)
    ensures
        match r {
            Some(i) => is_first_target(children@, i as int),
            None => !has_target(children@),
        },
{
    let target = "vonr_enabled_bool".to_owned();
    let mut i: usize = 0;
    while i < children.len()
        invariant
            i <= children@.len(),
            target@ == marker_name(),
            forall|j: int| 0 <= j < i ==> !is_target_node(#[trigger] children@[j]),
        decreases children@.len() - i,
    {
        match &children[i] {
            XmlNode::Element(e) => {
                if let Some(v) = e.attributes.get_value("name") {
                    if v == target {
                        return Some(i);
                    }
                }
            }
            _ => {}
        }
        i += 1;
    }
    None
}

/// Ensure the root carries the marker: the first marker child is updated to
/// `value="true"` and moved to the end, or a fresh `boolean` marker child is
/// appended when none exists. The root's own tag and attributes are untouched.
pub fn inject(root: &mut XmlElement)
    requires
        old(root).wf(),
    ensures
        final(root).wf(),
        final(root).name == old(root).name,
        final(root).attributes == old(root).attributes,
        inject_rel(old(root).children@, final(root).children@),
{
    let ghost oc = old(root).children@;
    match find_target_index(&root.children) {
        Some(i) => {
            let node = root.children.remove(i);
            if let XmlNode::Element(mut el) = node {
                proof {
                    assert(node_wf(oc[i as int]));
                }
                el.attributes.insert("value", "true");
                root.children.push(XmlNode::Element(el));
                proof {
                    let nc = root.children@;
                    assert(nc.drop_last() =~= oc.remove(i as int));
                    assert(moved_update_shape(oc, nc, i as int));
                    lemma_attr_set_unique(oc[i as int]->Element_0.attributes@, value_key(), true_text());
                    assert forall|k: int| 0 <= k < nc.len() implies node_wf(#[trigger] nc[k]) by {
                        if k < nc.len() - 1 {
                            if k < i {
                                assert(nc[k] == oc[k]);
                            } else {
                                assert(nc[k] == oc[k + 1]);
                            }
                        }
                    }
                }
            } else {
                proof {
                    assert(false);
                }
            }
        }
        None => {
            let mut marker = XmlElement {
                name: "boolean".to_owned(),
                attributes: crate::attrs::AttrMap::new(),
                children: Vec::new(),
            };
            marker.attributes.insert("value", "true");
            marker.attributes.insert("name", "vonr_enabled_bool");
            root.children.push(XmlNode::Element(marker));
            proof {
                let nc = root.children@;
                lemma_marker_keys_distinct();
                let m0 = Seq::<(Seq<char>, Seq<char>)>::empty();
                let m1 = attr_set(m0, value_key(), true_text());
                assert(m1 =~= seq![(value_key(), true_text())]);
                let m2 = attr_set(m1, name_key(), marker_name());
                assert(m1.drop_first() =~= m0);
                assert(attr_set(m0, name_key(), marker_name()) =~= seq![(name_key(), marker_name())]);
                assert(m2 =~= seq![m1[0]] + attr_set(m1.drop_first(), name_key(), marker_name()));
                assert(marker.attributes@ =~= seq![
                    (value_key(), true_text()),
                    (name_key(), marker_name()),
                ]);
                assert(nc.drop_last() =~= oc);
                assert forall|k: int| 0 <= k < nc.len() implies node_wf(#[trigger] nc[k]) by {
                    if k < nc.len() - 1 {
                        assert(nc[k] == oc[k]);
                    }
                }
            }
        }
    }
}

} // verus!
