//! The guarantees of the rewrite, stated over `inject_rel`: what one run
//! establishes, that a second run changes nothing essential, and that every
//! sibling other than the marker is carried over unchanged.

use vstd::prelude::*;
use crate::attrs::{attr_get, attr_set, lemma_attr_get_set_other, lemma_attr_get_set_same};
use crate::inject::{fresh_marker_node, inject_rel, moved_update_shape, updated_element};
use crate::tree::{
    has_target, is_enabled_target, is_first_target, is_target_node, lemma_marker_keys_distinct,
    lemma_target_count_push, lemma_target_count_remove, lemma_target_count_zero, marker_name,
    name_key, target_count, true_text, value_key, XmlNode,
};

verus! {

/// A freshly created marker element is a marker child with value `true`.
pub proof fn lemma_fresh_marker_enabled(n: XmlNode)
    requires
        fresh_marker_node(n),
    ensures
        is_enabled_target(n),
{
    lemma_marker_keys_distinct();
    let m = n->Element_0.attributes@;
    assert(m[0] == (value_key(), true_text()));
    assert(attr_get(m, value_key()) == Some(true_text()));
    assert(m.drop_first() =~= seq![(name_key(), marker_name())]);
    assert(attr_get(m.drop_first(), name_key()) == Some(marker_name()));
}

/// An updated marker element is still a marker child, now with value `true`.
pub proof fn lemma_updated_marker_enabled(before: XmlNode, after: XmlNode)
    requires
        is_target_node(before),
        before is Element,
        after is Element,
        updated_element(before->Element_0, after->Element_0),
    ensures
        is_enabled_target(after),
{
    lemma_marker_keys_distinct();
    let m = before->Element_0.attributes@;
    lemma_attr_get_set_same(m, value_key(), true_text());
    lemma_attr_get_set_other(m, value_key(), true_text(), name_key());
}

/// Law: one run on a root with at most one marker child leaves exactly one
/// direct child carrying the marker name, it is the last child, and its
/// `value` attribute reads `true`.
pub proof fn lemma_run_establishes_marker(oc: Seq<XmlNode>, nc: Seq<XmlNode>)
    requires
        target_count(oc) <= 1,
        inject_rel(oc, nc),
    ensures
        target_count(nc) == 1,
        nc.len() > 0,
        is_enabled_target(nc.last()),
{
    if has_target(oc) {
        let i = choose|i: int| is_first_target(oc, i) && moved_update_shape(oc, nc, i);
        lemma_target_count_zero(oc);
        assert(target_count(oc) == 1) by {
            if target_count(oc) == 0 {
                assert(!is_target_node(oc[i]));
            }
        }
        lemma_target_count_remove(oc, i);
        lemma_updated_marker_enabled(oc[i], nc.last());
        assert(nc =~= oc.remove(i).push(nc.last()));
        lemma_target_count_push(oc.remove(i), nc.last());
    } else {
        lemma_target_count_zero(oc);
        assert forall|j: int| 0 <= j < oc.len() implies !is_target_node(#[trigger] oc[j]) by {}
        lemma_fresh_marker_enabled(nc.last());
        assert(nc =~= oc.push(nc.last()));
        lemma_target_count_push(oc, nc.last());
    }
}

/// Law: the rewrite is idempotent. After the first run the root has exactly
/// one marker child set to `true`; a second run does not duplicate it and
/// leaves exactly one such child again.
pub proof fn lemma_inject_idempotent(c0: Seq<XmlNode>, c1: Seq<XmlNode>, c2: Seq<XmlNode>)
    requires
        target_count(c0) <= 1,
        inject_rel(c0, c1),
        inject_rel(c1, c2),
    ensures
        target_count(c1) == 1,
        is_enabled_target(c1.last()),
        target_count(c2) == 1,
        is_enabled_target(c2.last()),
{
    lemma_run_establishes_marker(c0, c1);
    lemma_run_establishes_marker(c1, c2);
}

/// Law: when no marker child exists, one run appends exactly one new child —
/// a `boolean` element with `value="true"` and `name="vonr_enabled_bool"` —
/// and leaves every existing child in place.
pub proof fn lemma_injection_when_absent(oc: Seq<XmlNode>, nc: Seq<XmlNode>)
    requires
        !has_target(oc),
        inject_rel(oc, nc),
    ensures
        nc.len() == oc.len() + 1,
        forall|j: int| 0 <= j < oc.len() ==> nc[j] == oc[j],
        fresh_marker_node(nc.last()),
        is_enabled_target(nc.last()),
{
    lemma_fresh_marker_enabled(nc.last());
    assert forall|j: int| 0 <= j < oc.len() implies nc[j] == oc[j] by {
        assert(nc[j] == nc.drop_last()[j]);
    }
}

/// Law: when a marker child exists, one run sets its `value` attribute to
/// `true` and makes it the last direct child, keeping its tag and children;
/// no child is added or dropped.
pub proof fn lemma_update_when_present(oc: Seq<XmlNode>, nc: Seq<XmlNode>, i: int)
    requires
        is_first_target(oc, i),
        inject_rel(oc, nc),
    ensures
        nc.len() == oc.len(),
        is_enabled_target(nc.last()),
        nc.last() is Element,
        nc.last()->Element_0.name == oc[i]->Element_0.name,
        nc.last()->Element_0.children == oc[i]->Element_0.children,
        forall|j: int| 0 <= j < i ==> nc[j] == oc[j],
        forall|j: int| i < j < oc.len() ==> nc[j - 1] == oc[j],
{
    assert(has_target(oc));
    let w = choose|w: int| is_first_target(oc, w) && moved_update_shape(oc, nc, w);
    crate::tree::lemma_first_target_unique(oc, i, w);
    lemma_updated_marker_enabled(oc[i], nc.last());
    assert forall|j: int| 0 <= j < i implies nc[j] == oc[j] by {
        assert(nc[j] == nc.drop_last()[j]);
        assert(oc.remove(i)[j] == oc[j]);
    }
    assert forall|j: int| i < j < oc.len() implies nc[j - 1] == oc[j] by {
        assert(nc[j - 1] == nc.drop_last()[j - 1]);
        assert(oc.remove(i)[j - 1] == oc[j]);
    }
}

/// Law: every direct child other than the (first) marker is carried over
/// unchanged — only its position relative to the moved or appended marker can
/// differ.
pub proof fn lemma_siblings_preserved(oc: Seq<XmlNode>, nc: Seq<XmlNode>)
    requires
        inject_rel(oc, nc),
    ensures
        !has_target(oc) ==> forall|j: int| 0 <= j < oc.len() ==> nc[j] == oc[j],
        forall|i: int| #[trigger] is_first_target(oc, i) ==> (forall|j: int| 0 <= j < i ==> nc[j] == oc[j])
            && (forall|j: int| i < j < oc.len() ==> nc[j - 1] == oc[j]),
{
    if has_target(oc) {
        assert forall|i: int| #[trigger] is_first_target(oc, i) implies (forall|j: int|
            0 <= j < i ==> nc[j] == oc[j]) && (forall|j: int|
            i < j < oc.len() ==> nc[j - 1] == oc[j]) by {
            lemma_update_when_present(oc, nc, i);
        }
    } else {
        assert forall|j: int| 0 <= j < oc.len() implies nc[j] == oc[j] by {
            assert(nc[j] == nc.drop_last()[j]);
        }
    }
}

} // verus!
