//! Laws that join normalisation and labels.
use crate::cst::{CstTree, first_of_type, first_where};
use crate::label::{
    attribute_label, element_label, has_leaf_text, is_opening_tag, label, names_attribute, names_tag,
    stray_end_label, structural_label, tag_label,
};
use crate::normal_form::{
    each_normalized, law_attribute_name_kept, lemma_children, lemma_first_name,
    lemma_name_children_members, lemma_text_of_first,
};
use crate::normalize::{is_boolean, lemma_types_differ, normalized, normalized_children};
use vstd::prelude::*;

verus! {

/// An attribute that was not taken apart into its name and value.
pub open spec fn is_attribute_leaf(node: CstTree) -> bool {
    node.node_type == "attribute"@ && node.is_leaf()
}

/// No attribute among `nodes` is a leaf.
pub open spec fn no_attribute_leaf(nodes: Seq<CstTree>) -> bool {
    forall|i: int| 0 <= i < nodes.len() ==> !is_attribute_leaf(#[trigger] nodes[i])
}

/// A node that is shaped as the grammar shapes it: attributes are taken apart, and an attribute
/// begins with its name.
pub open spec fn is_taken_apart(node: CstTree) -> bool {
    &&& !is_attribute_leaf(node)
    &&& no_attribute_leaf(node.children)
    &&& first_where(node.children, |c: CstTree| is_opening_tag(c)) matches Some(tag)
        ==> no_attribute_leaf(tag.children)
    &&& node.node_type == "attribute"@ ==> (first_where(
        node.children,
        |c: CstTree| names_attribute(c),
    ) matches Some(first) ==> first.node_type == "attribute_name"@)
}

/// A leaf stays a leaf, and nothing else becomes one.
proof fn lemma_leaf(node: CstTree)
    ensures
        normalized(node).is_leaf() == node.is_leaf(),
{
    let base = CstTree { children: normalized_children(node), ..node };
    if base.node_type == "attribute"@ && is_boolean(base) && !base.is_leaf() {
        lemma_first_name(base.children);
    }
}

/// Only the text of attribute leaves changes.
proof fn lemma_text(node: CstTree)
    requires
        !is_attribute_leaf(node),
    ensures
        normalized(node).text == node.text,
{
    lemma_leaf(node);
}

/// The first match moves along with a change of the nodes where the test does not tell the
/// difference.
proof fn lemma_first_where(
    nodes: Seq<CstTree>,
    change: spec_fn(CstTree) -> CstTree,
    p: spec_fn(CstTree) -> bool,
)
    requires
        forall|i: int| 0 <= i < nodes.len() ==> p(change(#[trigger] nodes[i])) == p(nodes[i]),
    ensures
        first_where(nodes.map_values(change), p) == (match first_where(nodes, p) {
            Some(n) => Some(change(n)),
            None => None,
        }),
        first_where(nodes, p) matches Some(n) ==> nodes.contains(n),
    decreases nodes.len(),
{
    if nodes.len() > 0 {
        assert(p(change(nodes[0])) == p(nodes[0]));
        let rest = nodes.drop_first();
        assert forall|i: int| 0 <= i < rest.len() implies p(change(#[trigger] rest[i])) == p(
            rest[i],
        ) by {
            assert(rest[i] == nodes[i + 1]);
        }
        lemma_first_where(rest, change, p);
        assert(nodes.map_values(change).drop_first() =~= rest.map_values(change));
        if !p(nodes[0]) {
            if let Some(n) = first_where(rest, p) {
                let j = choose|j: int| 0 <= j < rest.len() && rest[j] == n;
                assert(nodes[j + 1] == n);
            }
        }
    }
}

/// The tests that labels are found with do not tell a node from its normal form.
proof fn lemma_tests(node: CstTree)
    requires
        !is_attribute_leaf(node),
    ensures
        names_tag(normalized(node)) == names_tag(node),
        names_attribute(normalized(node)) == names_attribute(node),
        has_leaf_text(normalized(node)) == has_leaf_text(node),
        is_opening_tag(normalized(node)) == is_opening_tag(node),
        normalized(node).text_or_empty() == node.text_or_empty(),
{
    lemma_leaf(node);
    lemma_text(node);
    lemma_types_differ();
}

/// What each test finds among the children, before and after normalisation.
proof fn lemma_found(nodes: Seq<CstTree>, p: spec_fn(CstTree) -> bool)
    requires
        no_attribute_leaf(nodes),
        p == (|c: CstTree| names_tag(c)) || p == (|c: CstTree| names_attribute(c)) || p == (
        |c: CstTree| has_leaf_text(c)) || p == (|c: CstTree| is_opening_tag(c)),
    ensures
        first_where(each_normalized(nodes), p) == (match first_where(nodes, p) {
            Some(n) => Some(normalized(n)),
            None => None,
        }),
        first_where(nodes, p) matches Some(n) ==> normalized(n).text_or_empty()
            == n.text_or_empty(),
{
    let change = |n: CstTree| normalized(n);
    assert forall|i: int| 0 <= i < nodes.len() implies p(change(#[trigger] nodes[i])) == p(
        nodes[i],
    ) by {
        lemma_tests(nodes[i]);
    }
    lemma_first_where(nodes, change, p);
    assert(nodes.map_values(change) =~= each_normalized(nodes));
    if let Some(n) = first_where(nodes, p) {
        let j = choose|j: int| 0 <= j < nodes.len() && nodes[j] == n;
        lemma_tests(nodes[j]);
    }
}

/// Law: the label of a tag is the same before and after normalisation.
pub proof fn law_tag_label_kept(tag: CstTree)
    requires
        is_opening_tag(tag),
        no_attribute_leaf(tag.children),
    ensures
        tag_label(normalized(tag)) == tag_label(tag),
{
    lemma_types_differ();
    lemma_children(tag);
    lemma_found(tag.children, |c: CstTree| names_tag(c));
    lemma_text_of_first(tag.children, "tag_name"@);
    lemma_tag_name_names(tag.children);
}

/// Where there is a tag name, something names the tag.
proof fn lemma_tag_name_names(nodes: Seq<CstTree>)
    ensures
        first_of_type(nodes, "tag_name"@) is Some ==> first_where(
            nodes,
            |c: CstTree| names_tag(c),
        ) is Some,
    decreases nodes.len(),
{
    if nodes.len() > 0 {
        lemma_tag_name_names(nodes.drop_first());
    }
}

/// The types of tags and attributes are not those of elements.
proof fn lemma_elements_differ()
    ensures
        "start_tag"@ != "element"@,
        "start_tag"@ != "script_element"@,
        "start_tag"@ != "style_element"@,
        "self_closing_tag"@ != "element"@,
        "self_closing_tag"@ != "script_element"@,
        "self_closing_tag"@ != "style_element"@,
        "attribute"@ != "element"@,
        "attribute"@ != "script_element"@,
        "attribute"@ != "style_element"@,
{
    reveal_strlit("start_tag");
    reveal_strlit("self_closing_tag");
    reveal_strlit("attribute");
    reveal_strlit("element");
    reveal_strlit("script_element");
    reveal_strlit("style_element");
    assert("start_tag"@.len() == 9);
    assert("self_closing_tag"@.len() == 16);
    assert("attribute"@.len() == 9);
    assert("element"@.len() == 7);
    assert("script_element"@.len() == 14);
    assert("style_element"@.len() == 13);
}

/// Where an attribute begins with its name, that is the first name child.
proof fn lemma_first_naming_child(nodes: Seq<CstTree>)
    ensures
        first_where(nodes, |c: CstTree| names_attribute(c)) matches Some(n) && n.node_type
            == "attribute_name"@ ==> first_of_type(nodes, "attribute_name"@) == first_where(
            nodes,
            |c: CstTree| names_attribute(c),
        ),
        first_of_type(nodes, "attribute_name"@) is Some ==> first_where(
            nodes,
            |c: CstTree| names_attribute(c),
        ) is Some,
    decreases nodes.len(),
{
    if nodes.len() > 0 {
        lemma_first_naming_child(nodes.drop_first());
    }
}

/// The label of an attribute that was taken apart is kept.
proof fn lemma_attribute_label(node: CstTree)
    requires
        node.node_type == "attribute"@,
        is_taken_apart(node),
    ensures
        attribute_label(normalized(node)) == attribute_label(node),
{
    let base = CstTree { children: normalized_children(node), ..node };
    lemma_types_differ();
    lemma_children(node);
    if is_boolean(base) {
        law_attribute_name_kept(node);
        lemma_leaf(node);
        lemma_first_naming_child(node.children);
        lemma_text_of_first(node.children, "attribute_name"@);
        lemma_name_children_members(base.children);
        lemma_first_name(base.children);
        let kept = normalized(node).children;
        assert(kept[0].node_type == "attribute_name"@);
        lemma_first_naming_child(kept);
    } else {
        lemma_found(node.children, |c: CstTree| names_attribute(c));
    }
}

/// The label of an element is kept.
proof fn lemma_element_label(node: CstTree)
    requires
        node.node_type != "attribute"@,
        node.node_type != "self_closing_tag"@,
        is_taken_apart(node),
    ensures
        element_label(normalized(node)) == element_label(node),
{
    let p = |c: CstTree| is_opening_tag(c);
    lemma_children(node);
    lemma_found(node.children, p);
    lemma_text_of_first(node.children, "tag_name"@);
    if let Some(tag) = first_where(node.children, p) {
        lemma_found_holds(node.children, p);
        law_tag_label_kept(tag);
    }
}

/// What is found passes the test.
proof fn lemma_found_holds(nodes: Seq<CstTree>, p: spec_fn(CstTree) -> bool)
    ensures
        first_where(nodes, p) matches Some(n) ==> p(n),
    decreases nodes.len(),
{
    if nodes.len() > 0 {
        lemma_found_holds(nodes.drop_first(), p);
    }
}

/// Law: normalisation keeps the label of every node in which the attributes are taken apart as
/// the grammar does it.
pub proof fn law_label_kept(node: CstTree, literal: Option<Seq<char>>)
    requires
        is_taken_apart(node),
    ensures
        label(normalized(node), literal) == label(node, literal),
{
    lemma_leaf(node);
    lemma_text(node);
    lemma_types_differ();
    lemma_elements_differ();
    if !node.is_leaf() {
        lemma_children(node);
        if is_opening_tag(node) {
            law_tag_label_kept(node);
        } else if node.node_type == "attribute"@ {
            lemma_attribute_label(node);
        } else {
            lemma_element_label(node);
            lemma_found(node.children, |c: CstTree| has_leaf_text(c));
            assert(stray_end_label(normalized(node)) == stray_end_label(node));
        }
        assert(structural_label(normalized(node)) == structural_label(node));
    }
}

/// A tree without what lies more than `depth` levels below its root.
pub open spec fn cut(node: CstTree, depth: nat) -> CstTree
    decreases depth,
{
    if depth == 0 {
        CstTree { children: seq![], ..node }
    } else {
        CstTree { children: node.children.map_values(|n: CstTree| cut(n, (depth - 1) as nat)), ..node }
    }
}

/// `nodes` with what lies more than `depth` levels below each of them cut off.
pub open spec fn each_cut(nodes: Seq<CstTree>, depth: nat) -> Seq<CstTree> {
    nodes.map_values(|n: CstTree| cut(n, depth))
}

proof fn lemma_cut_children(node: CstTree, depth: nat)
    requires
        depth > 0,
    ensures
        cut(node, depth).children == each_cut(node.children, (depth - 1) as nat),
{
    assert(cut(node, depth).children =~= each_cut(node.children, (depth - 1) as nat));
}

/// What each test finds among the children, before and after a cut below them.
proof fn lemma_found_in_cut(nodes: Seq<CstTree>, depth: nat, p: spec_fn(CstTree) -> bool)
    requires
        depth > 0,
        p == (|c: CstTree| names_tag(c)) || p == (|c: CstTree| names_attribute(c)) || p == (
        |c: CstTree| has_leaf_text(c)) || p == (|c: CstTree| is_opening_tag(c)) || p == (
        |c: CstTree| c.node_type == "tag_name"@),
    ensures
        first_where(each_cut(nodes, depth), p) == (match first_where(nodes, p) {
            Some(n) => Some(cut(n, depth)),
            None => None,
        }),
{
    let change = |n: CstTree| cut(n, depth);
    assert forall|i: int| 0 <= i < nodes.len() implies p(change(#[trigger] nodes[i])) == p(
        nodes[i],
    ) by {
        assert(cut(nodes[i], depth).children.len() == nodes[i].children.len());
    }
    lemma_first_where(nodes, change, p);
    assert(nodes.map_values(change) =~= each_cut(nodes, depth));
}

/// The label of a tag is the same in a tree that is cut below the children of its children.
proof fn lemma_tag_label_of_cut(tag: CstTree, depth: nat)
    requires
        depth >= 2,
    ensures
        tag_label(cut(tag, depth)) == tag_label(tag),
{
    let p = |c: CstTree| names_tag(c);
    lemma_cut_children(tag, depth);
    lemma_found_in_cut(tag.children, (depth - 1) as nat, p);
}

/// Law: a label depends on nothing that lies more than three levels below its node.
pub proof fn law_label_is_local(node: CstTree, depth: nat, literal: Option<Seq<char>>)
    requires
        depth >= 3,
    ensures
        label(cut(node, depth), literal) == label(node, literal),
{
    let below = (depth - 1) as nat;
    let short = cut(node, depth);
    let opening = |c: CstTree| is_opening_tag(c);
    lemma_cut_children(node, depth);
    lemma_found_in_cut(node.children, below, opening);
    lemma_found_in_cut(node.children, below, |c: CstTree| c.node_type == "tag_name"@);
    lemma_found_in_cut(node.children, below, |c: CstTree| names_attribute(c));
    lemma_found_in_cut(node.children, below, |c: CstTree| has_leaf_text(c));
    lemma_tag_label_of_cut(node, depth);
    if let Some(tag) = first_where(node.children, opening) {
        lemma_tag_label_of_cut(tag, below);
    }
    assert(element_label(short) == element_label(node));
    assert(attribute_label(short) == attribute_label(node));
    assert(stray_end_label(short) == stray_end_label(node));
    assert(structural_label(short) == structural_label(node));
}

} // verus!
