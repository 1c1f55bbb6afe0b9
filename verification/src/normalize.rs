//! Normalisation: equivalent spellings of HTML are brought to one form, so that they get
//! identical structural hashes.
use crate::cst::{CstNode, CstTree, attribute_name_of, tag_name_of, text_of_first};
use crate::normal_form::{
    each_normalized, lemma_children, lemma_name_children, lemma_text_of_first,
};
use crate::tables::{boolean_attributes, is_boolean_attribute, is_void_element, void_elements};
use crate::text::{attribute_key, attribute_key_of, lowercase, lowercase_of};
use vstd::prelude::*;

verus! {

/// A tag whose name is that of a void element.
pub open spec fn is_void_tag(tag: CstTree) -> bool {
    text_of_first(tag.children, "tag_name"@) matches Some(name) && void_elements().contains(name)
}

/// The name of an attribute: read off the source spelling of a leaf, and off the name child of
/// any other node, where it has one.
pub open spec fn attribute_name(node: CstTree) -> Option<Seq<char>> {
    if node.is_leaf() {
        Some(attribute_key(node.text_or_empty()))
    } else {
        text_of_first(node.children, "attribute_name"@)
    }
}

/// An attribute whose presence alone matters.
pub open spec fn is_boolean(node: CstTree) -> bool {
    attribute_name(node) matches Some(name) && boolean_attributes().contains(lowercase(name))
}

/// The children that hold attribute names.
pub open spec fn name_children(nodes: Seq<CstTree>) -> Seq<CstTree> {
    nodes.filter(|n: CstTree| n.node_type == "attribute_name"@)
}

/// The normal form of a node whose children are in normal form: a self-closing void tag
/// becomes a start tag, a boolean attribute is cut down to its name, and every other node stays
/// as it is.
pub open spec fn normalized_node(node: CstTree) -> CstTree {
    if node.node_type == "self_closing_tag"@ && is_void_tag(node) {
        CstTree { node_type: "start_tag"@, ..node }
    } else if node.node_type == "attribute"@ && is_boolean(node) {
        if node.is_leaf() {
            CstTree { text: attribute_name(node), ..node }
        } else {
            CstTree { children: name_children(node.children), ..node }
        }
    } else {
        node
    }
}

/// The normal forms of the children of a node.
pub open spec fn normalized_children(node: CstTree) -> Seq<CstTree>
    decreases node, 0nat,
{
    Seq::new(
        node.children.len(),
        |i: int|
            if 0 <= i < node.children.len() {
                normalized(node.children[i])
            } else {
                arbitrary()
            },
    )
}

/// The normal form of a tree.
pub open spec fn normalized(node: CstTree) -> CstTree
    decreases node, 1nat,
{
    normalized_node(CstTree { children: normalized_children(node), ..node })
}

/// The node types that normalisation reads and writes are pairwise different.
pub(crate) proof fn lemma_types_differ()
    ensures
        "tag_name"@ != "self_closing_tag"@,
        "tag_name"@ != "start_tag"@,
        "tag_name"@ != "attribute"@,
        "attribute_name"@ != "self_closing_tag"@,
        "attribute_name"@ != "start_tag"@,
        "attribute_name"@ != "attribute"@,
        "self_closing_tag"@ != "start_tag"@,
        "self_closing_tag"@ != "attribute"@,
        "start_tag"@ != "attribute"@,
{
    reveal_strlit("tag_name");
    reveal_strlit("attribute_name");
    reveal_strlit("self_closing_tag");
    reveal_strlit("start_tag");
    reveal_strlit("attribute");
    assert("tag_name"@[0] == 't');
    assert("start_tag"@[0] == 's');
    assert("attribute"@[0] == 'a');
    assert("attribute"@.len() == 9);
    assert("attribute_name"@.len() == 14);
    assert("self_closing_tag"@.len() == 16);
    assert("start_tag"@.len() == 9);
}

/// The contents of `nodes`.
pub open spec fn trees(nodes: Seq<CstNode>) -> Seq<CstTree> {
    nodes.map_values(|n: CstNode| n@)
}

/// Keeps the nodes that hold attribute names, in order.
fn keep_name_children(nodes: Vec<CstNode>) -> (r: Vec<CstNode>)
    ensures
        trees(r@) == name_children(trees(nodes@)),
{
    let ghost p = |n: CstTree| n.node_type == "attribute_name"@;
    let ghost all = nodes@;
    let mut kept: Vec<CstNode> = Vec::new();
    assert(trees(all).take(0) =~= seq![]);
    assert(trees(kept@) =~= trees(all).take(0).filter(p));
    for node in it: nodes
        invariant
            it.seq() == all,
            p == (|n: CstTree| n.node_type == "attribute_name"@),
            trees(kept@) == trees(all).take(it.index() as int).filter(p),
    {
        proof {
            reveal_with_fuel(Seq::filter, 2);
            let i = it.index() as int;
            assert(trees(all).take(i + 1).drop_last() =~= trees(all).take(i));
            assert(trees(all).take(i + 1).last() == node@);
            assert(trees(kept@.push(node)) =~= trees(kept@).push(node@));
        }
        if node.has_type("attribute_name") {
            kept.push(node);
        }
    }
    assert(trees(all).take(all.len() as int) =~= trees(all));
    kept
}

/// Brings a tree to its normal form.
///
/// - Void elements: `<br/>` (`self_closing_tag`) and `<br>` (`start_tag`) become the same
///   `start_tag` node type.
/// - Boolean attributes: `disabled="disabled"`, `disabled=""` and `disabled` collapse to the
///   attribute name; value children go, and the text of a leaf is cut to the name.
pub fn normalize_cst(node: &CstNode) -> (r: CstNode)
    ensures
        r@ == normalized(node@),
    decreases node,
{
    let mut children: Vec<CstNode> = Vec::new();
    let mut i: usize = 0;
    while i < node.children.len()
        invariant
            i <= node.children@.len(),
            children@.len() == i,
            forall|j: int| 0 <= j < i ==> (#[trigger] children@[j])@ == normalized(node.children@[j]@),
        decreases node.children@.len() - i,
    {
        let child = normalize_cst(&node.children[i]);
        children.push(child);
        i = i + 1;
    }
    let mut result = CstNode { node_type: node.node_type.clone(), text: node.text.clone(), children };
    let ghost base = result@;
    proof {
        assert(base.children =~= normalized_children(node@));
        assert(base == CstTree { children: normalized_children(node@), ..node@ });
        lemma_types_differ();
    }
    if result.has_type("self_closing_tag") {
        if let Some(tag) = tag_name_of(&result) {
            if is_void_element(tag.as_str()) {
                result.node_type = "start_tag".to_owned();
                assert(result@.children =~= base.children);
            }
        }
    } else if result.has_type("attribute") {
        let found = if result.is_leaf() {
            Some(attribute_key_of(result.text_or_empty()))
        } else {
            attribute_name_of(&result)
        };
        if let Some(name) = found {
            if is_boolean_attribute(lowercase_of(name.as_str()).as_str()) {
                if result.is_leaf() {
                    result.text = Some(name);
                    assert(result@.children =~= base.children);
                } else {
                    let CstNode { node_type, text, children } = result;
                    assert(trees(children@) =~= base.children);
                    result = CstNode { node_type, text, children: keep_name_children(children) };
                    assert(result@.children =~= trees(result.children@));
                }
            }
        }
    }
    result
}

/// Whether normalisation keeps the child of `node` at `i`: all children stay, but for those of a
/// boolean attribute that do not hold its name.
pub open spec fn is_kept(node: CstTree, i: int) -> bool {
    &&& 0 <= i < node.children.len()
    &&& node.node_type == "attribute"@ && is_boolean(node) ==> node.children[i].node_type
        == "attribute_name"@
}

/// The nodes at `indices`.
pub open spec fn selected(nodes: Seq<CstTree>, indices: Seq<usize>) -> Seq<CstTree> {
    indices.map_values(|i: usize| nodes[i as int])
}

/// The indices of the children of `node` that normalisation keeps, in order: the children of the
/// normal form are the normal forms of these.
pub fn kept_children(node: &CstNode) -> (r: Vec<usize>)
    ensures
        forall|k: int| 0 <= k < r@.len() ==> is_kept(node@, #[trigger] r@[k] as int),
        forall|i: usize| is_kept(node@, i as int) ==> #[trigger] r@.contains(i),
        forall|j: int, k: int| 0 <= j < k < r@.len() ==> r@[j] < r@[k],
        normalized(node@).children == each_normalized(selected(node@.children, r@)),
{
    let names_only = node.has_type("attribute") && !node.is_leaf() && match attribute_name_of(
        node,
    ) {
        Some(name) => is_boolean_attribute(lowercase_of(name.as_str()).as_str()),
        None => false,
    };
    let ghost p = |n: CstTree| n.node_type == "attribute_name"@;
    let ghost nodes = node@.children;
    let mut r: Vec<usize> = Vec::new();
    let mut i: usize = 0;
    assert(nodes.take(0) =~= seq![]);
    assert(nodes.take(0).filter(p) =~= seq![]) by {
        reveal_with_fuel(Seq::filter, 1);
    }
    assert(selected(nodes, r@) =~= seq![]);
    while i < node.children.len()
        invariant
            i <= node.children@.len(),
            nodes == node@.children,
            p == (|n: CstTree| n.node_type == "attribute_name"@),
            nodes.len() > 0 ==> names_only == (node@.node_type == "attribute"@ && is_boolean(node@)),
            forall|k: int| 0 <= k < r@.len() ==> #[trigger] r@[k] < i && is_kept(node@, r@[k] as int),
            forall|j: usize| j < i && is_kept(node@, j as int) ==> #[trigger] r@.contains(j),
            forall|j: int, k: int| 0 <= j < k < r@.len() ==> r@[j] < r@[k],
            selected(nodes, r@) == (if names_only {
                nodes.take(i as int).filter(p)
            } else {
                nodes.take(i as int)
            }),
        decreases node.children@.len() - i,
    {
        let ghost before = r@;
        proof {
            reveal_with_fuel(Seq::filter, 2);
            assert(nodes[i as int] == node.children@[i as int]@);
            assert(nodes.take(i + 1).drop_last() =~= nodes.take(i as int));
            assert(nodes.take(i + 1).last() == nodes[i as int]);
            assert(nodes.take(i + 1) =~= nodes.take(i as int).push(nodes[i as int]));
            assert(selected(nodes, before.push(i)) =~= selected(nodes, before).push(
                nodes[i as int],
            ));
        }
        if !names_only || node.children[i].has_type("attribute_name") {
            r.push(i);
            assert(r@[r@.len() - 1] == i);
            assert forall|j: usize| j < i + 1 && is_kept(node@, j as int) implies #[trigger] r@.contains(
                j,
            ) by {
                if j < i {
                    assert(before.contains(j));
                    let k = choose|k: int| 0 <= k < before.len() && before[k] == j;
                    assert(r@[k] == j);
                }
            }
        }
        i = i + 1;
    }
    proof {
        assert(nodes.take(nodes.len() as int) =~= nodes);
        lemma_types_differ();
        lemma_children(node@);
        lemma_text_of_first(nodes, "attribute_name"@);
        lemma_name_children(nodes);
    }
    r
}

} // verus!
