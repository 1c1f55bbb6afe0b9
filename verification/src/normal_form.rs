//! Laws of normalisation.
use crate::cst::{
    CstNode, CstTree, first_of_type, first_where, is_first_of_type, law_name_is_looked_up,
    law_no_name_is_looked_up, law_reads_as_its_text, none_of_type, reads_as, text_of_first,
};
use crate::normalize::{
    attribute_name, is_boolean, is_kept, is_void_tag, kept_children, lemma_types_differ,
    name_children, normalize_cst, normalized, normalized_children, selected,
};
use crate::tables::{
    boolean_attributes, law_boolean_attributes_have_plain_names, semantic_types, trivia_types,
    void_elements,
};
use crate::text::{
    attribute_key, is_assignment_or_nothing, is_bare_name, is_blank, law_attribute_key_idempotent,
    law_attribute_key_is_the_name, law_attribute_key_of_assignment, law_lowercase_of_nothing,
    lowercase,
};
use vstd::prelude::*;

verus! {

/// The normal forms of `nodes`.
pub open spec fn each_normalized(nodes: Seq<CstTree>) -> Seq<CstTree> {
    nodes.map_values(|n: CstTree| normalized(n))
}

pub(crate) proof fn lemma_children(node: CstTree)
    ensures
        normalized_children(node) == each_normalized(node.children),
{
    assert(normalized_children(node) =~= each_normalized(node.children));
}

/// Normalisation of a node that is neither a self-closing tag nor an attribute changes its
/// children only.
proof fn lemma_other_type(node: CstTree)
    requires
        node.node_type != "self_closing_tag"@,
        node.node_type != "attribute"@,
    ensures
        normalized(node).node_type == node.node_type,
        normalized(node).text == node.text,
{
}

/// The node type after normalisation.
proof fn lemma_node_type(node: CstTree)
    ensures
        normalized(node).node_type == node.node_type || (node.node_type == "self_closing_tag"@
            && normalized(node).node_type == "start_tag"@),
{
}

/// Name nodes are found at the same place, with the same text, before and after normalisation.
pub(crate) proof fn lemma_text_of_first(nodes: Seq<CstTree>, node_type: Seq<char>)
    requires
        node_type == "tag_name"@ || node_type == "attribute_name"@,
    ensures
        text_of_first(each_normalized(nodes), node_type) == text_of_first(nodes, node_type),
    decreases nodes.len(),
{
    let p = |n: CstTree| n.node_type == node_type;
    lemma_types_differ();
    if nodes.len() > 0 {
        lemma_node_type(nodes[0]);
        if p(nodes[0]) {
            lemma_other_type(nodes[0]);
        } else {
            lemma_text_of_first(nodes.drop_first(), node_type);
            assert(each_normalized(nodes).drop_first() =~= each_normalized(nodes.drop_first()));
        }
    }
}

/// Filtering the name children and normalising commute.
pub(crate) proof fn lemma_name_children(nodes: Seq<CstTree>)
    ensures
        name_children(each_normalized(nodes)) == each_normalized(name_children(nodes)),
    decreases nodes.len(),
{
    reveal_with_fuel(Seq::filter, 2);
    let p = |n: CstTree| n.node_type == "attribute_name"@;
    if nodes.len() > 0 {
        lemma_types_differ();
        lemma_name_children(nodes.drop_last());
        lemma_node_type(nodes.last());
        assert(each_normalized(nodes).drop_last() =~= each_normalized(nodes.drop_last()));
        assert(each_normalized(nodes).last() == normalized(nodes.last()));
        if p(nodes.last()) {
            lemma_other_type(nodes.last());
            assert(each_normalized(name_children(nodes)) =~= each_normalized(
                name_children(nodes.drop_last()),
            ).push(normalized(nodes.last())));
        }
    }
    assert(name_children(each_normalized(nodes)) =~= each_normalized(name_children(nodes)));
}

/// Extending a sequence at its end changes the first match only where there was none.
proof fn lemma_first_where_push(nodes: Seq<CstTree>, last: CstTree, p: spec_fn(CstTree) -> bool)
    ensures
        first_where(nodes.push(last), p) == (match first_where(nodes, p) {
            Some(n) => Some(n),
            None => if p(last) {
                Some(last)
            } else {
                None
            },
        }),
    decreases nodes.len(),
{
    if nodes.len() == 0 {
        assert(nodes.push(last).drop_first() =~= seq![]);
        assert(first_where(nodes.push(last).drop_first(), p) is None);
    } else {
        lemma_first_where_push(nodes.drop_first(), last, p);
        assert(nodes.push(last).drop_first() =~= nodes.drop_first().push(last));
    }
}

/// The first name child is the first of all name children.
pub(crate) proof fn lemma_first_name(nodes: Seq<CstTree>)
    ensures
        first_of_type(nodes, "attribute_name"@) == (if name_children(nodes).len() == 0 {
            None
        } else {
            Some(name_children(nodes)[0])
        }),
    decreases nodes.len(),
{
    reveal_with_fuel(Seq::filter, 2);
    if nodes.len() > 0 {
        let p = |n: CstTree| n.node_type == "attribute_name"@;
        lemma_first_name(nodes.drop_last());
        lemma_first_where_push(nodes.drop_last(), nodes.last(), p);
        assert(nodes.drop_last().push(nodes.last()) =~= nodes);
    }
}

/// All name children are kept, and nothing else is.
pub(crate) proof fn lemma_name_children_members(nodes: Seq<CstTree>)
    ensures
        name_children(nodes).len() <= nodes.len(),
        forall|i: int|
            0 <= i < name_children(nodes).len() ==> (#[trigger] name_children(nodes)[i]).node_type
                == "attribute_name"@ && nodes.contains(name_children(nodes)[i]),
        (forall|i: int| 0 <= i < nodes.len() ==> (#[trigger] nodes[i]).node_type == "attribute_name"@)
            ==> name_children(nodes) == nodes,
    decreases nodes.len(),
{
    reveal_with_fuel(Seq::filter, 2);
    if nodes.len() > 0 {
        let front = nodes.drop_last();
        lemma_name_children_members(front);
        assert forall|n: CstTree| front.contains(n) implies nodes.contains(n) by {
            let j = choose|j: int| 0 <= j < front.len() && front[j] == n;
            assert(nodes[j] == n);
        }
        assert(nodes.contains(nodes.last()));
        if forall|i: int| 0 <= i < nodes.len() ==> (#[trigger] nodes[i]).node_type == "attribute_name"@ {
            assert forall|i: int| 0 <= i < front.len() implies (#[trigger] front[i]).node_type
                == "attribute_name"@ by {
                assert(front[i] == nodes[i]);
            }
            assert(nodes.last() == nodes[nodes.len() - 1]);
            assert(name_children(nodes) =~= nodes);
        }
    }
}

/// A tree in normal form: no self-closing tag of a void element is left, and every boolean
/// attribute is down to its name.
pub open spec fn is_normal(node: CstTree) -> bool
    decreases node,
{
    &&& !(node.node_type == "self_closing_tag"@ && is_void_tag(node))
    &&& node.node_type == "attribute"@ && is_boolean(node) ==> if node.is_leaf() {
        node.text == attribute_name(node)
    } else {
        forall|i: int|
            0 <= i < node.children.len() ==> (#[trigger] node.children[i]).node_type
                == "attribute_name"@
    }
    &&& forall|i: int| 0 <= i < node.children.len() ==> is_normal(#[trigger] node.children[i])
}

/// Law: normalisation brings every tree to normal form.
pub proof fn law_normalized_is_normal(node: CstTree)
    ensures
        is_normal(normalized(node)),
    decreases node,
{
    let base = CstTree { children: normalized_children(node), ..node };
    let result = normalized(node);
    assert forall|i: int| 0 <= i < base.children.len() implies is_normal(
        #[trigger] base.children[i],
    ) by {
        law_normalized_is_normal(node.children[i]);
    }
    lemma_types_differ();
    if base.node_type == "attribute"@ && is_boolean(base) {
        if base.is_leaf() {
            law_attribute_key_idempotent(base.text_or_empty());
        } else {
            lemma_name_children_members(base.children);
            assert forall|i: int| 0 <= i < result.children.len() implies is_normal(
                #[trigger] result.children[i],
            ) by {
                assert(base.children.contains(name_children(base.children)[i]));
                let j = choose|j: int|
                    0 <= j < base.children.len() && base.children[j] == result.children[i];
                assert(is_normal(base.children[j]));
            }
            lemma_first_name(base.children);
            lemma_first_name(result.children);
            lemma_name_children_members(result.children);
        }
    }
}

/// Law: a tree in normal form is left as it is.
pub proof fn law_normal_is_fixed(node: CstTree)
    requires
        is_normal(node),
    ensures
        normalized(node) == node,
    decreases node,
{
    assert forall|i: int| 0 <= i < node.children.len() implies normalized(
        #[trigger] node.children[i],
    ) == node.children[i] by {
        assert(is_normal(node.children[i]));
        law_normal_is_fixed(node.children[i]);
    }
    assert(normalized_children(node) =~= node.children);
    lemma_name_children_members(node.children);
}

/// Law: normalising twice gives what normalising once gives.
pub proof fn law_normalize_idempotent(node: CstTree)
    ensures
        normalized(normalized(node)) == normalized(node),
{
    law_normalized_is_normal(node);
    law_normal_is_fixed(normalized(node));
}

/// Law: the tag name of a node is the same before and after normalisation.
pub proof fn law_tag_name_kept(node: CstTree)
    requires
        node.node_type != "attribute"@,
    ensures
        text_of_first(normalized(node).children, "tag_name"@) == text_of_first(
            node.children,
            "tag_name"@,
        ),
{
    lemma_children(node);
    lemma_text_of_first(node.children, "tag_name"@);
}

/// Law: the name of an attribute is the same before and after normalisation.
pub proof fn law_attribute_name_kept(node: CstTree)
    requires
        node.node_type == "attribute"@,
    ensures
        attribute_name(normalized(node)) == attribute_name(node),
{
    let base = CstTree { children: normalized_children(node), ..node };
    lemma_children(node);
    lemma_types_differ();
    lemma_text_of_first(node.children, "attribute_name"@);
    assert(attribute_name(base) == attribute_name(node));
    if is_boolean(base) {
        if base.is_leaf() {
            law_attribute_key_idempotent(base.text_or_empty());
        } else {
            lemma_first_name(base.children);
            lemma_name_children_members(base.children);
            lemma_name_children_members(name_children(base.children));
            lemma_first_name(name_children(base.children));
        }
    }
}

/// A start tag or self-closing tag of a void element.
pub open spec fn opens_void(tag: CstTree) -> bool {
    (tag.node_type == "start_tag"@ || tag.node_type == "self_closing_tag"@) && is_void_tag(tag)
}

/// Two spellings of one boolean attribute: leaves that spell the same name, or nodes with the
/// same name children, whatever the values.
pub open spec fn same_boolean_attribute(a: CstTree, b: CstTree) -> bool {
    &&& a.node_type == "attribute"@
    &&& b.node_type == "attribute"@
    &&& is_boolean(a)
    &&& if a.is_leaf() {
        b.is_leaf() && attribute_name(a) == attribute_name(b)
    } else {
        !b.is_leaf() && a.text == b.text && name_children(a.children) == name_children(b.children)
    }
}

/// Two spellings of the same markup: they differ at most in the self-closing slash of void
/// elements and in the values of boolean attributes, at any depth.
pub open spec fn equivalent(a: CstTree, b: CstTree) -> bool
    decreases a,
{
    ||| same_boolean_attribute(a, b)
    ||| {
        &&& a.node_type == b.node_type || (opens_void(a) && opens_void(b))
        &&& a.text == b.text
        &&& a.children.len() == b.children.len()
        &&& forall|i: int|
            0 <= i < a.children.len() ==> equivalent(#[trigger] a.children[i], b.children[i])
    }
}

proof fn lemma_same_boolean_attribute(a: CstTree, b: CstTree)
    requires
        same_boolean_attribute(a, b),
    ensures
        normalized(a) == normalized(b),
{
    lemma_types_differ();
    lemma_children(a);
    lemma_children(b);
    if a.is_leaf() {
        assert(normalized_children(a) =~= normalized_children(b));
    } else {
        lemma_text_of_first(a.children, "attribute_name"@);
        lemma_text_of_first(b.children, "attribute_name"@);
        lemma_first_name(a.children);
        lemma_first_name(b.children);
        lemma_name_children(a.children);
        lemma_name_children(b.children);
    }
}

/// Law: equivalent spellings have the same normal form, which structural hashes are taken of.
pub proof fn law_equivalent_spellings(a: CstTree, b: CstTree)
    requires
        equivalent(a, b),
    ensures
        normalized(a) == normalized(b),
    decreases a,
{
    if same_boolean_attribute(a, b) {
        lemma_same_boolean_attribute(a, b);
    } else {
        assert forall|i: int| 0 <= i < a.children.len() implies normalized(
            #[trigger] a.children[i],
        ) == normalized(b.children[i]) by {
            assert(equivalent(a.children[i], b.children[i]));
            law_equivalent_spellings(a.children[i], b.children[i]);
        }
        assert(normalized_children(a) =~= normalized_children(b));
        lemma_types_differ();
        lemma_children(a);
        lemma_children(b);
        lemma_text_of_first(a.children, "tag_name"@);
        lemma_text_of_first(b.children, "tag_name"@);
    }
}

/// Law: a void element's self-closing tag and start tag, otherwise alike, have the same normal
/// form, and it is a start tag.
pub proof fn law_void_slash_is_irrelevant(tag: CstTree)
    requires
        tag.node_type == "self_closing_tag"@,
        is_void_tag(tag),
    ensures
        normalized(tag) == normalized(CstTree { node_type: "start_tag"@, ..tag }),
        normalized(tag).node_type == "start_tag"@,
{
    lemma_types_differ();
    lemma_children(tag);
    lemma_text_of_first(tag.children, "tag_name"@);
    let bare = CstTree { node_type: "start_tag"@, ..tag };
    assert(normalized_children(tag) =~= normalized_children(bare));
}

/// Law: a self-closing tag of any other element keeps its node type.
pub proof fn law_other_self_closing_tag_kept(tag: CstTree)
    requires
        tag.node_type == "self_closing_tag"@,
        !is_void_tag(tag),
    ensures
        normalized(tag).node_type == "self_closing_tag"@,
{
    lemma_types_differ();
    lemma_children(tag);
    lemma_text_of_first(tag.children, "tag_name"@);
}

/// Law: a boolean attribute spelled `name=value` has the normal form of the one spelled `name`,
/// whatever the value, and its text is the name.
pub proof fn law_boolean_value_is_irrelevant(node: CstTree, name: Seq<char>, value: Seq<char>)
    requires
        node.node_type == "attribute"@,
        node.is_leaf(),
        !name.contains('='),
        boolean_attributes().contains(lowercase(attribute_key(name))),
    ensures
        normalized(CstTree { text: Some(name + seq!['='] + value), ..node }) == normalized(
            CstTree { text: Some(name), ..node },
        ),
        normalized(CstTree { text: Some(name), ..node }).text == Some(attribute_key(name)),
{
    let bare = CstTree { text: Some(name), ..node };
    law_attribute_key_of_assignment(name, value);
    lemma_types_differ();
    lemma_same_boolean_attribute(bare, CstTree { text: Some(name + seq!['='] + value), ..node });
}

/// Law: a boolean attribute with name and value children has the normal form of the one with
/// the name children alone.
pub proof fn law_boolean_value_children_are_irrelevant(node: CstTree)
    requires
        node.node_type == "attribute"@,
        !node.is_leaf(),
        is_boolean(node),
    ensures
        normalized(node) == normalized(CstTree { children: name_children(node.children), ..node }),
        normalized(node).children == each_normalized(name_children(node.children)),
{
    let bare = CstTree { children: name_children(node.children), ..node };
    lemma_name_children_members(node.children);
    lemma_name_children_members(bare.children);
    lemma_first_name(node.children);
    lemma_same_boolean_attribute(node, bare);
    lemma_types_differ();
    lemma_children(node);
    lemma_text_of_first(node.children, "attribute_name"@);
    lemma_name_children(node.children);
}

/// Law: whatever is neither a void element's self-closing tag nor a boolean attribute keeps its
/// type, its text and the number of its children, each of them brought to normal form.
pub proof fn law_other_nodes_kept(node: CstTree)
    requires
        !(node.node_type == "self_closing_tag"@ && is_void_tag(node)),
        !(node.node_type == "attribute"@ && is_boolean(node)),
    ensures
        normalized(node) == (CstTree { children: each_normalized(node.children), ..node }),
{
    lemma_children(node);
    lemma_text_of_first(node.children, "tag_name"@);
    lemma_text_of_first(node.children, "attribute_name"@);
}

/// Law: normalisation changes neither which nodes are semantic nor which are trivia.
pub proof fn law_vocabulary_kept(node: CstTree)
    ensures
        semantic_types().contains(normalized(node).node_type) == semantic_types().contains(
            node.node_type,
        ),
        trivia_types().contains(normalized(node).node_type) == trivia_types().contains(
            node.node_type,
        ),
{
    lemma_node_type(node);
    reveal_strlit("comment");
    reveal_strlit("start_tag");
    reveal_strlit("self_closing_tag");
    assert("comment"@.len() == 7);
    assert("start_tag"@.len() == 9);
    assert("self_closing_tag"@.len() == 16);
}

/// Whether `result` has the text of `node` and all of its children, each in normal form and at its
/// place.
pub open spec fn keeps_contents(node: CstTree, result: CstTree) -> bool {
    &&& result.text == node.text
    &&& result.children.len() == node.children.len()
    &&& forall|i: int|
        0 <= i < node.children.len() ==> #[trigger] result.children[i] == normalized(
            node.children[i],
        )
}

/// Law: a self-closing tag becomes a start tag exactly where its name is that of a void element,
/// whatever else stands in it; its text and children stay.
pub proof fn law_self_closing_tag_goes_by_its_name(tag: CstTree, k: int, name: Seq<char>)
    requires
        tag.node_type == "self_closing_tag"@,
        is_first_of_type(tag.children, "tag_name"@, k),
        reads_as(tag.children[k], name),
    ensures
        void_elements().contains(name) ==> normalized(tag).node_type == "start_tag"@,
        !void_elements().contains(name) ==> normalized(tag).node_type == "self_closing_tag"@,
        keeps_contents(tag, normalized(tag)),
{
    lemma_types_differ();
    lemma_children(tag);
    lemma_text_of_first(tag.children, "tag_name"@);
    law_name_is_looked_up(tag.children, "tag_name"@, k);
    law_reads_as_its_text(tag.children[k], name);
}

/// Law: a self-closing tag without a name stays one.
pub proof fn law_nameless_self_closing_tag_kept(tag: CstTree)
    requires
        tag.node_type == "self_closing_tag"@,
        none_of_type(tag.children, "tag_name"@),
    ensures
        normalized(tag).node_type == "self_closing_tag"@,
        keeps_contents(tag, normalized(tag)),
{
    lemma_types_differ();
    lemma_children(tag);
    lemma_text_of_first(tag.children, "tag_name"@);
    law_no_name_is_looked_up(tag.children, "tag_name"@);
}

/// Law: two tags of one void element, with the slash or without, and alike in all else, have the
/// same normal form; two such tags of any other element have different ones.
pub proof fn law_slash_matters_by_name(tag: CstTree, k: int, name: Seq<char>)
    requires
        is_first_of_type(tag.children, "tag_name"@, k),
        reads_as(tag.children[k], name),
    ensures
        normalized(CstTree { node_type: "self_closing_tag"@, ..tag }) == normalized(
            CstTree { node_type: "start_tag"@, ..tag },
        ) <==> void_elements().contains(name),
{
    let closed = CstTree { node_type: "self_closing_tag"@, ..tag };
    let open = CstTree { node_type: "start_tag"@, ..tag };
    lemma_types_differ();
    law_self_closing_tag_goes_by_its_name(closed, k, name);
    law_tags_and_content_kept(open);
    if void_elements().contains(name) {
        assert(normalized(closed) =~= normalized(open));
    }
}

/// Law: an attribute in one piece is cut down to its name exactly where the name, in lower case,
/// is that of a boolean attribute; every other one keeps its spelling.
pub proof fn law_attribute_leaf_goes_by_its_name(
    node: CstTree,
    lead: Seq<char>,
    name: Seq<char>,
    trail: Seq<char>,
    rest: Seq<char>,
)
    requires
        node.node_type == "attribute"@,
        node.children.len() == 0,
        node.text == Some(lead + name + trail + rest),
        is_blank(lead),
        is_bare_name(name),
        is_blank(trail),
        is_assignment_or_nothing(rest),
    ensures
        boolean_attributes().contains(lowercase(name)) ==> normalized(node).text == Some(name),
        !boolean_attributes().contains(lowercase(name)) ==> normalized(node).text == node.text,
        normalized(node).node_type == "attribute"@,
        normalized(node).children.len() == 0,
{
    lemma_types_differ();
    law_attribute_key_is_the_name(lead, name, trail, rest);
}

/// Law: two spellings of one name in one piece have the same normal form exactly where the
/// attribute is boolean or the spellings are equal. So an edit of any other value shows.
pub proof fn law_value_matters_by_name(
    a: CstTree,
    b: CstTree,
    name: Seq<char>,
    x: Seq<char>,
    y: Seq<char>,
)
    requires
        a.node_type == "attribute"@,
        a.children.len() == 0,
        a.text == Some(name + seq!['='] + x),
        b == (CstTree { text: Some(name + seq!['='] + y), ..a }),
        is_bare_name(name),
    ensures
        normalized(a) == normalized(b) <==> boolean_attributes().contains(lowercase(name)) || x
            == y,
{
    let none: Seq<char> = seq![];
    assert(name + seq!['='] + x =~= none + name + none + (seq!['='] + x));
    assert(name + seq!['='] + y =~= none + name + none + (seq!['='] + y));
    law_attribute_leaf_goes_by_its_name(a, none, name, none, seq!['='] + x);
    law_attribute_leaf_goes_by_its_name(b, none, name, none, seq!['='] + y);
    if x != y {
        assert((name + seq!['='] + x).skip(name.len() as int + 1) =~= x);
        assert((name + seq!['='] + y).skip(name.len() as int + 1) =~= y);
        assert(a.text != b.text);
    }
    if boolean_attributes().contains(lowercase(name)) {
        assert(normalized(a) =~= normalized(b));
    }
}

/// Law: an attribute without children and without text is left as it is.
pub proof fn law_empty_attribute_kept(node: CstTree)
    requires
        node.node_type == "attribute"@,
        node.children.len() == 0,
        reads_as(node, seq![]),
    ensures
        normalized(node) == node,
{
    let none: Seq<char> = seq![];
    lemma_types_differ();
    law_reads_as_its_text(node, none);
    assert(none + none + none + none =~= none);
    law_attribute_key_is_the_name(none, none, none, none);
    law_lowercase_of_nothing();
    if boolean_attributes().contains(lowercase(none)) {
        law_boolean_attributes_have_plain_names(lowercase(none));
    }
    assert(normalized(node).children =~= node.children);
}

/// Law: an attribute that was taken apart keeps its text and all of its children where its name,
/// in lower case, is not that of a boolean attribute.
pub proof fn law_other_attribute_kept(node: CstTree, k: int, name: Seq<char>)
    requires
        node.node_type == "attribute"@,
        is_first_of_type(node.children, "attribute_name"@, k),
        reads_as(node.children[k], name),
        !boolean_attributes().contains(lowercase(name)),
    ensures
        normalized(node).node_type == "attribute"@,
        keeps_contents(node, normalized(node)),
{
    lemma_types_differ();
    lemma_children(node);
    lemma_text_of_first(node.children, "attribute_name"@);
    law_name_is_looked_up(node.children, "attribute_name"@, k);
    law_reads_as_its_text(node.children[k], name);
}

/// Law: an attribute that was taken apart and has no name keeps its text and all of its children.
pub proof fn law_nameless_attribute_kept(node: CstTree)
    requires
        node.node_type == "attribute"@,
        node.children.len() > 0,
        none_of_type(node.children, "attribute_name"@),
    ensures
        normalized(node).node_type == "attribute"@,
        keeps_contents(node, normalized(node)),
{
    lemma_types_differ();
    lemma_children(node);
    lemma_text_of_first(node.children, "attribute_name"@);
    law_no_name_is_looked_up(node.children, "attribute_name"@);
}

/// Whether `kept` holds the places of the nodes of type `node_type`, each once and in order.
pub open spec fn are_places_of(nodes: Seq<CstTree>, node_type: Seq<char>, kept: Seq<int>) -> bool {
    &&& forall|m: int|
        0 <= m < kept.len() ==> 0 <= #[trigger] kept[m] < nodes.len() && nodes[kept[m]].node_type
            == node_type
    &&& forall|m: int, n: int| 0 <= m < n < kept.len() ==> kept[m] < kept[n]
    &&& forall|i: int|
        0 <= i < nodes.len() && (#[trigger] nodes[i]).node_type == node_type ==> kept.contains(i)
}

/// The places of the name children.
proof fn lemma_places_of_names(nodes: Seq<CstTree>) -> (kept: Seq<int>)
    ensures
        are_places_of(nodes, "attribute_name"@, kept),
        name_children(nodes).len() == kept.len(),
        forall|m: int|
            0 <= m < kept.len() ==> #[trigger] name_children(nodes)[m] == nodes[kept[m]],
    decreases nodes.len(),
{
    reveal_with_fuel(Seq::filter, 2);
    if nodes.len() == 0 {
        seq![]
    } else {
        let last = nodes.len() - 1;
        let front = nodes.drop_last();
        let before = lemma_places_of_names(front);
        let kept = if nodes.last().node_type == "attribute_name"@ {
            before.push(last)
        } else {
            before
        };
        assert forall|m: int| 0 <= m < kept.len() implies 0 <= #[trigger] kept[m] < nodes.len()
            && nodes[kept[m]].node_type == "attribute_name"@ by {
            if m < before.len() {
                assert(0 <= before[m] < front.len());
                assert(front[before[m]] == nodes[before[m]]);
            }
        }
        assert forall|m: int, n: int| 0 <= m < n < kept.len() implies kept[m] < kept[n] by {
            assert(0 <= before[m] < front.len());
        }
        assert forall|i: int|
            0 <= i < nodes.len() && (#[trigger] nodes[i]).node_type
                == "attribute_name"@ implies kept.contains(i) by {
            if i < last {
                assert(front[i] == nodes[i]);
                assert(before.contains(i));
                let m = choose|m: int| 0 <= m < before.len() && before[m] == i;
                assert(kept[m] == i);
            } else {
                assert(kept[kept.len() - 1] == i);
            }
        }
        assert forall|m: int| 0 <= m < kept.len() implies #[trigger] name_children(nodes)[m]
            == nodes[kept[m]] by {
            if m < before.len() {
                assert(name_children(front)[m] == front[before[m]]);
                assert(0 <= before[m] < front.len());
            }
        }
        kept
    }
}

/// Law: a boolean attribute that was taken apart keeps its name children, in their normal forms
/// and in order, and nothing else of what stands in it.
pub proof fn law_boolean_attribute_keeps_names(
    node: CstTree,
    k: int,
    name: Seq<char>,
) -> (kept: Seq<int>)
    requires
        node.node_type == "attribute"@,
        is_first_of_type(node.children, "attribute_name"@, k),
        reads_as(node.children[k], name),
        boolean_attributes().contains(lowercase(name)),
    ensures
        normalized(node).node_type == "attribute"@,
        normalized(node).text == node.text,
        are_places_of(node.children, "attribute_name"@, kept),
        normalized(node).children.len() == kept.len(),
        forall|m: int|
            0 <= m < kept.len() ==> #[trigger] normalized(node).children[m] == normalized(
                node.children[kept[m]],
            ),
{
    lemma_types_differ();
    lemma_children(node);
    lemma_text_of_first(node.children, "attribute_name"@);
    law_name_is_looked_up(node.children, "attribute_name"@, k);
    law_reads_as_its_text(node.children[k], name);
    lemma_name_children(node.children);
    let kept = lemma_places_of_names(node.children);
    assert forall|m: int| 0 <= m < kept.len() implies #[trigger] normalized(node).children[m]
        == normalized(node.children[kept[m]]) by {
        assert(name_children(node.children)[m] == node.children[kept[m]]);
    }
    kept
}

/// Law: a node that is neither a self-closing tag nor an attribute keeps its type, its text and
/// all of its children.
pub proof fn law_tags_and_content_kept(node: CstTree)
    requires
        node.node_type != "self_closing_tag"@,
        node.node_type != "attribute"@,
    ensures
        normalized(node).node_type == node.node_type,
        keeps_contents(node, normalized(node)),
{
    lemma_children(node);
}

/// A tree without self-closing tags and attributes.
pub open spec fn has_one_spelling(node: CstTree) -> bool
    decreases node,
{
    &&& node.node_type != "self_closing_tag"@
    &&& node.node_type != "attribute"@
    &&& forall|i: int|
        0 <= i < node.children.len() ==> has_one_spelling(#[trigger] node.children[i])
}

/// Law: a tree without self-closing tags and attributes is left as it is, to the last of its
/// nodes. So two of them have the same normal form only where they are equal.
pub proof fn law_tree_with_one_spelling_kept(node: CstTree)
    requires
        has_one_spelling(node),
    ensures
        normalized(node) == node,
    decreases node,
{
    law_tags_and_content_kept(node);
    assert forall|i: int| 0 <= i < node.children.len() implies #[trigger] normalized(
        node,
    ).children[i] == node.children[i] by {
        assert(has_one_spelling(node.children[i]));
        law_tree_with_one_spelling_kept(node.children[i]);
    }
    assert(normalized(node).children =~= node.children);
}

/// Law: nothing in a tree in normal form is left to normalise: its self-closing tags are not those
/// of void elements, its boolean attributes are bare, and so it goes on below.
pub proof fn law_normal_tree_has_nothing_left(node: CstTree, k: int, name: Seq<char>)
    requires
        is_normal(node),
        0 <= k < node.children.len(),
        reads_as(node.children[k], name),
    ensures
        node.node_type == "self_closing_tag"@ && is_first_of_type(node.children, "tag_name"@, k)
            ==> !void_elements().contains(name),
        node.node_type == "attribute"@ && is_first_of_type(node.children, "attribute_name"@, k)
            && boolean_attributes().contains(lowercase(name)) ==> forall|i: int|
            0 <= i < node.children.len() ==> (#[trigger] node.children[i]).node_type
                == "attribute_name"@,
        is_normal(node.children[k]),
{
    law_reads_as_its_text(node.children[k], name);
    if is_first_of_type(node.children, "tag_name"@, k) {
        law_name_is_looked_up(node.children, "tag_name"@, k);
    }
    if is_first_of_type(node.children, "attribute_name"@, k) {
        law_name_is_looked_up(node.children, "attribute_name"@, k);
    }
}

/// Law: what normalisation returns is the normal form, and in normal form; two equivalent spellings
/// give one result; and a second run changes nothing.
pub proof fn law_normalisation_gives_normal_form(
    a: CstNode,
    b: CstNode,
    once: CstNode,
    other: CstNode,
    twice: CstNode,
)
    requires
        call_ensures(normalize_cst, (&a,), once),
        call_ensures(normalize_cst, (&b,), other),
        call_ensures(normalize_cst, (&once,), twice),
    ensures
        once@ == normalized(a@),
        is_normal(once@),
        equivalent(a@, b@) ==> once@ == other@,
        twice@ == once@,
{
    law_normalized_is_normal(a@);
    law_normal_is_fixed(once@);
    if equivalent(a@, b@) {
        law_equivalent_spellings(a@, b@);
    }
}

/// Law: the children that are kept are those whose normal forms stand in the normal form, in order.
pub proof fn law_kept_children_make_the_normal_form(
    node: CstNode,
    normal: CstNode,
    kept: Vec<usize>,
)
    requires
        call_ensures(normalize_cst, (&node,), normal),
        call_ensures(kept_children, (&node,), kept),
    ensures
        normal@.children.len() == kept@.len(),
        forall|m: int|
            0 <= m < kept@.len() ==> 0 <= #[trigger] kept@[m] < node@.children.len()
                && normal@.children[m] == normalized(node@.children[kept@[m] as int]),
        forall|m: int, n: int| 0 <= m < n < kept@.len() ==> kept@[m] < kept@[n],
{
    assert(normal@.children == each_normalized(selected(node@.children, kept@)));
    assert forall|m: int| 0 <= m < kept@.len() implies 0 <= #[trigger] kept@[m]
        < node@.children.len() && normal@.children[m] == normalized(
        node@.children[kept@[m] as int],
    ) by {
        assert(is_kept(node@, kept@[m] as int));
    }
}

} // verus!
