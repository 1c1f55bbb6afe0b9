//! Labels of semantic nodes.
use crate::cst::{
    CstNode, CstTree, find_child, first_of_type, first_where, is_first_of_type,
    law_name_is_looked_up, law_no_name_is_looked_up, law_reads_as_its_text,
    law_search_finds_nothing, law_search_stops_at_first, none_of_type, reads_as, tag_name_of,
    text_view,
};
use crate::text::same_text;
use vstd::prelude::*;

verus! {

/// A child that tells the name of the tag it stands in: the tag name itself, or any other leaf
/// with text that is no punctuation.
pub open spec fn names_tag(child: CstTree) -> bool {
    let text = child.text_or_empty();
    child.node_type == "tag_name"@ || (child.is_leaf() && text.len() != 0 && text != "<"@ && text
        != ">"@ && text != "/"@)
}

/// A child that tells the name of the attribute it stands in.
pub open spec fn names_attribute(child: CstTree) -> bool {
    let text = child.text_or_empty();
    child.node_type == "attribute_name"@ || (child.is_leaf() && text.len() != 0 && text != "="@)
}

/// A leaf with text.
pub open spec fn has_leaf_text(child: CstTree) -> bool {
    child.is_leaf() && child.text_or_empty().len() != 0
}

/// A start tag or a self-closing tag.
pub open spec fn is_opening_tag(child: CstTree) -> bool {
    child.node_type == "start_tag"@ || child.node_type == "self_closing_tag"@
}

/// The text of `found`, or `otherwise` where nothing was found.
pub open spec fn text_or(found: Option<CstTree>, otherwise: Seq<char>) -> Seq<char> {
    match found {
        Some(n) => n.text_or_empty(),
        None => otherwise,
    }
}

/// The label of a tag: the text of the first child that names it, else the tag's node type.
pub open spec fn tag_label(tag: CstTree) -> Seq<char> {
    text_or(first_where(tag.children, |c: CstTree| names_tag(c)), tag.node_type)
}

/// The label of an element: that of its opening tag, else the text of a direct tag name, else
/// the node type.
pub open spec fn element_label(node: CstTree) -> Seq<char> {
    match first_where(node.children, |c: CstTree| is_opening_tag(c)) {
        Some(tag) => tag_label(tag),
        None => text_or(first_of_type(node.children, "tag_name"@), node.node_type),
    }
}

/// The label of an attribute: its name, else the node type.
pub open spec fn attribute_label(node: CstTree) -> Seq<char> {
    text_or(first_where(node.children, |c: CstTree| names_attribute(c)), node.node_type)
}

/// The label of a stray end tag: `/` and the text of its first leaf with text, else the node
/// type.
pub open spec fn stray_end_label(node: CstTree) -> Seq<char> {
    match first_where(node.children, |c: CstTree| has_leaf_text(c)) {
        Some(leaf) => "/"@ + leaf.text_or_empty(),
        None => node.node_type,
    }
}

/// The label of a node that is no leaf and no literal container.
pub open spec fn structural_label(node: CstTree) -> Seq<char> {
    let t = node.node_type;
    if t == "element"@ || t == "script_element"@ || t == "style_element"@ {
        element_label(node)
    } else if t == "start_tag"@ || t == "self_closing_tag"@ {
        tag_label(node)
    } else if t == "attribute"@ {
        attribute_label(node)
    } else if t == "doctype"@ {
        "doctype"@
    } else if t == "erroneous_end_tag"@ {
        stray_end_label(node)
    } else {
        t
    }
}

/// The label of a node: the text of a leaf; else the label of a literal container, `literal`;
/// else what the node's type and children say.
pub open spec fn label(node: CstTree, literal: Option<Seq<char>>) -> Seq<char> {
    if node.is_leaf() {
        node.text_or_empty()
    } else {
        match literal {
            Some(text) => text,
            None => structural_label(node),
        }
    }
}

/// Tells whether `child` names the tag it stands in.
fn child_names_tag(child: &CstNode) -> (r: bool)
    ensures
        r == names_tag(child@),
{
    if child.has_type("tag_name") {
        return true;
    }
    let text = child.text_or_empty();
    child.is_leaf() && !text.is_empty() && !same_text(text, "<") && !same_text(text, ">")
        && !same_text(text, "/")
}

/// Tells whether `child` names the attribute it stands in.
fn child_names_attribute(child: &CstNode) -> (r: bool)
    ensures
        r == names_attribute(child@),
{
    if child.has_type("attribute_name") {
        return true;
    }
    let text = child.text_or_empty();
    child.is_leaf() && !text.is_empty() && !same_text(text, "=")
}

/// Tells whether `child` is a leaf with text.
fn child_has_leaf_text(child: &CstNode) -> (r: bool)
    ensures
        r == has_leaf_text(child@),
{
    child.is_leaf() && !child.text_or_empty().is_empty()
}

/// Tells whether `child` is a start tag or a self-closing tag.
fn child_is_opening_tag(child: &CstNode) -> (r: bool)
    ensures
        r == is_opening_tag(child@),
{
    child.has_type("start_tag") || child.has_type("self_closing_tag")
}

/// The label of a `start_tag` or `self_closing_tag` node.
pub fn tag_name_from_tag(tag_node: &CstNode) -> (r: String)
    ensures
        r@ == tag_label(tag_node@),
{
    match find_child(tag_node, child_names_tag, Ghost(|c: CstTree| names_tag(c))) {
        Some(child) => child.text_or_empty().to_owned(),
        None => tag_node.node_type.clone(),
    }
}

/// The label of an element.
fn label_of_element(node: &CstNode) -> (r: String)
    ensures
        r@ == element_label(node@),
{
    match find_child(node, child_is_opening_tag, Ghost(|c: CstTree| is_opening_tag(c))) {
        Some(tag) => tag_name_from_tag(tag),
        None => match tag_name_of(node) {
            Some(name) => name,
            None => node.node_type.clone(),
        },
    }
}

/// The label of an attribute.
fn label_of_attribute(node: &CstNode) -> (r: String)
    ensures
        r@ == attribute_label(node@),
{
    match find_child(node, child_names_attribute, Ghost(|c: CstTree| names_attribute(c))) {
        Some(child) => child.text_or_empty().to_owned(),
        None => node.node_type.clone(),
    }
}

/// The label of a stray end tag.
fn label_of_stray_end(node: &CstNode) -> (r: String)
    ensures
        r@ == stray_end_label(node@),
{
    match find_child(node, child_has_leaf_text, Ghost(|c: CstTree| has_leaf_text(c))) {
        Some(leaf) => "/".to_owned().concat(leaf.text_or_empty()),
        None => node.node_type.clone(),
    }
}

/// The label that the semantic tree shows for `node`. `literal` is the captured source text of
/// a literal container, and `None` for every other node.
pub fn label_for(node: &CstNode, literal: Option<String>) -> (r: String)
    ensures
        r@ == label(node@, text_view(literal)),
{
    if node.is_leaf() {
        return node.text_or_empty().to_owned();
    }
    if let Some(text) = literal {
        return text;
    }
    if node.has_type("element") || node.has_type("script_element") || node.has_type(
        "style_element",
    ) {
        label_of_element(node)
    } else if node.has_type("start_tag") || node.has_type("self_closing_tag") {
        tag_name_from_tag(node)
    } else if node.has_type("attribute") {
        label_of_attribute(node)
    } else if node.has_type("doctype") {
        "doctype".to_owned()
    } else if node.has_type("erroneous_end_tag") {
        label_of_stray_end(node)
    } else {
        node.node_type.clone()
    }
}

/// Whether `child` tells nothing in a search for a name: it is not of the type that holds names,
/// and it is no leaf, or a leaf that reads as nothing or as punctuation.
pub open spec fn tells_nothing(
    child: CstTree,
    name_type: Seq<char>,
    punctuation: Set<Seq<char>>,
) -> bool {
    &&& child.node_type != name_type
    &&& child.children.len() > 0 || child.text is None || child.text->0.len() == 0
        || punctuation.contains(child.text->0)
}

/// Whether the child at `k` tells a name, and none before it does.
pub open spec fn tells_first(
    nodes: Seq<CstTree>,
    name_type: Seq<char>,
    punctuation: Set<Seq<char>>,
    k: int,
) -> bool {
    &&& 0 <= k < nodes.len()
    &&& !tells_nothing(nodes[k], name_type, punctuation)
    &&& forall|j: int| 0 <= j < k ==> tells_nothing(#[trigger] nodes[j], name_type, punctuation)
}

/// Whether no child tells a name.
pub open spec fn none_tells(
    nodes: Seq<CstTree>,
    name_type: Seq<char>,
    punctuation: Set<Seq<char>>,
) -> bool {
    forall|j: int|
        0 <= j < nodes.len() ==> tells_nothing(#[trigger] nodes[j], name_type, punctuation)
}

/// Law: the label of a tag is the whole text of the first child that tells its name, as it is
/// spelled.
pub proof fn law_tag_label_is_the_name(tag: CstTree, k: int)
    requires
        tells_first(tag.children, "tag_name"@, set!["<"@, ">"@, "/"@], k),
    ensures
        reads_as(tag.children[k], tag_label(tag)),
{
    let p = |c: CstTree| names_tag(c);
    assert forall|j: int| 0 <= j < k implies !p(#[trigger] tag.children[j]) by {
        assert(tells_nothing(tag.children[j], "tag_name"@, set!["<"@, ">"@, "/"@]));
    }
    law_search_stops_at_first(tag.children, p, k);
}

/// Law: a tag in which nothing tells a name is labelled with its node type.
pub proof fn law_nameless_tag_label(tag: CstTree)
    requires
        none_tells(tag.children, "tag_name"@, set!["<"@, ">"@, "/"@]),
    ensures
        tag_label(tag) == tag.node_type,
{
    let p = |c: CstTree| names_tag(c);
    assert forall|j: int| 0 <= j < tag.children.len() implies !p(#[trigger] tag.children[j]) by {
        assert(tells_nothing(tag.children[j], "tag_name"@, set!["<"@, ">"@, "/"@]));
    }
    law_search_finds_nothing(tag.children, p);
}

/// Law: two tags that begin with their names have the same label exactly where the names are the
/// same.
pub proof fn law_tag_labels_tell_names_apart(a: CstTree, b: CstTree, x: Seq<char>, y: Seq<char>)
    requires
        a.children.len() > 0,
        a.children[0].node_type == "tag_name"@,
        reads_as(a.children[0], x),
        b.children.len() > 0,
        b.children[0].node_type == "tag_name"@,
        reads_as(b.children[0], y),
    ensures
        tag_label(a) == tag_label(b) <==> x == y,
{
    law_tag_label_is_the_name(a, 0);
    law_tag_label_is_the_name(b, 0);
    law_reads_as_its_text(a.children[0], x);
    law_reads_as_its_text(b.children[0], y);
    law_reads_as_its_text(a.children[0], tag_label(a));
    law_reads_as_its_text(b.children[0], tag_label(b));
}

/// Law: a leaf is labelled with its text, whatever its type.
pub proof fn law_leaf_label_is_its_text(node: CstTree, literal: Option<Seq<char>>)
    requires
        node.children.len() == 0,
    ensures
        reads_as(node, label(node, literal)),
{
}

/// Law: a literal container is labelled with its literal, whatever its type.
pub proof fn law_literal_label(node: CstTree, literal: Seq<char>)
    requires
        node.children.len() > 0,
    ensures
        label(node, Some(literal)) == literal,
{
}

/// Law: a tag is labelled alike on its own and in the search for the label of its element.
pub proof fn law_label_of_tag(tag: CstTree)
    requires
        tag.node_type == "start_tag"@ || tag.node_type == "self_closing_tag"@,
        tag.children.len() > 0,
    ensures
        label(tag, None) == tag_label(tag),
{
    lemma_label_types_differ();
}

/// Whether the child at `k` is a start tag or a self-closing tag, and none before it is.
pub open spec fn opens_at(nodes: Seq<CstTree>, k: int) -> bool {
    &&& 0 <= k < nodes.len()
    &&& nodes[k].node_type == "start_tag"@ || nodes[k].node_type == "self_closing_tag"@
    &&& forall|j: int|
        0 <= j < k ==> (#[trigger] nodes[j]).node_type != "start_tag"@ && nodes[j].node_type
            != "self_closing_tag"@
}

/// Law: an element is labelled as its opening tag is.
pub proof fn law_element_label_is_that_of_its_tag(node: CstTree, k: int)
    requires
        set!["element"@, "script_element"@, "style_element"@].contains(node.node_type),
        opens_at(node.children, k),
    ensures
        label(node, None) == tag_label(node.children[k]),
{
    let p = |c: CstTree| is_opening_tag(c);
    law_search_stops_at_first(node.children, p, k);
}

/// Law: an element is labelled with the whole text of the child that first tells the name of its
/// opening tag.
pub proof fn law_element_label_is_the_name(node: CstTree, k: int, m: int)
    requires
        set!["element"@, "script_element"@, "style_element"@].contains(node.node_type),
        opens_at(node.children, k),
        tells_first(node.children[k].children, "tag_name"@, set!["<"@, ">"@, "/"@], m),
    ensures
        reads_as(node.children[k].children[m], label(node, None)),
{
    law_element_label_is_that_of_its_tag(node, k);
    law_tag_label_is_the_name(node.children[k], m);
}

/// Law: an element without an opening tag is labelled with the tag name that stands in it, and
/// with its node type where there is none.
pub proof fn law_label_of_element_without_tag(node: CstTree, k: int)
    requires
        set!["element"@, "script_element"@, "style_element"@].contains(node.node_type),
        node.children.len() > 0,
        none_of_type(node.children, "start_tag"@),
        none_of_type(node.children, "self_closing_tag"@),
    ensures
        is_first_of_type(node.children, "tag_name"@, k) ==> reads_as(
            node.children[k],
            label(node, None),
        ),
        none_of_type(node.children, "tag_name"@) ==> label(node, None) == node.node_type,
{
    let p = |c: CstTree| is_opening_tag(c);
    assert forall|j: int| 0 <= j < node.children.len() implies !p(#[trigger] node.children[j]) by {
        assert(node.children[j].node_type != "start_tag"@);
        assert(node.children[j].node_type != "self_closing_tag"@);
    }
    law_search_finds_nothing(node.children, p);
    if is_first_of_type(node.children, "tag_name"@, k) {
        law_name_is_looked_up(node.children, "tag_name"@, k);
    }
    if none_of_type(node.children, "tag_name"@) {
        law_no_name_is_looked_up(node.children, "tag_name"@);
    }
}

/// Law: an attribute is labelled with the whole text of the first child that tells its name, and
/// with its node type where none does.
pub proof fn law_attribute_label_is_the_name(node: CstTree, k: int)
    requires
        node.node_type == "attribute"@,
        node.children.len() > 0,
    ensures
        tells_first(node.children, "attribute_name"@, set!["="@], k) ==> reads_as(
            node.children[k],
            label(node, None),
        ),
        none_tells(node.children, "attribute_name"@, set!["="@]) ==> label(node, None)
            == node.node_type,
{
    let p = |c: CstTree| names_attribute(c);
    lemma_label_types_differ();
    assert forall|c: CstTree| #[trigger] p(c) == !tells_nothing(
        c,
        "attribute_name"@,
        set!["="@],
    ) by {}
    if tells_first(node.children, "attribute_name"@, set!["="@], k) {
        law_search_stops_at_first(node.children, p, k);
    }
    if none_tells(node.children, "attribute_name"@, set!["="@]) {
        law_search_finds_nothing(node.children, p);
    }
}

/// A leaf with text.
pub open spec fn is_written_leaf(node: CstTree) -> bool {
    node.children.len() == 0 && node.text is Some && node.text->0.len() > 0
}

/// Law: a stray end tag is labelled with a slash and the whole text of its first leaf with text,
/// and with its node type where it has no such leaf.
pub proof fn law_stray_end_tag_label(node: CstTree, k: int)
    requires
        node.node_type == "erroneous_end_tag"@,
        0 <= k < node.children.len(),
    ensures
        is_written_leaf(node.children[k]) && (forall|j: int|
            0 <= j < k ==> !is_written_leaf(#[trigger] node.children[j])) ==> label(node, None)
            == seq!['/'] + node.children[k].text->0,
        (forall|j: int|
            0 <= j < node.children.len() ==> !is_written_leaf(#[trigger] node.children[j])) ==> label(
            node,
            None,
        ) == node.node_type,
{
    let p = |c: CstTree| has_leaf_text(c);
    lemma_label_types_differ();
    reveal_strlit("/");
    assert("/"@ =~= seq!['/']);
    assert forall|c: CstTree| #[trigger] p(c) == is_written_leaf(c) by {}
    if is_written_leaf(node.children[k]) && (forall|j: int|
        0 <= j < k ==> !is_written_leaf(#[trigger] node.children[j])) {
        law_search_stops_at_first(node.children, p, k);
    }
    if forall|j: int|
        0 <= j < node.children.len() ==> !is_written_leaf(#[trigger] node.children[j]) {
        law_search_finds_nothing(node.children, p);
    }
}

/// Law: every node of another type that has children, a doctype among them, is labelled with its
/// type.
pub proof fn law_other_label_is_the_type(node: CstTree)
    requires
        node.children.len() > 0,
        node.node_type != "element"@,
        node.node_type != "script_element"@,
        node.node_type != "style_element"@,
        node.node_type != "start_tag"@,
        node.node_type != "self_closing_tag"@,
        node.node_type != "attribute"@,
        node.node_type != "erroneous_end_tag"@,
    ensures
        label(node, None) == node.node_type,
{
}

/// The node types that labels go by are pairwise different where they are told apart.
proof fn lemma_label_types_differ()
    ensures
        "start_tag"@ != "element"@,
        "start_tag"@ != "script_element"@,
        "start_tag"@ != "style_element"@,
        "self_closing_tag"@ != "element"@,
        "self_closing_tag"@ != "script_element"@,
        "self_closing_tag"@ != "style_element"@,
        "attribute"@ != "element"@,
        "attribute"@ != "script_element"@,
        "attribute"@ != "style_element"@,
        "attribute"@ != "start_tag"@,
        "attribute"@ != "self_closing_tag"@,
        "erroneous_end_tag"@ != "element"@,
        "erroneous_end_tag"@ != "script_element"@,
        "erroneous_end_tag"@ != "style_element"@,
        "erroneous_end_tag"@ != "start_tag"@,
        "erroneous_end_tag"@ != "self_closing_tag"@,
        "erroneous_end_tag"@ != "attribute"@,
        "erroneous_end_tag"@ != "doctype"@,
{
    reveal_strlit("element");
    reveal_strlit("script_element");
    reveal_strlit("style_element");
    reveal_strlit("start_tag");
    reveal_strlit("self_closing_tag");
    reveal_strlit("attribute");
    reveal_strlit("doctype");
    reveal_strlit("erroneous_end_tag");
    assert("element"@.len() == 7);
    assert("script_element"@.len() == 14);
    assert("style_element"@.len() == 13);
    assert("start_tag"@.len() == 9);
    assert("self_closing_tag"@.len() == 16);
    assert("attribute"@.len() == 9);
    assert("doctype"@.len() == 7);
    assert("erroneous_end_tag"@.len() == 17);
    assert("start_tag"@[0] == 's');
    assert("attribute"@[0] == 'a');
}

/// Law: the labels that are returned are those of the nodes' contents, and a tag gets the same one
/// from both functions.
pub proof fn law_labels_are_returned(
    node: CstNode,
    literal: Option<String>,
    from_tag: String,
    returned: String,
)
    requires
        call_ensures(tag_name_from_tag, (&node,), from_tag),
        call_ensures(label_for, (&node, literal), returned),
    ensures
        from_tag@ == tag_label(node@),
        returned@ == label(node@, text_view(literal)),
        (node@.node_type == "start_tag"@ || node@.node_type == "self_closing_tag"@)
            && node@.children.len() > 0 && literal is None ==> returned@ == from_tag@,
{
    lemma_label_types_differ();
}

} // verus!
