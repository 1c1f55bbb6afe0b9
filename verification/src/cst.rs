//! Concrete syntax trees and the look-ups on their nodes.
use crate::text::same_text;
use vstd::prelude::*;

verus! {

/// A node of the concrete syntax tree of a document.
#[derive(Debug, PartialEq, Eq)]
pub struct CstNode {
    /// The grammar's name for this kind of node.
    pub node_type: String,
    /// The captured source text, where the node carries any.
    pub text: Option<String>,
    /// The child nodes, in source order.
    pub children: Vec<CstNode>,
}

/// The mathematical content of a [`CstNode`].
#[verifier::ext_equal]
pub struct CstTree {
    pub node_type: Seq<char>,
    pub text: Option<Seq<char>>,
    pub children: Seq<CstTree>,
}

impl CstTree {
    /// A leaf has no children.
    pub open spec fn is_leaf(self) -> bool {
        self.children.len() == 0
    }

    /// The captured text, or the empty text where there is none.
    pub open spec fn text_or_empty(self) -> Seq<char> {
        match self.text {
            Some(text) => text,
            None => seq![],
        }
    }
}

/// The content of an optional string.
pub open spec fn text_view(text: Option<String>) -> Option<Seq<char>> {
    match text {
        Some(t) => Some(t@),
        None => None,
    }
}

impl CstNode {
    /// The content of the node and of everything below it.
    pub open spec fn tree(&self) -> CstTree
        decreases self,
    {
        CstTree {
            node_type: self.node_type@,
            text: text_view(self.text),
            children: Seq::new(
                self.children@.len(),
                |i: int|
                    if 0 <= i < self.children@.len() {
                        self.children@[i].tree()
                    } else {
                        arbitrary()
                    },
            ),
        }
    }
}

impl View for CstNode {
    type V = CstTree;

    open spec fn view(&self) -> CstTree {
        self.tree()
    }
}

/// The first of `nodes` for which `p` holds.
pub open spec fn first_where(nodes: Seq<CstTree>, p: spec_fn(CstTree) -> bool) -> Option<CstTree>
    decreases nodes.len(),
{
    if nodes.len() == 0 {
        None
    } else if p(nodes[0]) {
        Some(nodes[0])
    } else {
        first_where(nodes.drop_first(), p)
    }
}

/// The first of `nodes` that is of type `node_type`.
pub open spec fn first_of_type(nodes: Seq<CstTree>, node_type: Seq<char>) -> Option<CstTree> {
    first_where(nodes, |n: CstTree| n.node_type == node_type)
}

/// The text of the first of `nodes` that is of type `node_type`.
pub open spec fn text_of_first(nodes: Seq<CstTree>, node_type: Seq<char>) -> Option<Seq<char>> {
    match first_of_type(nodes, node_type) {
        Some(n) => Some(n.text_or_empty()),
        None => None,
    }
}

impl CstNode {
    /// A leaf has no children.
    pub fn is_leaf(&self) -> (r: bool)
        ensures
            r == self@.is_leaf(),
            r == (self.children@.len() == 0),
    {
        self.children.len() == 0
    }

    /// The captured text, or the empty text where there is none.
    pub fn text_or_empty(&self) -> (r: &str)
        ensures
            r@ == self@.text_or_empty(),
            match self.text {
                Some(text) => r@ == text@,
                None => r@.len() == 0,
            },
    {
        match &self.text {
            Some(text) => text.as_str(),
            None => {
                proof {
                    reveal_strlit("");
                    assert(""@ =~= seq![]);
                }
                ""
            },
        }
    }

    /// Whether the node is of type `node_type`.
    pub fn has_type(&self, node_type: &str) -> (r: bool)
        ensures
            r == (self@.node_type == node_type@),
            r == (self.node_type@ == node_type@),
    {
        same_text(self.node_type.as_str(), node_type)
    }
}

/// The first child of `node` that passes `test`, which decides `p`.
pub(crate) fn find_child<'a, F: Fn(&CstNode) -> bool>(
    node: &'a CstNode,
    test: F,
    Ghost(p): Ghost<spec_fn(CstTree) -> bool>,
) -> (r: Option<&'a CstNode>)
    requires
        forall|c: &CstNode| call_requires(test, (c,)),
        forall|c: &CstNode, b: bool| call_ensures(test, (c,), b) ==> b == p(c@),
    ensures
        first_where(node@.children, p) == (match r {
            Some(c) => Some(c@),
            None => None,
        }),
{
    let ghost nodes = node@.children;
    let mut i: usize = 0;
    assert(nodes.skip(0) =~= nodes);
    while i < node.children.len()
        invariant
            i <= node.children@.len(),
            nodes == node@.children,
            forall|c: &CstNode| call_requires(test, (c,)),
            forall|c: &CstNode, b: bool| call_ensures(test, (c,), b) ==> b == p(c@),
            first_where(nodes, p) == first_where(nodes.skip(i as int), p),
        decreases node.children@.len() - i,
    {
        let child = &node.children[i];
        assert(nodes.skip(i as int)[0] == child@);
        if test(child) {
            return Some(child);
        }
        assert(nodes.skip(i as int).drop_first() =~= nodes.skip(i + 1));
        i = i + 1;
    }
    None
}

/// The text of the first child of `node` that is of type `node_type`.
fn child_text(node: &CstNode, node_type: &str) -> (r: Option<String>)
    ensures
        text_view(r) == text_of_first(node@.children, node_type@),
{
    let test = |c: &CstNode| -> (b: bool)
        ensures
            b == (c@.node_type == node_type@),
        { c.has_type(node_type) };
    match find_child(node, test, Ghost(|n: CstTree| n.node_type == node_type@)) {
        Some(child) => Some(child.text_or_empty().to_owned()),
        None => None,
    }
}

/// The tag name of a `start_tag` or `self_closing_tag` node.
pub fn tag_name_of(node: &CstNode) -> (r: Option<String>)
    ensures
        text_view(r) == text_of_first(node@.children, "tag_name"@),
{
    child_text(node, "tag_name")
}

/// The attribute name of an `attribute` node.
pub fn attribute_name_of(node: &CstNode) -> (r: Option<String>)
    ensures
        text_view(r) == text_of_first(node@.children, "attribute_name"@),
{
    child_text(node, "attribute_name")
}

/// Law: the content of a node holds its type, its text and the contents of its children, each at
/// its place, and nothing is lost.
pub proof fn law_content_is_faithful(node: CstNode)
    ensures
        node@.node_type == node.node_type@,
        node.text matches Some(text) ==> node@.text == Some(text@),
        node.text is None ==> node@.text is None,
        node@.children.len() == node.children@.len(),
        forall|i: int|
            0 <= i < node.children@.len() ==> #[trigger] node@.children[i] == node.children@[i]@,
{
}

/// Law: the content of an optional string is the text that it holds, and there is none where it
/// holds none.
pub proof fn law_text_view_is_faithful(text: Option<String>)
    ensures
        text matches Some(t) ==> text_view(text) == Some(t@),
        text is None ==> text_view(text) is None,
{
}

/// Whether `node` reads as `text`: it carries that text, or none where `text` is empty.
pub open spec fn reads_as(node: CstTree, text: Seq<char>) -> bool {
    node.text == Some(text) || (node.text is None && text.len() == 0)
}

/// Whether the node at `k` is of type `node_type`, and none before it is.
pub open spec fn is_first_of_type(nodes: Seq<CstTree>, node_type: Seq<char>, k: int) -> bool {
    &&& 0 <= k < nodes.len()
    &&& nodes[k].node_type == node_type
    &&& forall|j: int| 0 <= j < k ==> (#[trigger] nodes[j]).node_type != node_type
}

/// Whether none of `nodes` is of type `node_type`.
pub open spec fn none_of_type(nodes: Seq<CstTree>, node_type: Seq<char>) -> bool {
    forall|j: int| 0 <= j < nodes.len() ==> (#[trigger] nodes[j]).node_type != node_type
}

/// Law: the text of a node is the one that it reads as, and there is just one.
pub proof fn law_reads_as_its_text(node: CstTree, text: Seq<char>)
    ensures
        reads_as(node, text) <==> node.text_or_empty() == text,
{
    if text.len() == 0 {
        assert(text =~= seq![]);
    }
}

/// Law: a search stops at the node that passes the test and has none before it that does.
pub proof fn law_search_stops_at_first(nodes: Seq<CstTree>, p: spec_fn(CstTree) -> bool, k: int)
    requires
        0 <= k < nodes.len(),
        p(nodes[k]),
        forall|j: int| 0 <= j < k ==> !p(#[trigger] nodes[j]),
    ensures
        first_where(nodes, p) == Some(nodes[k]),
    decreases k,
{
    if k > 0 {
        assert(!p(nodes[0]));
        let rest = nodes.drop_first();
        assert forall|j: int| 0 <= j < k - 1 implies !p(#[trigger] rest[j]) by {
            assert(rest[j] == nodes[j + 1]);
        }
        law_search_stops_at_first(rest, p, k - 1);
    }
}

/// Law: a search finds nothing where no node passes the test.
pub proof fn law_search_finds_nothing(nodes: Seq<CstTree>, p: spec_fn(CstTree) -> bool)
    requires
        forall|j: int| 0 <= j < nodes.len() ==> !p(#[trigger] nodes[j]),
    ensures
        first_where(nodes, p) is None,
    decreases nodes.len(),
{
    if nodes.len() > 0 {
        assert(!p(nodes[0]));
        let rest = nodes.drop_first();
        assert forall|j: int| 0 <= j < rest.len() implies !p(#[trigger] rest[j]) by {
            assert(rest[j] == nodes[j + 1]);
        }
        law_search_finds_nothing(rest, p);
    }
}

/// Law: the name that is looked up by type is the whole text of the first node of that type.
pub proof fn law_name_is_looked_up(nodes: Seq<CstTree>, node_type: Seq<char>, k: int)
    requires
        is_first_of_type(nodes, node_type, k),
    ensures
        first_of_type(nodes, node_type) == Some(nodes[k]),
        text_of_first(nodes, node_type) matches Some(name) && reads_as(nodes[k], name),
{
    law_search_stops_at_first(nodes, |n: CstTree| n.node_type == node_type, k);
}

/// Law: where no node is of the type, no name is found.
pub proof fn law_no_name_is_looked_up(nodes: Seq<CstTree>, node_type: Seq<char>)
    requires
        none_of_type(nodes, node_type),
    ensures
        first_of_type(nodes, node_type) is None,
        text_of_first(nodes, node_type) is None,
{
    law_search_finds_nothing(nodes, |n: CstTree| n.node_type == node_type);
}

/// Law: the names of tags and attributes are looked up among the children, each by its own type.
pub proof fn law_names_are_looked_up_by_type(
    node: CstNode,
    tag: Option<String>,
    attribute: Option<String>,
)
    requires
        call_ensures(tag_name_of, (&node,), tag),
        call_ensures(attribute_name_of, (&node,), attribute),
    ensures
        forall|k: int|
            is_first_of_type(node@.children, "tag_name"@, k) ==> tag is Some && reads_as(
                #[trigger] node@.children[k],
                tag->0@,
            ),
        none_of_type(node@.children, "tag_name"@) ==> tag is None,
        forall|k: int|
            is_first_of_type(node@.children, "attribute_name"@, k) ==> attribute is Some
                && reads_as(#[trigger] node@.children[k], attribute->0@),
        none_of_type(node@.children, "attribute_name"@) ==> attribute is None,
{
    let nodes = node@.children;
    if none_of_type(nodes, "tag_name"@) {
        law_no_name_is_looked_up(nodes, "tag_name"@);
    }
    if none_of_type(nodes, "attribute_name"@) {
        law_no_name_is_looked_up(nodes, "attribute_name"@);
    }
    assert forall|k: int| is_first_of_type(nodes, "tag_name"@, k) implies tag is Some && reads_as(
        #[trigger] nodes[k],
        tag->0@,
    ) by {
        law_name_is_looked_up(nodes, "tag_name"@, k);
    }
    assert forall|k: int| is_first_of_type(nodes, "attribute_name"@, k) implies attribute is Some
        && reads_as(#[trigger] nodes[k], attribute->0@) by {
        law_name_is_looked_up(nodes, "attribute_name"@, k);
    }
}

} // verus!
