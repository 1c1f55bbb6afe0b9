//! The fixed vocabularies that normalisation and labelling go by.
use crate::text::same_text;
use vstd::prelude::*;

verus! {

/// HTML void elements: they never have end tags, and the self-closing slash (`<br/>` against
/// `<br>`) carries no meaning on them.
pub open spec fn void_elements() -> Set<Seq<char>> {
    set![
        "area"@,
        "base"@,
        "br"@,
        "col"@,
        "embed"@,
        "hr"@,
        "img"@,
        "input"@,
        "link"@,
        "meta"@,
        "param"@,
        "source"@,
        "track"@,
        "wbr"@,
    ]
}

/// HTML boolean attributes: the presence of the attribute matters, not its value. `disabled`,
/// `disabled="disabled"` and `disabled=""` are equivalent spellings.
pub open spec fn boolean_attributes() -> Set<Seq<char>> {
    set![
        "allowfullscreen"@,
        "async"@,
        "autofocus"@,
        "autoplay"@,
        "checked"@,
        "controls"@,
        "default"@,
        "defer"@,
        "disabled"@,
        "formnovalidate"@,
        "hidden"@,
        "ismap"@,
        "itemscope"@,
        "loop"@,
        "multiple"@,
        "muted"@,
        "nomodule"@,
        "novalidate"@,
        "open"@,
        "playsinline"@,
        "readonly"@,
        "required"@,
        "reversed"@,
        "selected"@,
        "truespeed"@,
    ]
}

/// The node types that carry no semantic information and are dropped.
pub open spec fn trivia_types() -> Set<Seq<char>> {
    set!["comment"@]
}

/// The node types that become nodes of the semantic tree: the document, its elements, tags and
/// attributes, embedded code blocks, and the error recovery node, so that errors stay visible.
/// Raw text is not among them: edits of prose show on the parent element.
pub open spec fn semantic_types() -> Set<Seq<char>> {
    set![
        "document"@,
        "doctype"@,
        "element"@,
        "start_tag"@,
        "self_closing_tag"@,
        "attribute"@,
        "script_element"@,
        "style_element"@,
        "erroneous_end_tag"@,
    ]
}

/// Whether `name` is the tag name of a void element.
pub fn is_void_element(name: &str) -> (r: bool)
    ensures
        r == void_elements().contains(name@),
{
    same_text(name, "area")
        || same_text(name, "base")
        || same_text(name, "br")
        || same_text(name, "col")
        || same_text(name, "embed")
        || same_text(name, "hr")
        || same_text(name, "img")
        || same_text(name, "input")
        || same_text(name, "link")
        || same_text(name, "meta")
        || same_text(name, "param")
        || same_text(name, "source")
        || same_text(name, "track")
        || same_text(name, "wbr")
}

/// Whether `name`, in lower case, is a boolean attribute.
pub fn is_boolean_attribute(name: &str) -> (r: bool)
    ensures
        r == boolean_attributes().contains(name@),
{
    same_text(name, "allowfullscreen")
        || same_text(name, "async")
        || same_text(name, "autofocus")
        || same_text(name, "autoplay")
        || same_text(name, "checked")
        || same_text(name, "controls")
        || same_text(name, "default")
        || same_text(name, "defer")
        || same_text(name, "disabled")
        || same_text(name, "formnovalidate")
        || same_text(name, "hidden")
        || same_text(name, "ismap")
        || same_text(name, "itemscope")
        || same_text(name, "loop")
        || same_text(name, "multiple")
        || same_text(name, "muted")
        || same_text(name, "nomodule")
        || same_text(name, "novalidate")
        || same_text(name, "open")
        || same_text(name, "playsinline")
        || same_text(name, "readonly")
        || same_text(name, "required")
        || same_text(name, "reversed")
        || same_text(name, "selected")
        || same_text(name, "truespeed")
}

/// Whether nodes of type `node_type` are dropped.
pub fn is_trivia(node_type: &str) -> (r: bool)
    ensures
        r == trivia_types().contains(node_type@),
{
    same_text(node_type, "comment")
}

/// Whether nodes of type `node_type` become nodes of the semantic tree.
pub fn is_semantic(node_type: &str) -> (r: bool)
    ensures
        r == semantic_types().contains(node_type@),
{
    same_text(node_type, "document")
        || same_text(node_type, "doctype")
        || same_text(node_type, "element")
        || same_text(node_type, "start_tag")
        || same_text(node_type, "self_closing_tag")
        || same_text(node_type, "attribute")
        || same_text(node_type, "script_element")
        || same_text(node_type, "style_element")
        || same_text(node_type, "erroneous_end_tag")
}

/// Law: no node type is both dropped and shown.
pub proof fn law_trivia_is_not_semantic()
    ensures
        trivia_types().disjoint(semantic_types()),
{
    reveal_strlit("comment");
    reveal_strlit("document");
    reveal_strlit("doctype");
    reveal_strlit("element");
    reveal_strlit("start_tag");
    reveal_strlit("self_closing_tag");
    reveal_strlit("attribute");
    reveal_strlit("script_element");
    reveal_strlit("style_element");
    reveal_strlit("erroneous_end_tag");
    assert("comment"@.len() == 7);
    assert("comment"@[0] == 'c');
    assert("doctype"@[0] == 'd');
    assert("element"@[0] == 'e');
}

/// A name of lower-case letters, at least two of them.
pub open spec fn is_plain_name(name: Seq<char>) -> bool {
    &&& name.len() >= 2
    &&& forall|i: int| 0 <= i < name.len() ==> 'a' <= #[trigger] name[i] <= 'z'
}

/// Law: the void elements are these, and no others.
pub proof fn law_void_elements_are_these(t: Seq<char>)
    ensures
        void_elements().contains(t) <==> (t == "area"@
            || t == "base"@
            || t == "br"@
            || t == "col"@
            || t == "embed"@
            || t == "hr"@
            || t == "img"@
            || t == "input"@
            || t == "link"@
            || t == "meta"@
            || t == "param"@
            || t == "source"@
            || t == "track"@
            || t == "wbr"@),
{
}

/// Law: the boolean attributes are these, and no others.
pub proof fn law_boolean_attributes_are_these(t: Seq<char>)
    ensures
        boolean_attributes().contains(t) <==> (t == "allowfullscreen"@
            || t == "async"@
            || t == "autofocus"@
            || t == "autoplay"@
            || t == "checked"@
            || t == "controls"@
            || t == "default"@
            || t == "defer"@
            || t == "disabled"@
            || t == "formnovalidate"@
            || t == "hidden"@
            || t == "ismap"@
            || t == "itemscope"@
            || t == "loop"@
            || t == "multiple"@
            || t == "muted"@
            || t == "nomodule"@
            || t == "novalidate"@
            || t == "open"@
            || t == "playsinline"@
            || t == "readonly"@
            || t == "required"@
            || t == "reversed"@
            || t == "selected"@
            || t == "truespeed"@),
{
}

/// Law: comments are trivia, and nothing else is.
pub proof fn law_only_comments_are_trivia(t: Seq<char>)
    ensures
        trivia_types().contains(t) <==> t == "comment"@,
{
}

/// Law: the semantic node types are these, and no others.
pub proof fn law_semantic_types_are_these(t: Seq<char>)
    ensures
        semantic_types().contains(t) <==> (t == "document"@
            || t == "doctype"@
            || t == "element"@
            || t == "start_tag"@
            || t == "self_closing_tag"@
            || t == "attribute"@
            || t == "script_element"@
            || t == "style_element"@
            || t == "erroneous_end_tag"@),
{
}

/// Law: every void element has a name of lower-case letters.
pub proof fn law_void_elements_have_plain_names(t: Seq<char>)
    requires
        void_elements().contains(t),
    ensures
        is_plain_name(t),
{
    reveal_strlit("area");
    reveal_strlit("base");
    reveal_strlit("br");
    reveal_strlit("col");
    reveal_strlit("embed");
    reveal_strlit("hr");
    reveal_strlit("img");
    reveal_strlit("input");
    reveal_strlit("link");
    reveal_strlit("meta");
    reveal_strlit("param");
    reveal_strlit("source");
    reveal_strlit("track");
    reveal_strlit("wbr");
}

/// Law: every boolean attribute has a name of lower-case letters. So no name with a hyphen, such
/// as `data-id`, is one of them, and no empty name.
pub proof fn law_boolean_attributes_have_plain_names(t: Seq<char>)
    requires
        boolean_attributes().contains(t),
    ensures
        is_plain_name(t),
{
    reveal_strlit("allowfullscreen");
    reveal_strlit("async");
    reveal_strlit("autofocus");
    reveal_strlit("autoplay");
    reveal_strlit("checked");
    reveal_strlit("controls");
    reveal_strlit("default");
    reveal_strlit("defer");
    reveal_strlit("disabled");
    reveal_strlit("formnovalidate");
    reveal_strlit("hidden");
    reveal_strlit("ismap");
    reveal_strlit("itemscope");
    reveal_strlit("loop");
    reveal_strlit("multiple");
    reveal_strlit("muted");
    reveal_strlit("nomodule");
    reveal_strlit("novalidate");
    reveal_strlit("open");
    reveal_strlit("playsinline");
    reveal_strlit("readonly");
    reveal_strlit("required");
    reveal_strlit("reversed");
    reveal_strlit("selected");
    reveal_strlit("truespeed");
}

/// Law: nothing that the grammar makes of prose, of names, of values, of end tags or of comments is
/// semantic.
pub proof fn law_content_is_not_semantic()
    ensures
        !semantic_types().contains("text"@),
        !semantic_types().contains("raw_text"@),
        !semantic_types().contains("entity"@),
        !semantic_types().contains("attribute_name"@),
        !semantic_types().contains("attribute_value"@),
        !semantic_types().contains("quoted_attribute_value"@),
        !semantic_types().contains("tag_name"@),
        !semantic_types().contains("end_tag"@),
        !semantic_types().contains("erroneous_end_tag_name"@),
        !semantic_types().contains("comment"@),
{
    reveal_strlit("text");
    reveal_strlit("raw_text");
    reveal_strlit("entity");
    reveal_strlit("attribute_name");
    reveal_strlit("attribute_value");
    reveal_strlit("quoted_attribute_value");
    reveal_strlit("tag_name");
    reveal_strlit("end_tag");
    reveal_strlit("erroneous_end_tag_name");
    reveal_strlit("comment");
    reveal_strlit("document");
    reveal_strlit("doctype");
    reveal_strlit("element");
    reveal_strlit("start_tag");
    reveal_strlit("self_closing_tag");
    reveal_strlit("attribute");
    reveal_strlit("script_element");
    reveal_strlit("style_element");
    reveal_strlit("erroneous_end_tag");
    assert("text"@.len() == 4);
    assert("raw_text"@.len() == 8);
    assert("entity"@.len() == 6);
    assert("attribute_name"@.len() == 14);
    assert("attribute_value"@.len() == 15);
    assert("quoted_attribute_value"@.len() == 22);
    assert("tag_name"@.len() == 8);
    assert("end_tag"@.len() == 7);
    assert("erroneous_end_tag_name"@.len() == 22);
    assert("comment"@.len() == 7);
    assert("document"@.len() == 8);
    assert("doctype"@.len() == 7);
    assert("element"@.len() == 7);
    assert("start_tag"@.len() == 9);
    assert("self_closing_tag"@.len() == 16);
    assert("attribute"@.len() == 9);
    assert("script_element"@.len() == 14);
    assert("style_element"@.len() == 13);
    assert("erroneous_end_tag"@.len() == 17);
    assert("raw_text"@[0] == 'r');
    assert("document"@[0] == 'd');
    assert("tag_name"@[0] == 't');
    assert("attribute_name"@[0] == 'a');
    assert("script_element"@[0] == 's');
    assert("end_tag"@[1] == 'n');
    assert("element"@[1] == 'l');
    assert("comment"@[0] == 'c');
    assert("doctype"@[0] == 'd');
    assert("element"@[0] == 'e');
}

/// Law: each test on a name answers by its table and by nothing else.
pub proof fn law_tests_go_by_the_tables(
    name: &str,
    void: bool,
    boolean: bool,
    trivia: bool,
    semantic: bool,
)
    requires
        call_ensures(is_void_element, (name,), void),
        call_ensures(is_boolean_attribute, (name,), boolean),
        call_ensures(is_trivia, (name,), trivia),
        call_ensures(is_semantic, (name,), semantic),
    ensures
        void <==> void_elements().contains(name@),
        boolean <==> boolean_attributes().contains(name@),
        trivia <==> name@ == "comment"@,
        semantic <==> semantic_types().contains(name@),
        !(trivia && semantic),
{
    law_trivia_is_not_semantic();
}

} // verus!
