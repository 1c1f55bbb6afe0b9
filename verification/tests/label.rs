use html_parser::cst::{attribute_name_of, tag_name_of, CstNode};
use html_parser::label::{label_for, tag_name_from_tag};
use html_parser::normalize::normalize_cst;
use html_parser::tables::{is_boolean_attribute, is_semantic, is_trivia, is_void_element};

fn leaf(node_type: &str, text: &str) -> CstNode {
    CstNode {
        node_type: node_type.to_string(),
        text: Some(text.to_string()),
        children: vec![],
    }
}

fn branch(node_type: &str, children: Vec<CstNode>) -> CstNode {
    CstNode {
        node_type: node_type.to_string(),
        text: None,
        children,
    }
}

fn tag(node_type: &str, name: &str) -> CstNode {
    branch(
        node_type,
        vec![leaf("<", "<"), leaf("tag_name", name), leaf(">", ">")],
    )
}

#[test]
fn leaves_are_labelled_with_their_text() {
    assert_eq!(label_for(&leaf("text", "hello"), None), "hello");
    assert_eq!(label_for(&leaf("doctype", "<!x>"), None), "<!x>");
    assert_eq!(label_for(&branch("element", vec![]), None), "");
    assert_eq!(
        label_for(&leaf("text", "hello"), Some("other".to_string())),
        "hello"
    );
}

#[test]
fn literal_containers_are_labelled_with_their_literal() {
    let node = branch("element", vec![tag("start_tag", "p")]);
    assert_eq!(label_for(&node, Some("\"x\"".to_string())), "\"x\"");
    assert_eq!(label_for(&node, Some(String::new())), "");
}

#[test]
fn elements_are_labelled_with_their_tag_name() {
    for kind in ["element", "script_element", "style_element"] {
        let open = branch(kind, vec![leaf("x", "y"), tag("start_tag", "p")]);
        assert_eq!(label_for(&open, None), "p");
        let closed = branch(kind, vec![tag("self_closing_tag", "br"), tag("start_tag", "p")]);
        assert_eq!(label_for(&closed, None), "br");
        let direct = branch(kind, vec![leaf("x", "y"), leaf("tag_name", "q")]);
        assert_eq!(label_for(&direct, None), "q");
        let neither = branch(kind, vec![leaf("x", "y")]);
        assert_eq!(label_for(&neither, None), kind);
    }
}

#[test]
fn tags_are_labelled_with_their_first_name() {
    assert_eq!(label_for(&tag("start_tag", "p"), None), "p");
    assert_eq!(label_for(&tag("self_closing_tag", "br"), None), "br");
    let odd = branch("start_tag", vec![leaf("/", "/"), leaf("x", "y"), leaf("tag_name", "p")]);
    assert_eq!(tag_name_from_tag(&odd), "y");
    let punctuation = branch(
        "start_tag",
        vec![leaf("<", "<"), leaf("/", "/"), leaf(">", ">"), leaf("x", "")],
    );
    assert_eq!(tag_name_from_tag(&punctuation), "start_tag");
    let untold = branch("start_tag", vec![branch("tag_name", vec![])]);
    assert_eq!(tag_name_from_tag(&untold), "");
}

#[test]
fn attributes_are_labelled_with_their_name() {
    let node = branch(
        "attribute",
        vec![
            leaf("=", "="),
            leaf("attribute_name", "href"),
            leaf("attribute_value", "x"),
        ],
    );
    assert_eq!(label_for(&node, None), "href");
    let odd = branch("attribute", vec![leaf("=", "="), leaf("attribute_value", "x")]);
    assert_eq!(label_for(&odd, None), "x");
    let none = branch("attribute", vec![leaf("=", "="), leaf("x", "")]);
    assert_eq!(label_for(&none, None), "attribute");
}

#[test]
fn stray_end_tags_are_labelled_with_a_slash() {
    let node = branch(
        "erroneous_end_tag",
        vec![leaf("x", ""), leaf("erroneous_end_tag_name", "b")],
    );
    assert_eq!(label_for(&node, None), "/b");
    let none = branch("erroneous_end_tag", vec![leaf("x", "")]);
    assert_eq!(label_for(&none, None), "erroneous_end_tag");
}

#[test]
fn other_nodes_are_labelled_with_their_type() {
    assert_eq!(label_for(&branch("doctype", vec![leaf("x", "y")]), None), "doctype");
    assert_eq!(label_for(&branch("document", vec![leaf("x", "y")]), None), "document");
}

#[test]
fn labels_survive_normalisation() {
    let attribute = branch(
        "attribute",
        vec![
            leaf("attribute_name", "checked"),
            leaf("=", "="),
            leaf("attribute_value", "1"),
        ],
    );
    assert_eq!(label_for(&normalize_cst(&attribute), None), "checked");
    let element = branch("element", vec![tag("self_closing_tag", "br")]);
    assert_eq!(label_for(&normalize_cst(&element), None), "br");
    assert_eq!(label_for(&element, None), "br");
}

#[test]
fn names_are_looked_up_by_type() {
    let node = branch(
        "start_tag",
        vec![leaf("x", "y"), leaf("tag_name", "p"), leaf("tag_name", "q")],
    );
    assert_eq!(tag_name_of(&node), Some("p".to_string()));
    assert_eq!(attribute_name_of(&node), None);
    let attribute = branch("attribute", vec![branch("attribute_name", vec![])]);
    assert_eq!(attribute_name_of(&attribute), Some(String::new()));
    assert_eq!(tag_name_of(&leaf("tag_name", "p")), None);
}

#[test]
fn vocabularies() {
    for kind in [
        "document",
        "doctype",
        "element",
        "start_tag",
        "self_closing_tag",
        "attribute",
        "script_element",
        "style_element",
        "erroneous_end_tag",
    ] {
        assert!(is_semantic(kind));
        assert!(!is_trivia(kind));
    }
    // Prose is left to the parent element.
    for kind in ["text", "raw_text", "comment", "end_tag", "tag_name", "", "Element"] {
        assert!(!is_semantic(kind));
    }
    assert!(is_trivia("comment"));
    assert!(!is_trivia("text"));
    assert!(is_void_element("wbr"));
    assert!(!is_void_element("div"));
    assert!(is_boolean_attribute("open"));
    assert!(!is_boolean_attribute("OPEN"));
}

/// `node` without what lies more than `depth` levels below it.
fn cut(node: &CstNode, depth: usize) -> CstNode {
    let mut children = Vec::new();
    if depth > 0 {
        for child in &node.children {
            children.push(cut(child, depth - 1));
        }
    }
    CstNode {
        node_type: node.node_type.clone(),
        text: node.text.clone(),
        children,
    }
}

#[test]
fn labels_depend_on_three_levels() {
    // The first child of the tag is no leaf, so it does not name the tag.
    let inner = CstNode {
        node_type: "x".to_string(),
        text: Some("y".to_string()),
        children: vec![branch("z", vec![leaf("w", "w")])],
    };
    let element = branch(
        "element",
        vec![branch("start_tag", vec![inner, leaf("tag_name", "p")])],
    );
    assert_eq!(label_for(&element, None), "p");
    assert_eq!(label_for(&cut(&element, 3), None), "p");
    assert_eq!(label_for(&cut(&element, 2), None), "y");
}
