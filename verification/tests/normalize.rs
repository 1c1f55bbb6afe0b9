use html_parser::cst::CstNode;
use html_parser::normalize::{kept_children, normalize_cst};
use html_parser::parse;

/// The named nodes of a syntax tree, with the text of the leaves.
fn read(node: tree_sitter::Node, source: &str) -> CstNode {
    let mut children = Vec::new();
    let mut cursor = node.walk();
    for child in node.named_children(&mut cursor) {
        children.push(read(child, source));
    }
    let text = if children.is_empty() {
        Some(source[node.start_byte()..node.end_byte()].to_string())
    } else {
        None
    };
    CstNode {
        node_type: node.kind().to_string(),
        text,
        children,
    }
}

fn parse_source(source: &str) -> Result<CstNode, String> {
    let tree = parse::parse_source(source)?;
    Ok(read(tree.root_node(), source))
}

fn walk<'a>(node: &'a CstNode, out: &mut Vec<&'a CstNode>) {
    out.push(node);
    for child in &node.children {
        walk(child, out);
    }
}

fn leaf(node_type: &str, text: &str) -> CstNode {
    CstNode {
        node_type: node_type.to_string(),
        text: Some(text.to_string()),
        children: vec![],
    }
}

fn branch(node_type: &str, children: Vec<CstNode>) -> CstNode {
    CstNode {
        node_type: node_type.to_string(),
        text: None,
        children,
    }
}

#[test]
fn void_element_self_closing_and_bare_produce_same_hash() {
    let bare = parse_source("<br>\n").unwrap();
    let self_closing = parse_source("<br />\n").unwrap();
    let bare_norm = normalize_cst(&bare);
    let sc_norm = normalize_cst(&self_closing);
    // Equal trees have equal hashes.
    assert_eq!(
        bare_norm, sc_norm,
        "void element <br> and <br/> must hash identically"
    );
    assert_ne!(bare, self_closing);
}

#[test]
fn void_element_hr_self_closing_and_bare_produce_same_hash() {
    let bare = parse_source("<hr>\n").unwrap();
    let self_closing = parse_source("<hr/>\n").unwrap();
    assert_eq!(normalize_cst(&bare), normalize_cst(&self_closing));
}

#[test]
fn boolean_attribute_value_variants_produce_same_hash() {
    let with_value = parse_source(r#"<input disabled="disabled">"#).unwrap();
    let bare = parse_source("<input disabled>").unwrap();
    let empty = parse_source(r#"<input disabled="">"#).unwrap();

    let h1 = normalize_cst(&with_value);
    let h2 = normalize_cst(&bare);
    let h3 = normalize_cst(&empty);
    assert_eq!(h1, h2, "disabled='disabled' must equal disabled");
    assert_eq!(h1, h3, "disabled='disabled' must equal disabled=''");
}

#[test]
fn non_void_self_closing_element_keeps_node_type() {
    let root = parse_source("<div/>").unwrap();
    let normalized = normalize_cst(&root);
    let mut nodes = Vec::new();
    walk(&normalized, &mut nodes);
    let tag = nodes
        .into_iter()
        .find(|n| n.node_type == "self_closing_tag" || n.node_type == "start_tag");
    assert!(tag.is_some(), "div should have a tag child");
    assert_eq!(
        tag.unwrap().node_type,
        "self_closing_tag",
        "non-void self-closing elements must keep their node type"
    );
}

#[test]
fn every_void_element_loses_its_slash() {
    for name in [
        "area", "base", "br", "col", "embed", "hr", "img", "input", "link", "meta", "param",
        "source", "track", "wbr",
    ] {
        let tag = branch("self_closing_tag", vec![leaf("tag_name", name)]);
        assert_eq!(
            normalize_cst(&tag),
            branch("start_tag", vec![leaf("tag_name", name)])
        );
    }
}

#[test]
fn void_tag_names_are_told_in_lower_case_only() {
    let tag = branch("self_closing_tag", vec![leaf("tag_name", "BR")]);
    assert_eq!(normalize_cst(&tag), tag);
    let nameless = branch("self_closing_tag", vec![leaf("<", "<")]);
    assert_eq!(normalize_cst(&nameless), nameless);
    let childless = leaf("self_closing_tag", "<br/>");
    assert_eq!(normalize_cst(&childless), childless);
}

#[test]
fn every_boolean_attribute_loses_its_value() {
    for name in [
        "allowfullscreen",
        "async",
        "autofocus",
        "autoplay",
        "checked",
        "controls",
        "default",
        "defer",
        "disabled",
        "formnovalidate",
        "hidden",
        "ismap",
        "itemscope",
        "loop",
        "multiple",
        "muted",
        "nomodule",
        "novalidate",
        "open",
        "playsinline",
        "readonly",
        "required",
        "reversed",
        "selected",
        "truespeed",
    ] {
        let spelled = leaf("attribute", &format!("{}=\"a=b\"", name));
        assert_eq!(normalize_cst(&spelled), leaf("attribute", name));
    }
}

#[test]
fn boolean_attribute_leaf_keeps_its_case_and_loses_white_space() {
    assert_eq!(
        normalize_cst(&leaf("attribute", " \t\u{A0}DisAbled \n = \"\"")),
        leaf("attribute", "DisAbled")
    );
    // The sign for kelvin is lower-cased to a plain letter.
    assert_eq!(
        normalize_cst(&leaf("attribute", "chec\u{212A}ed=x")),
        leaf("attribute", "chec\u{212A}ed")
    );
}

#[test]
fn other_attributes_keep_their_value() {
    for text in ["type=\"checkbox\"", "disabledx", "x=disabled", "=disabled", ""] {
        assert_eq!(normalize_cst(&leaf("attribute", text)), leaf("attribute", text));
    }
    let node = branch(
        "attribute",
        vec![
            leaf("attribute_name", "class"),
            leaf("=", "="),
            leaf("attribute_value", "disabled"),
        ],
    );
    assert_eq!(normalize_cst(&node), node);
    let nameless = branch("attribute", vec![leaf("attribute_value", "disabled")]);
    assert_eq!(normalize_cst(&nameless), nameless);
    let untold = branch("attribute", vec![]);
    assert_eq!(normalize_cst(&untold), untold);
}

#[test]
fn boolean_attribute_node_keeps_its_name_children() {
    let node = branch(
        "attribute",
        vec![
            leaf("attribute_name", "Checked"),
            leaf("=", "="),
            leaf("attribute_value", "1"),
            leaf("attribute_name", "again"),
        ],
    );
    assert_eq!(
        normalize_cst(&node),
        branch(
            "attribute",
            vec![
                leaf("attribute_name", "Checked"),
                leaf("attribute_name", "again")
            ]
        )
    );
}

#[test]
fn normalisation_is_idempotent_and_reaches_every_depth() {
    let source = "<div><p><input disabled='x' class=y /><br/></p><!-- c --><div/></div></b>";
    let once = normalize_cst(&parse_source(source).unwrap());
    assert_eq!(normalize_cst(&once), once);
    let other = "<div><p><input disabled class=y><br></p><!-- c --><div/></div></b>";
    assert_eq!(once, normalize_cst(&parse_source(other).unwrap()));
    let different = "<div><p><input class=y><br></p><!-- c --><div/></div></b>";
    assert_ne!(once, normalize_cst(&parse_source(different).unwrap()));
}

#[test]
fn kept_children_are_those_of_the_normal_form() {
    let boolean = branch(
        "attribute",
        vec![
            leaf("x", "y"),
            leaf("attribute_name", "Open"),
            leaf("=", "="),
            leaf("attribute_name", "again"),
        ],
    );
    assert_eq!(kept_children(&boolean), vec![1, 3]);
    let other = branch(
        "attribute",
        vec![leaf("attribute_name", "href"), leaf("=", "=")],
    );
    assert_eq!(kept_children(&other), vec![0, 1]);
    let tag = branch(
        "self_closing_tag",
        vec![leaf("tag_name", "br"), boolean, other],
    );
    assert_eq!(kept_children(&tag), vec![0, 1, 2]);
    assert!(kept_children(&leaf("attribute", "open=x")).is_empty());
    let normal = normalize_cst(&tag);
    for (k, i) in kept_children(&tag).into_iter().enumerate() {
        assert_eq!(normal.children[k], normalize_cst(&tag.children[i]));
    }
}
