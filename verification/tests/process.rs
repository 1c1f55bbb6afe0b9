use html_parser::cst::CstNode;
use html_parser::parse::{grammar_result, parse_source, tree_result};
use html_parser::plugin::HtmlParser;
use html_parser::process::{error_json, process_step, ProcessAction, ProcessEvent};
use html_parser::text::{attribute_key_of, lowercase_of};

fn answer(event: ProcessEvent) -> String {
    match process_step(event) {
        ProcessAction::Answer(text) => text,
        other => panic!("expected an answer, got {:?}", other),
    }
}

#[test]
fn parsed_tree_is_converted_in_normal_form() {
    let node = CstNode {
        node_type: "attribute".to_string(),
        text: Some("hidden=until".to_string()),
        children: vec![],
    };
    match process_step(ProcessEvent::Parsed(Ok(node))) {
        ProcessAction::Convert { root, id_prefix } => {
            assert_eq!(root.text.as_deref(), Some("hidden"));
            assert_eq!(id_prefix, "0");
        }
        other => panic!("expected a conversion, got {:?}", other),
    }
}

#[test]
fn failures_are_answered_as_json() {
    assert_eq!(
        answer(ProcessEvent::Parsed(Err("Parse failed".to_string()))),
        r#"{"error":"Parse failed"}"#
    );
    assert_eq!(
        answer(ProcessEvent::Converted(false)),
        r#"{"error":"Empty semantic tree"}"#
    );
    assert_eq!(
        answer(ProcessEvent::Serialised(Err("too deep".to_string()))),
        r#"{"error":"Serialisation error: too deep"}"#
    );
    for message in ["Failed to load HTML grammar", "Parse failed", "Empty semantic tree"] {
        let value: serde_json::Value = serde_json::from_str(&error_json(message)).unwrap();
        assert_eq!(value["error"], message);
    }
}

#[test]
fn semantic_tree_is_serialised_and_answered() {
    assert!(matches!(
        process_step(ProcessEvent::Converted(true)),
        ProcessAction::Serialise
    ));
    assert_eq!(
        answer(ProcessEvent::Serialised(Ok("{}".to_string()))),
        "{}"
    );
}

#[test]
fn source_is_parsed_as_html() {
    let tree = parse_source("<br class=a>\n<div/>").unwrap();
    assert_eq!(
        tree.root_node().to_sexp(),
        "(document (element (start_tag (tag_name) (attribute (attribute_name) (attribute_value)))) (element (self_closing_tag (tag_name))))"
    );
    assert_eq!(parse_source("").unwrap().root_node().to_sexp(), "(document)");
    assert_eq!(
        parse_source("   \n  ").unwrap().root_node().to_sexp(),
        "(document)"
    );
    // Errors in the source stand in the tree.
    assert!(parse_source("<a b=").unwrap().root_node().has_error());
    assert!(parse_source("\u{1F600}&\u{0}<").is_ok());
}

#[test]
fn examples_parse_without_error() {
    let pair = HtmlParser::example(String::new());
    for source in [pair.old, pair.new] {
        assert!(!parse_source(&source).unwrap().root_node().has_error());
    }
}

#[test]
fn parse_failures_are_named() {
    assert_eq!(grammar_result(Ok(())), Ok(()));
    assert_eq!(
        grammar_result(Err(tree_sitter::LanguageError::Version(1))),
        Err("Failed to load HTML grammar".to_string())
    );
    assert_eq!(tree_result(None).err(), Some("Parse failed".to_string()));
    assert!(tree_result(parse_source("<p>").ok()).is_ok());
}

#[test]
fn attribute_names_are_read_off_their_spelling() {
    assert_eq!(attribute_key_of("disabled"), "disabled");
    assert_eq!(attribute_key_of("disabled=\"disabled\""), "disabled");
    assert_eq!(attribute_key_of("\u{3000} a b\t=c=d"), "a b");
    assert_eq!(attribute_key_of("=x"), "");
    assert_eq!(attribute_key_of(" \u{2003}\r\n"), "");
    assert_eq!(attribute_key_of(""), "");
    for code in [
        0x9, 0xA, 0xB, 0xC, 0xD, 0x20, 0x85, 0xA0, 0x1680, 0x2000, 0x2005, 0x200A, 0x2028, 0x2029,
        0x202F, 0x205F, 0x3000,
    ] {
        let space = char::from_u32(code).unwrap();
        assert_eq!(attribute_key_of(&format!("{}a{}", space, space)), "a");
    }
    // Neither of these is white space.
    assert_eq!(attribute_key_of("\u{200B}a\u{FEFF}"), "\u{200B}a\u{FEFF}");
}

#[test]
fn lower_case_follows_unicode() {
    assert_eq!(lowercase_of("AbZ@[`{9"), "abz@[`{9");
    assert_eq!(lowercase_of("\u{130}\u{212A}\u{C9}"), "i\u{307}k\u{E9}");
    assert_eq!(lowercase_of("\u{3A3}A\u{3A3} Z9"), "\u{3C3}a\u{3C2} z9");
    assert_eq!(lowercase_of(""), "");
}
