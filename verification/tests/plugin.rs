use html_parser::plugin::{
    language_info_for, HtmlParser, LanguageInfo, LanguageInfoRecord, ParserMode, PluginInfo,
};

#[test]
fn grammar_id_nonempty() {
    assert!(!HtmlParser::grammar_id().is_empty());
}

#[test]
fn language_ids_contain_grammar_id() {
    let gid = HtmlParser::grammar_id();
    let ids = HtmlParser::language_ids();
    assert!(
        ids.contains(&gid),
        "language_ids {:?} must contain {:?}",
        ids,
        gid
    );
}

#[test]
fn detect_language_html() {
    assert_eq!(
        HtmlParser::detect_language("index.html".to_string(), "".to_string()),
        "html"
    );
}

#[test]
fn detect_language_htm() {
    assert_eq!(
        HtmlParser::detect_language("page.htm".to_string(), "".to_string()),
        "html"
    );
}

#[test]
fn detect_language_xhtml() {
    assert_eq!(
        HtmlParser::detect_language("app.xhtml".to_string(), "".to_string()),
        "html"
    );
}

#[test]
fn detect_language_unknown() {
    let r = HtmlParser::detect_language("main.py".to_string(), "".to_string());
    assert_eq!(r.as_str(), "");
}

#[test]
fn detect_language_in_upper_case() {
    for name in ["INDEX.HTML", "Page.Htm", "app.XHTML", ".html"] {
        assert_eq!(
            HtmlParser::detect_language(name.to_string(), "".to_string()),
            "html"
        );
    }
}

#[test]
fn detect_language_lowers_beyond_ascii() {
    // The stem is lower-cased by the rules of Unicode and does not matter.
    assert_eq!(
        HtmlParser::detect_language("\u{130}\u{3A3}.HTML".to_string(), "".to_string()),
        "html"
    );
}

#[test]
fn detect_language_whatever_stands_before_the_extension() {
    for name in ["\u{E9}.html", "\u{3A3}.HTM", "\u{1F600}.xHtMl", "\u{130}\u{3A3}.html"] {
        assert_eq!(
            HtmlParser::detect_language(name.to_string(), "".to_string()),
            "html"
        );
    }
    for name in ["\u{E9}.py", "\u{3A3}html", "a.html\u{E9}"] {
        assert_eq!(
            HtmlParser::detect_language(name.to_string(), "".to_string()),
            ""
        );
    }
}

#[test]
fn detect_language_goes_by_the_whole_extension() {
    for name in ["", "html", "htm", "ahtml", "a.html.txt", "a.shtml", "a.html "] {
        assert_eq!(
            HtmlParser::detect_language(name.to_string(), "<html>".to_string()),
            ""
        );
    }
}

#[test]
fn interface_constants() {
    assert_eq!(HtmlParser::get_parser_mode(), ParserMode::FullParse);
    assert_eq!(HtmlParser::grammar_id(), "html");
    assert_eq!(HtmlParser::language_ids(), vec!["html".to_string()]);
    assert_eq!(HtmlParser::trivia_node_types(), vec!["comment".to_string()]);
    assert_eq!(HtmlParser::priority(), 0);
    assert_eq!(
        HtmlParser::preprocess_source("<p>\r\n".to_string()),
        "<p>\r\n"
    );
}

#[test]
fn example_shows_two_versions_of_a_page() {
    let pair = HtmlParser::example("html".to_string());
    assert_eq!(
        pair.old,
        "<!DOCTYPE html>\n<html>\n<head>\n  <title>My Page</title>\n</head>\n<body>\n  <h1>Hello World</h1>\n  <p>Welcome to my site.</p>\n</body>\n</html>\n"
    );
    assert!(pair.new.contains("<meta charset=\"UTF-8\">"));
    assert!(pair.new.ends_with("  </main>\n</body>\n</html>\n"));
}

fn info(id: &str) -> LanguageInfo {
    LanguageInfo {
        language_id: id.to_string(),
        language_name: format!("{} name", id),
        language_short_name: format!("{} short", id),
        monaco_language: format!("{} monaco", id),
        default_filename: format!("index.{}", id),
        language_file_extensions: vec![format!(".{}", id), ".x".to_string()],
    }
}

#[test]
fn language_info_joins_language_and_plugin() {
    let plugin = PluginInfo {
        author: "A".to_string(),
        plugin_version: "1.2.3".to_string(),
        last_updated: "2024-01-01".to_string(),
    };
    let records = language_info_for(vec![info("html"), info("xml")], &plugin);
    assert_eq!(records.len(), 2);
    assert_eq!(
        records[0],
        LanguageInfoRecord {
            language_id: "html".to_string(),
            language_name: "html name".to_string(),
            language_short_name: "html short".to_string(),
            monaco_language: "html monaco".to_string(),
            default_filename: "index.html".to_string(),
            language_file_extensions: vec![".html".to_string(), ".x".to_string()],
            author: "A".to_string(),
            plugin_version: "1.2.3".to_string(),
            last_updated: "2024-01-01".to_string(),
        }
    );
    assert_eq!(records[1].language_id, "xml");
    assert_eq!(records[1].author, "A");
    assert!(language_info_for(vec![], &plugin).is_empty());
}
