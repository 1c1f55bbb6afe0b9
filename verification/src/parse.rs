//! Parsing of HTML source with tree-sitter.
use tree_sitter::{Language, LanguageError, Parser, Tree};
use vstd::prelude::*;

verus! {

/// A tree-sitter grammar.
#[verifier::external_type_specification]
#[verifier::external_body]
pub struct ExLanguage(tree_sitter::Language);

/// Why a grammar was refused by a parser.
#[verifier::external_type_specification]
#[verifier::external_body]
pub struct ExLanguageError(tree_sitter::LanguageError);

/// A tree-sitter parser.
#[verifier::external_type_specification]
#[verifier::external_body]
pub struct ExParser(tree_sitter::Parser);

/// A tree-sitter syntax tree.
#[verifier::external_type_specification]
#[verifier::external_body]
pub struct ExTree(tree_sitter::Tree);

/// Whether a grammar is the one of `tree_sitter_html`.
pub uninterp spec fn is_html(language: Language) -> bool;

/// Whether the grammar of `tree_sitter_html` is assigned to a parser that is otherwise as
/// `Parser::new` made it.
pub uninterp spec fn reads_html(parser: Parser) -> bool;

/// Whether a parser is as `Parser::new` made it.
pub uninterp spec fn is_fresh(parser: Parser) -> bool;

/// Whether `tree` is a syntax tree that `Parser::parse` makes of the HTML text `source`. One text
/// may have several: the grammar's scanner tells letters, spaces and upper case by `iswalnum`,
/// `iswspace` and `towupper` of the C library, which follow the locale.
pub uninterp spec fn is_html_tree_of(tree: Tree, source: Seq<char>) -> bool;

/// `tree_sitter::Parser::new`: a parser without a grammar.
pub assume_specification[ tree_sitter::Parser::new ]() -> (r: Parser)
    ensures
        is_fresh(r),
;

/// `tree_sitter::Parser::set_language`: assigns a grammar. It is refused only where the version
/// of its tables is out of the parser's range or where it has no lexer; the HTML grammar is in
/// range and has one.
pub assume_specification[ tree_sitter::Parser::set_language ](
    parser: &mut Parser,
    language: &Language,
) -> (r: Result<(), LanguageError>)
    ensures
        is_html(*language) ==> r is Ok,
        is_html(*language) && is_fresh(*old(parser)) ==> reads_html(*final(parser)),
;

/// `tree_sitter_html::LANGUAGE`, as the `tree_sitter::Language` that `From` makes of it: the
/// HTML grammar.
#[verifier::external_body]
fn html_language() -> (r: Language)
    ensures
        is_html(r),
{
    tree_sitter_html::LANGUAGE.into()
}

/// `tree_sitter::Parser::parse` without an earlier tree: a syntax tree of `source`. There is none
/// only where the parser has no grammar. Positions in a tree are counted in 32 bits.
///
/// The tree depends on the grammar, on the text and on the C library: characters are classified
/// as the locale has it. So two calls on one text need not give the same tree, and nothing is
/// said of what stands in it.
#[verifier::external_body]
fn parse_text(parser: &mut Parser, source: &str) -> (r: Option<Tree>)
    requires
        reads_html(*old(parser)),
        source.len() < u32::MAX,
    ensures
        r is Some,
        is_html_tree_of(r->0, source@),
{
    parser.parse(source, None)
}

/// What is reported where the grammar is refused.
pub fn grammar_result(loaded: Result<(), LanguageError>) -> (r: Result<(), String>)
    ensures
        r is Ok <==> loaded is Ok,
        r matches Err(message) ==> message@ == "Failed to load HTML grammar"@,
{
    match loaded {
        Ok(_) => Ok(()),
        Err(_) => Err("Failed to load HTML grammar".to_owned()),
    }
}

/// What is reported where the parser gives no tree.
pub fn tree_result(tree: Option<Tree>) -> (r: Result<Tree, String>)
    ensures
        match tree {
            Some(t) => r == Ok::<Tree, String>(t),
            None => r matches Err(message) && message@ == "Parse failed"@,
        },
{
    match tree {
        Some(t) => Ok(t),
        None => Err("Parse failed".to_owned()),
    }
}

/// Parses HTML source. The parse itself never fails: errors in the source stand in the tree.
/// Which characters make a tag name follows the locale of the C library.
pub fn parse_source(source: &str) -> (r: Result<Tree, String>)
    requires
        source.len() < u32::MAX,
    ensures
        r matches Ok(tree) && is_html_tree_of(tree, source@),
{
    let mut parser = Parser::new();
    let language = html_language();
    match grammar_result(parser.set_language(&language)) {
        Ok(_) => {},
        Err(message) => return Err(message),
    }
    tree_result(parse_text(&mut parser, source))
}

/// Law: a grammar or a tree that came is passed on; where none came, the message says which of
/// the two is missing.
pub proof fn law_parse_failures_are_told_apart(
    loaded: Result<(), LanguageError>,
    tree: Option<Tree>,
    grammar: Result<(), String>,
    parsed: Result<Tree, String>,
)
    requires
        call_ensures(grammar_result, (loaded,), grammar),
        call_ensures(tree_result, (tree,), parsed),
    ensures
        loaded is Ok <==> grammar is Ok,
        tree is Some <==> parsed is Ok,
        tree is Some ==> parsed->Ok_0 == tree->0,
        grammar is Err ==> grammar->Err_0@ == "Failed to load HTML grammar"@,
        parsed is Err ==> parsed->Err_0@ == "Parse failed"@,
        grammar is Err && parsed is Err ==> grammar->Err_0@ != parsed->Err_0@,
{
    reveal_strlit("Failed to load HTML grammar");
    reveal_strlit("Parse failed");
    assert("Failed to load HTML grammar"@.len() == 27);
    assert("Parse failed"@.len() == 12);
}

/// Law: every source is parsed, as it is and as a whole.
pub proof fn law_every_source_is_parsed(source: &str, r: Result<Tree, String>)
    requires
        call_ensures(parse_source, (source,), r),
    ensures
        r is Ok,
        is_html_tree_of(r->Ok_0, source@),
{
}

} // verus!
