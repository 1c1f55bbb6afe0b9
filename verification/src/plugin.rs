//! The plugin's interface: identity, language detection and the records it publishes.
use crate::tables::{is_trivia, trivia_types};
use crate::text::{
    ascii_lower, ascii_lowercase, ends_with, is_ascii_char, law_lowercase_of_ascii_ending, lowercase,
    lowercase_of,
};
use vstd::prelude::*;
use vstd::utf8::is_ascii_chars;

verus! {

/// The parser for `.html`, `.htm` and `.xhtml` files.
pub struct HtmlParser;

/// How a plugin takes its input.
#[derive(Debug, Clone, Copy, PartialEq, Eq, Structural)]
pub enum ParserMode {
    /// The plugin parses source text itself.
    FullParse,
}

/// Two versions of a small document, to show a diff on.
#[derive(Debug, PartialEq, Eq)]
pub struct ExamplePair {
    pub old: String,
    pub new: String,
}

/// What the plugin's metadata says of one language.
#[derive(Debug, PartialEq, Eq)]
pub struct LanguageInfo {
    pub language_id: String,
    pub language_name: String,
    pub language_short_name: String,
    pub monaco_language: String,
    pub default_filename: String,
    pub language_file_extensions: Vec<String>,
}

/// What the plugin's metadata says of the plugin.
#[derive(Debug, PartialEq, Eq)]
pub struct PluginInfo {
    pub author: String,
    pub plugin_version: String,
    pub last_updated: String,
}

/// What the plugin publishes of one language.
#[derive(Debug, PartialEq, Eq)]
pub struct LanguageInfoRecord {
    pub language_id: String,
    pub language_name: String,
    pub language_short_name: String,
    pub monaco_language: String,
    pub default_filename: String,
    pub language_file_extensions: Vec<String>,
    pub author: String,
    pub plugin_version: String,
    pub last_updated: String,
}

/// The record that joins what is said of a language with what is said of the plugin.
pub open spec fn joins(record: LanguageInfoRecord, info: LanguageInfo, plugin: PluginInfo) -> bool {
    &&& record.language_id == info.language_id
    &&& record.language_name == info.language_name
    &&& record.language_short_name == info.language_short_name
    &&& record.monaco_language == info.monaco_language
    &&& record.default_filename == info.default_filename
    &&& record.language_file_extensions == info.language_file_extensions
    &&& record.author == plugin.author
    &&& record.plugin_version == plugin.plugin_version
    &&& record.last_updated == plugin.last_updated
}

/// The records of the languages, one for each and in the same order.
pub fn language_info_for(infos: Vec<LanguageInfo>, plugin: &PluginInfo) -> (r: Vec<
    LanguageInfoRecord,
>)
    ensures
        r@.len() == infos@.len(),
        forall|i: int| 0 <= i < r@.len() ==> joins(#[trigger] r@[i], infos@[i], *plugin),
{
    let ghost all = infos@;
    let mut records: Vec<LanguageInfoRecord> = Vec::new();
    for info in it: infos
        invariant
            it.seq() == all,
            records@.len() == it.index(),
            forall|i: int|
                0 <= i < records@.len() ==> joins(#[trigger] records@[i], all[i], *plugin),
    {
        let record = LanguageInfoRecord {
            language_id: info.language_id,
            language_name: info.language_name,
            language_short_name: info.language_short_name,
            monaco_language: info.monaco_language,
            default_filename: info.default_filename,
            language_file_extensions: info.language_file_extensions,
            author: plugin.author.clone(),
            plugin_version: plugin.plugin_version.clone(),
            last_updated: plugin.last_updated.clone(),
        };
        assert(joins(record, info, *plugin));
        records.push(record);
    }
    records
}

/// A file name with an HTML extension, in upper or lower case.
pub open spec fn has_html_extension(filename: Seq<char>) -> bool {
    let lower = lowercase(filename);
    ".html"@.is_suffix_of(lower) || ".htm"@.is_suffix_of(lower) || ".xhtml"@.is_suffix_of(lower)
}

/// The language of a file: `html` by its extension, else none.
pub open spec fn detected(filename: Seq<char>) -> Seq<char> {
    if has_html_extension(filename) {
        "html"@
    } else {
        seq![]
    }
}

/// An extension of HTML files.
pub open spec fn is_html_extension(extension: Seq<char>) -> bool {
    extension == ".html"@ || extension == ".htm"@ || extension == ".xhtml"@
}

/// Whether some text ends in both `a` and `b`.
pub open spec fn endings_agree(a: Seq<char>, b: Seq<char>) -> bool {
    a.is_suffix_of(b) || b.is_suffix_of(a)
}

/// An ending that no file name with an HTML extension has.
pub open spec fn rules_out_html(ending: Seq<char>) -> bool {
    !endings_agree(ending, ".html"@) && !endings_agree(ending, ".htm"@) && !endings_agree(
        ending,
        ".xhtml"@,
    )
}

/// Two endings of one text agree.
proof fn lemma_endings_agree(a: Seq<char>, b: Seq<char>, text: Seq<char>)
    requires
        a.is_suffix_of(text),
        b.is_suffix_of(text),
    ensures
        endings_agree(a, b),
{
    if a.len() <= b.len() {
        assert(a =~= b.subrange(b.len() - a.len(), b.len() as int));
    } else {
        assert(b =~= a.subrange(a.len() - b.len(), a.len() as int));
    }
}

/// The contents of `strings`.
pub open spec fn texts(strings: Seq<String>) -> Seq<Seq<char>> {
    strings.map_values(|s: String| s@)
}

/// The languages that the plugin handles: the one of its grammar.
pub open spec fn handled_languages() -> Seq<Seq<char>> {
    seq!["html"@]
}

impl HtmlParser {
    /// The plugin parses source text itself.
    pub fn get_parser_mode() -> (r: ParserMode)
        ensures
            r == ParserMode::FullParse,
    {
        ParserMode::FullParse
    }

    /// The identifier of the grammar.
    pub fn grammar_id() -> (r: String)
        ensures
            r@ == "html"@,
            handled_languages().contains(r@),
    {
        assert(handled_languages()[0] == "html"@);
        "html".to_owned()
    }

    /// The language of a file, told by its name alone; empty where it is not HTML.
    pub fn detect_language(filename: String, _content: String) -> (r: String)
        ensures
            r@ == detected(filename@),
    {
        let lower = lowercase_of(filename.as_str());
        if ends_with(lower.as_str(), ".html") || ends_with(lower.as_str(), ".htm") || ends_with(
            lower.as_str(),
            ".xhtml",
        ) {
            return "html".to_owned();
        }
        String::new()
    }

    /// Source text is parsed as it comes.
    pub fn preprocess_source(source: String) -> (r: String)
        ensures
            r == source,
    {
        source
    }

    /// A small page, and the same page with more structure.
    pub fn example(_language: String) -> (r: ExamplePair)
        ensures
            r.old@
                == "<!DOCTYPE html>\n<html>\n<head>\n  <title>My Page</title>\n</head>\n<body>\n  <h1>Hello World</h1>\n  <p>Welcome to my site.</p>\n</body>\n</html>\n"@,
            r.new@
                == "<!DOCTYPE html>\n<html lang=\"en\">\n<head>\n  <meta charset=\"UTF-8\">\n  <meta name=\"viewport\" content=\"width=device-width, initial-scale=1.0\">\n  <title>My Page</title>\n</head>\n<body>\n  <header>\n    <h1>Hello World</h1>\n  </header>\n  <main>\n    <p>Welcome to my site.</p>\n  </main>\n</body>\n</html>\n"@,
    {
        ExamplePair {
            old: "<!DOCTYPE html>\n<html>\n<head>\n  <title>My Page</title>\n</head>\n<body>\n  <h1>Hello World</h1>\n  <p>Welcome to my site.</p>\n</body>\n</html>\n".to_owned(),
            new: "<!DOCTYPE html>\n<html lang=\"en\">\n<head>\n  <meta charset=\"UTF-8\">\n  <meta name=\"viewport\" content=\"width=device-width, initial-scale=1.0\">\n  <title>My Page</title>\n</head>\n<body>\n  <header>\n    <h1>Hello World</h1>\n  </header>\n  <main>\n    <p>Welcome to my site.</p>\n  </main>\n</body>\n</html>\n".to_owned(),
        }
    }

    /// The node types that are dropped.
    pub fn trivia_node_types() -> (r: Vec<String>)
        ensures
            texts(r@) == seq!["comment"@],
            texts(r@).to_set() == trivia_types(),
    {
        let r = vec!["comment".to_owned()];
        assert(texts(r@) =~= seq!["comment"@]);
        proof {
            assert(texts(r@)[0] == "comment"@);
            assert(texts(r@).to_set() =~= trivia_types());
        }
        r
    }

    /// The languages that the plugin handles.
    pub fn language_ids() -> (r: Vec<String>)
        ensures
            texts(r@) == handled_languages(),
    {
        let r = vec!["html".to_owned()];
        assert(texts(r@) =~= handled_languages());
        r
    }

    /// The plugin's priority among those that handle a file.
    pub fn priority() -> (r: i32)
        ensures
            r == 0,
    {
        0
    }
}

/// Lower-casing a text of ASCII characters twice gives what lower-casing once gives.
proof fn lemma_ascii_lowercase_idempotent(s: Seq<char>)
    requires
        is_ascii_chars(s),
    ensures
        is_ascii_chars(ascii_lowercase(s)),
        ascii_lowercase(ascii_lowercase(s)) == ascii_lowercase(s),
{
    let lower = ascii_lowercase(s);
    assert forall|i: int| 0 <= i < lower.len() implies is_ascii_char(lower[i]) && ascii_lower(
        lower[i],
    ) == lower[i] by {
        assert(lower[i] == ascii_lower(s[i]));
        assert(s[i] as u32 <= 127);
    }
    assert(ascii_lowercase(lower) =~= lower);
}

/// The lower-case form of a name ends in that of its ASCII ending.
proof fn lemma_ending(stem: Seq<char>, ending: Seq<char>)
    requires
        is_ascii_chars(ending),
    ensures
        ascii_lowercase(ending).is_suffix_of(lowercase(stem + ending)),
{
    let name = stem + ending;
    assert(ending =~= name.subrange(name.len() - ending.len(), name.len() as int));
    law_lowercase_of_ascii_ending(name, ending);
}

/// Law: every file name that ends in `.html`, `.htm` or `.xhtml`, in upper or lower case, is told
/// to be HTML, whatever stands before the extension.
pub proof fn law_extensions_detected(stem: Seq<char>, extension: Seq<char>)
    requires
        is_ascii_chars(extension),
        is_html_extension(ascii_lowercase(extension)),
    ensures
        detected(stem + extension) == "html"@,
{
    lemma_ending(stem, extension);
}

/// Law: a file name with another ending of ASCII characters is not told to be HTML.
pub proof fn law_other_endings_not_detected(stem: Seq<char>, ending: Seq<char>)
    requires
        is_ascii_chars(ending),
        rules_out_html(ascii_lowercase(ending)),
    ensures
        detected(stem + ending).len() == 0,
{
    let lower = lowercase(stem + ending);
    lemma_ending(stem, ending);
    if ".html"@.is_suffix_of(lower) {
        lemma_endings_agree(ascii_lowercase(ending), ".html"@, lower);
    }
    if ".htm"@.is_suffix_of(lower) {
        lemma_endings_agree(ascii_lowercase(ending), ".htm"@, lower);
    }
    if ".xhtml"@.is_suffix_of(lower) {
        lemma_endings_agree(ascii_lowercase(ending), ".xhtml"@, lower);
    }
}

/// Law: a file name is told alike whether its ASCII ending is in upper or lower case, where the
/// ending is as long as the longest extension or the whole name is of ASCII characters.
pub proof fn law_detection_ignores_case(stem: Seq<char>, ending: Seq<char>)
    requires
        is_ascii_chars(ending),
        is_ascii_chars(stem) || ending.len() >= ".xhtml"@.len(),
    ensures
        detected(stem + ascii_lowercase(ending)) == detected(stem + ending),
{
    let lower = ascii_lowercase(ending);
    lemma_ascii_lowercase_idempotent(ending);
    if is_ascii_chars(stem) {
        assert(is_ascii_chars(stem + ending));
        assert(is_ascii_chars(stem + lower));
        assert(ascii_lowercase(stem + lower) =~= ascii_lowercase(stem + ending));
    } else {
        let a = lowercase(stem + ending);
        let b = lowercase(stem + lower);
        lemma_ending(stem, ending);
        lemma_ending(stem, lower);
        reveal_strlit(".html");
        reveal_strlit(".htm");
        reveal_strlit(".xhtml");
        lemma_short_ending(".html"@, lower, a, b);
        lemma_short_ending(".htm"@, lower, a, b);
        lemma_short_ending(".xhtml"@, lower, a, b);
    }
}

/// Two texts with a common ending have the same shorter endings.
proof fn lemma_short_ending(short: Seq<char>, ending: Seq<char>, a: Seq<char>, b: Seq<char>)
    requires
        short.len() <= ending.len(),
        ending.is_suffix_of(a),
        ending.is_suffix_of(b),
    ensures
        short.is_suffix_of(a) == short.is_suffix_of(b),
{
    let n = short.len();
    assert(a.subrange(a.len() - n, a.len() as int) =~= ending.subrange(
        ending.len() - n,
        ending.len() as int,
    ));
    assert(b.subrange(b.len() - n, b.len() as int) =~= ending.subrange(
        ending.len() - n,
        ending.len() as int,
    ));
}

/// Law: whatever language is told of a file is one that the plugin handles.
pub proof fn law_detected_language_is_handled(filename: Seq<char>)
    ensures
        detected(filename).len() == 0 || handled_languages().contains(detected(filename)),
{
    assert(handled_languages()[0] == "html"@);
}

/// Whether `text` ends in `ending`, character by character.
pub open spec fn ends_in(text: Seq<char>, ending: Seq<char>) -> bool {
    &&& text.len() >= ending.len()
    &&& forall|i: int|
        0 <= i < ending.len() ==> #[trigger] ending[i] == text[text.len() - ending.len() + i]
}

proof fn lemma_ends_in(text: Seq<char>, ending: Seq<char>)
    ensures
        ends_in(text, ending) <==> ending.is_suffix_of(text),
{
    let n = text.len() - ending.len();
    if ending.is_suffix_of(text) {
        assert forall|i: int| 0 <= i < ending.len() implies #[trigger] ending[i] == text[n + i] by {
            assert(text.subrange(n, text.len() as int)[i] == text[n + i]);
        }
    }
    if ends_in(text, ending) {
        assert(ending =~= text.subrange(n, text.len() as int));
    }
}

/// Law: a file is told to be HTML exactly where its name, in lower case, ends in one of the three
/// extensions; any other file is told no language.
pub proof fn law_detection_goes_by_the_extension(filename: Seq<char>)
    ensures
        detected(filename) == "html"@ || detected(filename).len() == 0,
        detected(filename).len() > 0 <==> ends_in(
            lowercase(filename),
            seq!['.', 'h', 't', 'm', 'l'],
        ) || ends_in(lowercase(filename), seq!['.', 'h', 't', 'm']) || ends_in(
            lowercase(filename),
            seq!['.', 'x', 'h', 't', 'm', 'l'],
        ),
{
    reveal_strlit("html");
    reveal_strlit(".html");
    reveal_strlit(".htm");
    reveal_strlit(".xhtml");
    assert(".html"@ =~= seq!['.', 'h', 't', 'm', 'l']);
    assert(".htm"@ =~= seq!['.', 'h', 't', 'm']);
    assert(".xhtml"@ =~= seq!['.', 'x', 'h', 't', 'm', 'l']);
    lemma_ends_in(lowercase(filename), ".html"@);
    lemma_ends_in(lowercase(filename), ".htm"@);
    lemma_ends_in(lowercase(filename), ".xhtml"@);
}

/// Law: the language is told by the file name alone; the content has no say.
pub proof fn law_content_has_no_say(
    filename: String,
    content: String,
    other: String,
    r: String,
    s: String,
)
    requires
        call_ensures(HtmlParser::detect_language, (filename, content), r),
        call_ensures(HtmlParser::detect_language, (filename, other), s),
    ensures
        r@ == s@,
        r@ == detected(filename@),
{
}

/// Law: the plugin handles one language, which is that of its grammar and the one it tells of HTML
/// files.
pub proof fn law_one_language_is_handled(grammar: String, ids: Vec<String>)
    requires
        call_ensures(HtmlParser::grammar_id, (), grammar),
        call_ensures(HtmlParser::language_ids, (), ids),
    ensures
        grammar@ == seq!['h', 't', 'm', 'l'],
        ids@.len() == 1,
        ids@[0]@ == grammar@,
        detected(seq!['.'] + grammar@) == grammar@,
{
    reveal_strlit("html");
    reveal_strlit(".html");
    assert("html"@ =~= seq!['h', 't', 'm', 'l']);
    assert(texts(ids@).len() == 1);
    assert(texts(ids@)[0] == ids@[0]@);
    let extension = ".html"@;
    let none: Seq<char> = seq![];
    assert(seq!['.'] + grammar@ =~= none + extension);
    assert(is_ascii_chars(extension));
    assert(ascii_lowercase(extension) =~= extension);
    law_extensions_detected(none, extension);
}

/// Law: the source reaches the parser unchanged.
pub proof fn law_source_is_not_changed(source: String, r: String)
    requires
        call_ensures(HtmlParser::preprocess_source, (source,), r),
    ensures
        r@ == source@,
{
}

/// Law: every language gets the record that stands at its place, with what is said of it and of the
/// plugin, field by field.
pub proof fn law_records_say_what_the_metadata_says(
    infos: Vec<LanguageInfo>,
    plugin: PluginInfo,
    records: Vec<LanguageInfoRecord>,
    i: int,
)
    requires
        call_ensures(language_info_for, (infos, &plugin), records),
        0 <= i < infos@.len(),
    ensures
        records@.len() == infos@.len(),
        records@[i].language_id@ == infos@[i].language_id@,
        records@[i].language_name@ == infos@[i].language_name@,
        records@[i].language_short_name@ == infos@[i].language_short_name@,
        records@[i].monaco_language@ == infos@[i].monaco_language@,
        records@[i].default_filename@ == infos@[i].default_filename@,
        records@[i].language_file_extensions@ == infos@[i].language_file_extensions@,
        records@[i].author@ == plugin.author@,
        records@[i].plugin_version@ == plugin.plugin_version@,
        records@[i].last_updated@ == plugin.last_updated@,
{
    assert(joins(records@[i], infos@[i], plugin));
}

/// Law: the node types that the plugin publishes as trivia are those that it drops.
pub proof fn law_published_trivia_is_dropped(published: Vec<String>, node_type: &str, dropped: bool)
    requires
        call_ensures(HtmlParser::trivia_node_types, (), published),
        call_ensures(is_trivia, (node_type,), dropped),
    ensures
        dropped <==> exists|i: int|
            0 <= i < published@.len() && (#[trigger] published@[i])@ == node_type@,
{
    let names = texts(published@);
    assert(names.len() == published@.len());
    assert(names[0] == published@[0]@);
    assert forall|i: int| 0 <= i < published@.len() implies (#[trigger] published@[i])@
        == "comment"@ by {
        assert(names[i] == published@[i]@);
    }
}

/// Law: the example is the same whatever language it is asked for, and its two versions differ.
pub proof fn law_example_is_one_pair(a: String, b: String, first: ExamplePair, second: ExamplePair)
    requires
        call_ensures(HtmlParser::example, (a,), first),
        call_ensures(HtmlParser::example, (b,), second),
    ensures
        first.old@ == second.old@,
        first.new@ == second.new@,
        first.old@.len() < first.new@.len(),
{
    reveal_strlit(
        "<!DOCTYPE html>\n<html>\n<head>\n  <title>My Page</title>\n</head>\n<body>\n  <h1>Hello World</h1>\n  <p>Welcome to my site.</p>\n</body>\n</html>\n",
    );
    reveal_strlit(
        "<!DOCTYPE html>\n<html lang=\"en\">\n<head>\n  <meta charset=\"UTF-8\">\n  <meta name=\"viewport\" content=\"width=device-width, initial-scale=1.0\">\n  <title>My Page</title>\n</head>\n<body>\n  <header>\n    <h1>Hello World</h1>\n  </header>\n  <main>\n    <p>Welcome to my site.</p>\n  </main>\n</body>\n</html>\n",
    );
}

} // verus!
