//! Text primitives: comparison, lower-casing, trimming and splitting of strings.
//!
//! The items of `std` that have no specification in `vstd` are specified here.
use vstd::prelude::*;
use vstd::utf8::is_ascii_chars;

verus! {

/// What `str::to_lowercase` makes of a text.
pub uninterp spec fn unicode_lowercase(s: Seq<char>) -> Seq<char>;

/// `char::is_whitespace`: whether `c` has the Unicode property White_Space.
pub assume_specification[ char::is_whitespace ](c: char) -> (r: bool)
    ensures
        r == white_space(c),
;

/// `str::to_lowercase`: the lower-case equivalent of `s`, by the rules of Unicode. It depends
/// on the text alone. ASCII characters are mapped one by one, whatever stands before them: `A` to
/// `Z` to `a` to `z`, and every other one to itself. So a text of ASCII characters is mapped to
/// `ascii_lowercase`, and so is any ending of a text that is made of ASCII characters.
pub assume_specification[ str::to_lowercase ](s: &str) -> (r: String)
    ensures
        r@ == unicode_lowercase(s@),
        is_ascii_chars(s@) ==> r@ == ascii_lowercase(s@),
        forall|t: Seq<char>|
            is_ascii_chars(t) && #[trigger] t.is_suffix_of(s@) ==> ascii_lowercase(t).is_suffix_of(
                r@,
            ),
;

/// Equality of string slices (`str` as `PartialEq`): true exactly when both hold the same
/// characters.
#[verifier::external_body]
pub(crate) fn same_text(a: &str, b: &str) -> (r: bool)
    ensures
        r == (a@ == b@),
{
    a == b
}

/// `str::ends_with` with a string pattern: true exactly when `suffix` is a suffix of `s`.
#[verifier::external_body]
pub(crate) fn ends_with(s: &str, suffix: &str) -> (r: bool)
    ensures
        r == suffix@.is_suffix_of(s@),
{
    s.ends_with(suffix)
}

/// An ASCII character.
pub open spec fn is_ascii_char(c: char) -> bool {
    '\0' <= c <= '\u{7f}'
}

/// A character with the Unicode property White_Space.
pub open spec fn white_space(c: char) -> bool {
    let code = c as u32;
    ||| 0x9 <= code <= 0xD
    ||| code == 0x20
    ||| code == 0x85
    ||| code == 0xA0
    ||| code == 0x1680
    ||| 0x2000 <= code <= 0x200A
    ||| code == 0x2028
    ||| code == 0x2029
    ||| code == 0x202F
    ||| code == 0x205F
    ||| code == 0x3000
}

/// The lower-case form of one ASCII character.
pub open spec fn ascii_lower(c: char) -> char {
    if 'A' <= c && c <= 'Z' {
        ((c as u32 + 32) as u32) as char
    } else {
        c
    }
}

/// The lower-case form of a text of ASCII characters.
pub open spec fn ascii_lowercase(s: Seq<char>) -> Seq<char> {
    s.map_values(|c: char| ascii_lower(c))
}

/// The longest ending of `s` that is made of ASCII characters.
pub open spec fn ascii_ending(s: Seq<char>) -> Seq<char>
    decreases s.len(),
{
    if s.len() > 0 && is_ascii_char(s.last()) {
        ascii_ending(s.drop_last()).push(s.last())
    } else {
        seq![]
    }
}

/// The lower-case form of a text: the one of `str::to_lowercase`, with what it makes of ASCII
/// characters at the end spelled out.
pub open spec fn lowercase(s: Seq<char>) -> Seq<char> {
    if is_ascii_chars(s) {
        ascii_lowercase(s)
    } else {
        let lower = unicode_lowercase(s);
        let ending = ascii_ending(s);
        lower.take(lower.len() - ending.len()) + ascii_lowercase(ending)
    }
}

/// The lower-case form of `s`.
pub fn lowercase_of(s: &str) -> (r: String)
    ensures
        r@ == lowercase(s@),
        r@ == unicode_lowercase(s@),
{
    let r = s.to_lowercase();
    proof {
        let ending = ascii_ending(s@);
        lemma_ascii_ending(s@, seq![]);
        assert(ending.is_suffix_of(s@));
        if !is_ascii_chars(s@) {
            assert(r@ =~= r@.take(r@.len() - ending.len()) + ascii_lowercase(ending));
        }
    }
    r
}

/// The ASCII ending of a text is an ending of it, and every other ending of ASCII characters is
/// an ending of that one.
proof fn lemma_ascii_ending(s: Seq<char>, t: Seq<char>)
    requires
        is_ascii_chars(t),
        t.is_suffix_of(s),
    ensures
        is_ascii_chars(ascii_ending(s)),
        ascii_ending(s).is_suffix_of(s),
        t.is_suffix_of(ascii_ending(s)),
    decreases s.len(),
{
    if s.len() > 0 && is_ascii_char(s.last()) {
        let front = s.drop_last();
        if t.len() > 0 {
            assert(t.last() == s.last());
            assert(t.drop_last() =~= front.subrange(front.len() - (t.len() - 1), front.len() as int));
            lemma_ascii_ending(front, t.drop_last());
            assert(t =~= t.drop_last().push(s.last()));
        } else {
            lemma_ascii_ending(front, seq![]);
        }
        let e = ascii_ending(s);
        assert forall|i: int| 0 <= i < e.len() implies '\0' <= #[trigger] e[i] <= '\u{7f}' by {
            if i < e.len() - 1 {
                assert(e[i] == ascii_ending(front)[i]);
            }
        }
        assert(e =~= s.subrange(s.len() - e.len(), s.len() as int));
        assert(t =~= e.subrange(e.len() - t.len(), e.len() as int));
    } else if t.len() > 0 {
        assert(t.last() == s.last());
        assert(is_ascii_char(t[t.len() - 1]));
    }
}

/// Law: a text that ends in ASCII characters has a lower-case form that ends in theirs.
pub proof fn law_lowercase_of_ascii_ending(s: Seq<char>, t: Seq<char>)
    requires
        is_ascii_chars(t),
        t.is_suffix_of(s),
    ensures
        ascii_lowercase(t).is_suffix_of(lowercase(s)),
{
    lemma_ascii_ending(s, t);
    let lower = lowercase(s);
    let e = ascii_lowercase(ascii_ending(s));
    let l = ascii_lowercase(t);
    if is_ascii_chars(s) {
        assert(l =~= lower.subrange(lower.len() - l.len(), lower.len() as int));
    } else {
        assert(l =~= e.subrange(e.len() - l.len(), e.len() as int));
        assert(l =~= lower.subrange(lower.len() - l.len(), lower.len() as int));
    }
}

/// What precedes the first `=` of `s`, or all of `s` where there is none.
pub open spec fn before_equals(s: Seq<char>) -> Seq<char>
    decreases s.len(),
{
    if s.len() == 0 || s[0] == '=' {
        seq![]
    } else {
        seq![s[0]] + before_equals(s.drop_first())
    }
}

/// `s` without its leading white space.
pub open spec fn trim_start(s: Seq<char>) -> Seq<char>
    decreases s.len(),
{
    if s.len() > 0 && white_space(s[0]) {
        trim_start(s.drop_first())
    } else {
        s
    }
}

/// `s` without its trailing white space.
pub open spec fn trim_end(s: Seq<char>) -> Seq<char>
    decreases s.len(),
{
    if s.len() > 0 && white_space(s.last()) {
        trim_end(s.drop_last())
    } else {
        s
    }
}

/// `s` without its leading and trailing white space.
pub open spec fn trim(s: Seq<char>) -> Seq<char> {
    trim_end(trim_start(s))
}

/// The characters of `s`, in order.
fn characters(s: &str) -> (r: Vec<char>)
    ensures
        r@ == s@,
{
    let mut r: Vec<char> = Vec::new();
    for c in it: s.chars()
        invariant
            r@ == it.seq().take(it.index() as int),
            it.seq() == s@,
    {
        r.push(c);
    }
    r
}

/// The name that an attribute spelled `raw` sets: what precedes the first `=`, without white
/// space around it.
pub open spec fn attribute_key(raw: Seq<char>) -> Seq<char> {
    trim(before_equals(raw))
}

/// Reads the attribute name off the full source spelling of an attribute.
pub fn attribute_key_of(raw: &str) -> (r: String)
    ensures
        r@ == attribute_key(raw@),
{
    let chars = characters(raw);
    let mut stop: usize = 0;
    assert(chars@.skip(0) =~= chars@);
    while stop < chars.len() && chars[stop] != '='
        invariant
            stop <= chars@.len(),
            before_equals(chars@) == chars@.take(stop as int) + before_equals(
                chars@.skip(stop as int),
            ),
        decreases chars@.len() - stop,
    {
        proof {
            let rest = chars@.skip(stop as int);
            assert(rest[0] == chars@[stop as int]);
            assert(rest.drop_first() =~= chars@.skip(stop + 1));
            assert(chars@.take(stop + 1) =~= chars@.take(stop as int) + seq![rest[0]]);
        }
        stop = stop + 1;
    }
    let ghost name = chars@.take(stop as int);
    assert(before_equals(chars@) =~= name);
    let mut start: usize = 0;
    assert(name.skip(0) =~= name);
    while start < stop && chars[start].is_whitespace()
        invariant
            start <= stop <= chars@.len(),
            name == chars@.take(stop as int),
            trim_start(name) == trim_start(name.skip(start as int)),
        ensures
            trim_start(name) == name.skip(start as int),
        decreases stop - start,
    {
        assert(name.skip(start as int).drop_first() =~= name.skip(start + 1));
        start = start + 1;
    }
    let ghost body = name.skip(start as int);
    let mut end: usize = stop;
    assert(body.take(end - start) =~= body);
    while end > start && chars[end - 1].is_whitespace()
        invariant
            start <= end <= stop <= chars@.len(),
            name == chars@.take(stop as int),
            body == name.skip(start as int),
            trim_end(body) == trim_end(body.take(end - start)),
        ensures
            trim_end(body) == body.take(end - start),
        decreases end,
    {
        assert(body.take(end - start).drop_last() =~= body.take(end - 1 - start));
        end = end - 1;
    }
    assert(body.take(end - start) =~= raw@.subrange(start as int, end as int));
    raw.substring_char(start, end).to_owned()
}

proof fn lemma_before_equals(s: Seq<char>)
    ensures
        before_equals(s).len() <= s.len(),
        forall|i: int| 0 <= i < before_equals(s).len() ==> #[trigger] before_equals(s)[i] != '=',
        (forall|i: int| 0 <= i < s.len() ==> s[i] != '=') ==> before_equals(s) == s,
    decreases s.len(),
{
    if s.len() > 0 && s[0] != '=' {
        let rest = s.drop_first();
        lemma_before_equals(rest);
        let r = before_equals(s);
        assert forall|i: int| 0 <= i < r.len() implies #[trigger] r[i] != '=' by {
            if i > 0 {
                assert(r[i] == before_equals(rest)[i - 1]);
            }
        }
        if forall|i: int| 0 <= i < s.len() ==> s[i] != '=' {
            assert forall|i: int| 0 <= i < rest.len() implies rest[i] != '=' by {
                assert(s[i + 1] != '=');
            }
            assert(r =~= s);
        }
    }
}

/// What a `=` and anything after it leave of a text without `=` before them.
proof fn lemma_before_equals_of_assignment(name: Seq<char>, value: Seq<char>)
    requires
        !name.contains('='),
    ensures
        before_equals(name + seq!['='] + value) == name,
        before_equals(name) == name,
    decreases name.len(),
{
    let all = name + seq!['='] + value;
    assert forall|i: int| 0 <= i < name.len() implies name[i] != '=' by {
        assert(name.contains(name[i]));
    }
    lemma_before_equals(name);
    if name.len() == 0 {
        assert(all[0] == '=');
        assert(before_equals(all) =~= name);
    } else {
        let rest = name.drop_first();
        assert forall|c: char| rest.contains(c) implies name.contains(c) by {
            let j = choose|j: int| 0 <= j < rest.len() && rest[j] == c;
            assert(name[j + 1] == c);
        }
        lemma_before_equals_of_assignment(rest, value);
        assert(all[0] == name[0]);
        assert(all.drop_first() =~= rest + seq!['='] + value);
        assert(before_equals(all) =~= name);
    }
}

proof fn lemma_trim_start(s: Seq<char>)
    ensures
        trim_start(s).len() <= s.len(),
        forall|i: int|
            0 <= i < trim_start(s).len() ==> #[trigger] trim_start(s)[i] == s[i + (s.len()
                - trim_start(s).len())],
        trim_start(s).len() > 0 ==> !white_space(trim_start(s)[0]),
    decreases s.len(),
{
    if s.len() > 0 && white_space(s[0]) {
        lemma_trim_start(s.drop_first());
    }
}

proof fn lemma_trim_end(s: Seq<char>)
    ensures
        trim_end(s).len() <= s.len(),
        forall|i: int| 0 <= i < trim_end(s).len() ==> #[trigger] trim_end(s)[i] == s[i],
        trim_end(s).len() > 0 ==> !white_space(trim_end(s).last()),
    decreases s.len(),
{
    if s.len() > 0 && white_space(s.last()) {
        lemma_trim_end(s.drop_last());
    }
}

/// Law: the name that is read off an attribute's spelling is itself the spelling of an attribute
/// of that name.
pub proof fn law_attribute_key_idempotent(raw: Seq<char>)
    ensures
        attribute_key(attribute_key(raw)) == attribute_key(raw),
{
    let name = before_equals(raw);
    let body = trim_start(name);
    let key = trim_end(body);
    lemma_before_equals(raw);
    lemma_trim_start(name);
    lemma_trim_end(body);
    assert forall|i: int| 0 <= i < key.len() implies key[i] != '=' by {
        assert(key[i] == body[i]);
        assert(body[i] == name[i + (name.len() - body.len())]);
    }
    lemma_before_equals(key);
    assert(key.len() > 0 ==> key[0] == body[0]);
    assert(trim_start(key) == key);
    assert(trim_end(key) == key);
}

/// Law: an assignment of any value does not change the name that is read off the spelling.
pub proof fn law_attribute_key_of_assignment(name: Seq<char>, value: Seq<char>)
    requires
        !name.contains('='),
    ensures
        attribute_key(name + seq!['='] + value) == attribute_key(name),
{
    lemma_before_equals_of_assignment(name, value);
}

/// Law: white space is what HTML takes for it between the parts of a tag, among others; no
/// letter, digit, hyphen, quote or `=` is.
pub proof fn law_white_space_in_tags(c: char)
    ensures
        c == ' ' || c == '\t' || c == '\n' || c == '\r' || c == '\u{c}' ==> white_space(c),
        '!' <= c <= '~' ==> !white_space(c),
{
}

/// Law: the lower-case form of a text of ASCII characters has a character for each of them: the
/// small letter for a capital one, and the same character for any other.
pub proof fn law_lowercase_of_ascii(s: Seq<char>, i: int)
    requires
        is_ascii_chars(s),
        0 <= i < s.len(),
    ensures
        lowercase(s).len() == s.len(),
        'A' <= s[i] <= 'Z' ==> lowercase(s)[i] as u32 == s[i] as u32 + 32,
        !('A' <= s[i] <= 'Z') ==> lowercase(s)[i] == s[i],
{
}

/// Law: the empty text has no other lower-case form than itself.
pub proof fn law_lowercase_of_nothing()
    ensures
        lowercase(seq![]).len() == 0,
{
    assert(is_ascii_chars(Seq::<char>::empty()));
}

/// A text of white space alone.
pub open spec fn is_blank(s: Seq<char>) -> bool {
    forall|i: int| 0 <= i < s.len() ==> white_space(#[trigger] s[i])
}

/// A text without `=`, and without white space at either end.
pub open spec fn is_bare_name(s: Seq<char>) -> bool {
    &&& !s.contains('=')
    &&& s.len() > 0 ==> !white_space(s[0]) && !white_space(s[s.len() - 1])
}

/// What follows the name in the spelling of an attribute: nothing, or `=` and anything.
pub open spec fn is_assignment_or_nothing(s: Seq<char>) -> bool {
    s.len() > 0 ==> s[0] == '='
}

proof fn lemma_trim_start_of_blank(blank: Seq<char>, rest: Seq<char>)
    requires
        is_blank(blank),
        rest.len() > 0 ==> !white_space(rest[0]),
    ensures
        trim_start(blank + rest) == rest,
    decreases blank.len(),
{
    let all = blank + rest;
    if blank.len() == 0 {
        assert(all =~= rest);
    } else {
        assert(white_space(blank[0]));
        assert(all[0] == blank[0]);
        let less = blank.drop_first();
        assert forall|i: int| 0 <= i < less.len() implies white_space(#[trigger] less[i]) by {
            assert(less[i] == blank[i + 1]);
        }
        assert(all.drop_first() =~= less + rest);
        lemma_trim_start_of_blank(less, rest);
    }
}

proof fn lemma_trim_end_of_blank(rest: Seq<char>, blank: Seq<char>)
    requires
        is_blank(blank),
        rest.len() > 0 ==> !white_space(rest.last()),
    ensures
        trim_end(rest + blank) == rest,
    decreases blank.len(),
{
    let all = rest + blank;
    if blank.len() == 0 {
        assert(all =~= rest);
    } else {
        assert(white_space(blank[blank.len() - 1]));
        assert(all.last() == blank[blank.len() - 1]);
        let less = blank.drop_last();
        assert forall|i: int| 0 <= i < less.len() implies white_space(#[trigger] less[i]) by {
            assert(less[i] == blank[i]);
        }
        assert(all.drop_last() =~= rest + less);
        lemma_trim_end_of_blank(rest, less);
    }
}

/// Law: the name that is read off the spelling of an attribute is the whole of what stands before
/// the `=`, but for white space around it.
pub proof fn law_attribute_key_is_the_name(
    lead: Seq<char>,
    name: Seq<char>,
    trail: Seq<char>,
    rest: Seq<char>,
)
    requires
        is_blank(lead),
        is_bare_name(name),
        is_blank(trail),
        is_assignment_or_nothing(rest),
    ensures
        attribute_key(lead + name + trail + rest) == name,
{
    let spelled = lead + name + trail;
    assert forall|i: int| 0 <= i < spelled.len() implies spelled[i] != '=' by {
        if i < lead.len() {
            assert(white_space(lead[i]));
        } else if i < lead.len() + name.len() {
            assert(name.contains(name[i - lead.len()]));
        } else {
            assert(white_space(trail[i - lead.len() - name.len()]));
        }
    }
    if rest.len() == 0 {
        assert(spelled + rest =~= spelled);
        lemma_before_equals(spelled);
    } else {
        assert(!spelled.contains('='));
        assert(spelled + rest =~= spelled + seq!['='] + rest.drop_first());
        lemma_before_equals_of_assignment(spelled, rest.drop_first());
    }
    assert(before_equals(spelled + rest) == spelled);
    if name.len() == 0 {
        let blank = lead + trail;
        assert(spelled =~= blank + seq![]);
        assert forall|i: int| 0 <= i < blank.len() implies white_space(#[trigger] blank[i]) by {
            if i < lead.len() {
                assert(white_space(lead[i]));
            } else {
                assert(white_space(trail[i - lead.len()]));
            }
        }
        lemma_trim_start_of_blank(blank, seq![]);
        assert(trim_end(Seq::<char>::empty()) =~= name);
    } else {
        let body = name + trail;
        assert(spelled =~= lead + body);
        assert(body[0] == name[0]);
        lemma_trim_start_of_blank(lead, body);
        lemma_trim_end_of_blank(name, trail);
    }
}

/// Law: the name is read off the spelling, and a text is lower-cased, as their contents say.
pub proof fn law_texts_are_read_as_stated(raw: &str, key: String, lower: String)
    requires
        call_ensures(attribute_key_of, (raw,), key),
        call_ensures(lowercase_of, (raw,), lower),
    ensures
        key@ == attribute_key(raw@),
        lower@ == lowercase(raw@),
        lower@ == unicode_lowercase(raw@),
{
}

} // verus!
