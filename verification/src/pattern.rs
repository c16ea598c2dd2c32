//! Regular expressions: compiled patterns that remember their source, and the
//! search pattern built from what the user types into the hint filter.

use vstd::prelude::*;
use crate::keys::{lemma_split_joined, split_char, split_on};
use crate::utf8::byte_offset;

verus! {

#[verifier::external_type_specification]
#[verifier::external_body]
pub struct ExRegex(regex::Regex);

#[verifier::external_type_specification]
#[verifier::external_body]
pub struct ExRegexError(regex::Error);

/// Whether `regex::Regex::new` compiles `pattern`.
pub uninterp spec fn regex_accepts(pattern: Seq<char>) -> bool;

/// What `regex::Regex::is_match` returns for a regex compiled from `pattern`
/// on `haystack`: whether the pattern matches anywhere in it.
pub uninterp spec fn regex_finds(pattern: Seq<char>, haystack: Seq<char>) -> bool;

/// Calls `regex::Regex::new`, which compiles the pattern or says why it
/// cannot. Whether it succeeds depends on the pattern alone and is named by
/// `regex_accepts`.
#[verifier::external_body]
fn regex_new(pattern: &str) -> (r: Result<regex::Regex, regex::Error>)
    ensures
        r is Ok <==> regex_accepts(pattern@),
{
    regex::Regex::new(pattern)
}

/// The message of a `regex::Error`, through its `Display` impl. Nothing is
/// said of its text.
#[verifier::external_body]
fn regex_error_message(e: &regex::Error) -> String {
    format!("{e}")
}

/// Calls `regex::Regex::is_match` on the regex that `p` holds. `Pattern::new`
/// is the only place a `Pattern` is built, and it compiles `p.compiled` from
/// `p.source`, so the result is named by `regex_finds` over the source.
#[verifier::external_body]
fn regex_is_match(p: &Pattern, haystack: &str) -> (r: bool)
    ensures
        r == regex_finds(p@, haystack@),
{
    p.compiled.is_match(haystack)
}

/// What `regex::Regex::find_iter` yields for a regex compiled from `pattern`
/// on `haystack`: each match's byte offset and text, in order.
pub uninterp spec fn regex_match_list(pattern: Seq<char>, haystack: Seq<char>) -> Seq<(usize, Seq<char>)>;

/// Whether `word` stands in `s` from the character whose byte offset is
/// `offset`.
pub open spec fn occurs_at_byte(s: Seq<char>, word: Seq<char>, offset: nat) -> bool {
    exists|k: int|
        0 <= k && k + word.len() <= s.len() && #[trigger] byte_offset(s, k) == offset && s.subrange(
            k,
            k + word.len(),
        ) == word
}

/// Calls `regex::Regex::find_iter` on the regex that `p` holds and collects
/// each match's start (`Match::start`) and text (`Match::as_str`). The list is
/// named by `regex_match_list` over the source (see `regex_is_match` for why
/// the source stands for the regex). As the crate documents them, a match's
/// start is the byte offset in the haystack of the text it matched.
#[verifier::external_body]
fn regex_find_all(p: &Pattern, haystack: &str) -> (r: Vec<(usize, String)>)
    ensures
        r@.map_values(|m: (usize, String)| (m.0, m.1@)) == regex_match_list(p@, haystack@),
        forall|i: int|
            0 <= i < r@.len() ==> occurs_at_byte(haystack@, (#[trigger] r@[i]).1@, r@[i].0 as nat),
{
    let mut found = Vec::new();
    for m in p.compiled.find_iter(haystack) {
        found.push((m.start(), m.as_str().to_string()));
    }
    found
}

/// A pattern that failed to compile, with the compiler's message.
pub struct PatternError {
    pub pattern: String,
    pub message: String,
}

/// A compiled regular expression together with the text it was compiled from.
pub struct Pattern {
    source: String,
    compiled: regex::Regex,
}

impl View for Pattern {
    type V = Seq<char>;

    closed spec fn view(&self) -> Seq<char> {
        self.source@
    }
}

impl Pattern {
    /// Compiles `pattern`; fails exactly when the regex compiler refuses it.
    pub fn new(pattern: &str) -> (r: Result<Pattern, PatternError>)
        ensures
            r is Ok <==> regex_accepts(pattern@),
            r matches Ok(p) ==> p@ == pattern@,
            r matches Err(e) ==> e.pattern@ == pattern@,
    {
        match regex_new(pattern) {
            Ok(compiled) => Ok(Pattern { source: String::from_str(pattern), compiled }),
            Err(e) => Err(PatternError {
                pattern: String::from_str(pattern),
                message: regex_error_message(&e),
            }),
        }
    }

    /// The text the pattern was compiled from.
    pub fn as_str(&self) -> (r: &str)
        ensures
            r@ == self@,
    {
        self.source.as_str()
    }

    /// Each match in `haystack`, in order, with its byte offset.
    pub fn find_all(&self, haystack: &str) -> (r: Vec<(usize, String)>)
        ensures
            r@.map_values(|m: (usize, String)| (m.0, m.1@)) == regex_match_list(self@, haystack@),
            forall|i: int|
                0 <= i < r@.len() ==> occurs_at_byte(haystack@, (#[trigger] r@[i]).1@, r@[i].0 as nat),
    {
        regex_find_all(self, haystack)
    }

    /// Whether the pattern matches somewhere in `haystack`.
    pub fn is_match(&self, haystack: &str) -> (r: bool)
        ensures
            r == regex_finds(self@, haystack@),
    {
        regex_is_match(self, haystack)
    }
}

/// The character that the key listener types in place of a space while a
/// search is being entered; in a search it stands for "anything in between".
pub const SEARCH_SEPARATOR: char = '\u{f1050}';

/// `parts` joined with `sep` between each two.
pub open spec fn join_with(parts: Seq<Seq<char>>, sep: Seq<char>) -> Seq<char>
    decreases parts.len(),
{
    if parts.len() == 0 {
        Seq::empty()
    } else if parts.len() == 1 {
        parts[0]
    } else {
        join_with(parts.drop_last(), sep) + sep + parts.last()
    }
}

pub open spec fn is_nonempty(p: Seq<char>) -> bool {
    p.len() > 0
}

/// The regex source for a search: the words between separators, empty ones
/// dropped, must occur in order, with anything before, between and after.
pub open spec fn search_source(text: Seq<char>) -> Seq<char> {
    let words = split_on(text, SEARCH_SEPARATOR).filter(|p: Seq<char>| is_nonempty(p));
    ".*"@ + join_with(words, ".*"@) + ".*"@
}

/// The search pattern for what was typed: none for an empty query, and none
/// either when its source does not compile, so that a query in the middle of
/// being typed filters nothing out.
pub fn search_regex(text: &str) -> (r: Option<Pattern>)
    ensures
        text@.len() == 0 ==> r is None,
        text@.len() > 0 ==> (r is Some <==> regex_accepts(search_source(text@))),
        r matches Some(p) ==> p@ == search_source(text@),
{
    if text.unicode_len() == 0 {
        return None;
    }
    let parts = split_char(text, SEARCH_SEPARATOR);
    let ghost views = parts@.map_values(|p: String| p@);
    let ghost pred = |p: Seq<char>| is_nonempty(p);
    let mut joined = String::new();
    let mut first = true;
    let mut i: usize = 0;
    proof {
        reveal_strlit(".*");
    }
    while i < parts.len()
        invariant
            views == parts@.map_values(|p: String| p@),
            views == split_on(text@, SEARCH_SEPARATOR),
            pred == (|p: Seq<char>| is_nonempty(p)),
            i <= parts@.len(),
            first <==> views.take(i as int).filter(pred).len() == 0,
            joined@ == join_with(views.take(i as int).filter(pred), ".*"@),
            ".*"@ == seq!['.', '*'],
        decreases parts@.len() - i,
    {
        let ghost before = views.take(i as int).filter(pred);
        proof {
            reveal(Seq::filter);
        }
        assert(views.take(i + 1).drop_last() =~= views.take(i as int));
        assert(views.take(i + 1).last() == parts@[i as int]@);
        let part = &parts[i];
        if part.unicode_len() > 0 {
            let ghost after = before.push(part@);
            assert(views.take(i + 1).filter(pred) == after);
            assert(after.drop_last() =~= before);
            if !first {
                joined.append(".*");
            } else {
                assert(before.len() == 0);
                assert(joined@ =~= Seq::<char>::empty());
            }
            joined.append(part.as_str());
            first = false;
        } else {
            assert(views.take(i + 1).filter(pred) == before);
        }
        i = i + 1;
    }
    assert(views.take(i as int) =~= views);
    let mut source = String::new();
    source.append(".*");
    source.append(joined.as_str());
    source.append(".*");
    match Pattern::new(source.as_str()) {
        Ok(p) => Some(p),
        Err(_) => None,
    }
}

/// Stray separators do not change a search: one at either end, or one
/// doubled, gives the same pattern as without.
pub proof fn law_stray_separators_collapse(a: Seq<char>, b: Seq<char>)
    ensures
        search_source(seq![SEARCH_SEPARATOR] + b) == search_source(b),
        search_source(a + seq![SEARCH_SEPARATOR]) == search_source(a),
        search_source(a + seq![SEARCH_SEPARATOR, SEARCH_SEPARATOR] + b) == search_source(
            a + seq![SEARCH_SEPARATOR] + b,
        ),
{
    let sep = SEARCH_SEPARATOR;
    let pred = |p: Seq<char>| is_nonempty(p);
    let e = Seq::<char>::empty();
    let empty_part = seq![e];
    assert(split_on(e, sep) =~= empty_part);
    assert(empty_part.filter(pred) =~= Seq::<Seq<char>>::empty()) by {
        reveal(Seq::filter);
        assert(empty_part.drop_last() =~= Seq::<Seq<char>>::empty());
        assert(Seq::<Seq<char>>::empty().filter(pred) =~= Seq::<Seq<char>>::empty());
        assert(!pred(empty_part.last()));
    }
    lemma_split_joined(e, b, sep);
    assert(e + seq![sep] + b =~= seq![sep] + b);
    Seq::filter_distributes_over_add(empty_part, split_on(b, sep), pred);
    assert(empty_part.filter(pred) + split_on(b, sep).filter(pred) =~= split_on(b, sep).filter(pred));
    lemma_split_joined(a, e, sep);
    assert(a + seq![sep] + e =~= a + seq![sep]);
    Seq::filter_distributes_over_add(split_on(a, sep), empty_part, pred);
    assert(split_on(a, sep).filter(pred) + empty_part.filter(pred) =~= split_on(a, sep).filter(pred));
    lemma_split_joined(a, seq![sep] + b, sep);
    assert(a + seq![sep, sep] + b =~= a + seq![sep] + (seq![sep] + b));
    lemma_split_joined(a, b, sep);
    Seq::filter_distributes_over_add(split_on(a, sep), split_on(seq![sep] + b, sep), pred);
    Seq::filter_distributes_over_add(split_on(a, sep), split_on(b, sep), pred);
}

} // verus!
