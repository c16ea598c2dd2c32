//! The word picker: a text cut into words, each with a hint label, from which
//! words are picked by label or by search.

use vstd::prelude::*;
use crate::hint_keys::{HintKeys, digits_for_len_spec, label_spec};
use crate::pattern::{Pattern, occurs_at_byte, regex_accepts, regex_finds, search_regex, search_source};
use crate::key_listener::{push_skipped, skip_chars};
use crate::text::starts_with;
use crate::std_text::chars_of;
use crate::utf8::{byte_len, byte_offset, lemma_byte_offset_monotone};
use crate::util::{folded, lower_ascii, str_width, unicode_str_width};
use crate::word_split::{
    SCRIPT_SEGMENT_PATTERN, URL_PATTERN, lemma_occurs_bound, lemma_offset_within,
    multilingual_split, split_spec,
};

verus! {

/// A word of the picked text: the word itself, its hint label, and the folded
/// form searches are matched against.
pub struct Word {
    pub text: String,
    pub label: String,
    pub ascii: String,
}

pub struct WordModel {
    pub text: Seq<char>,
    pub label: Seq<char>,
    pub ascii: Seq<char>,
}

impl View for Word {
    type V = WordModel;

    open spec fn view(&self) -> WordModel {
        WordModel { text: self.text@, label: self.label@, ascii: self.ascii@ }
    }
}

pub struct WordPickerModel {
    pub raw: Seq<char>,
    pub words: Seq<WordModel>,
    pub offsets: Seq<usize>,
    pub digits: u32,
    pub matched: Seq<usize>,
}

/// A text cut into labelled words, with the words that matched the last
/// rendering.
pub struct WordPicker {
    raw: String,
    words: Vec<Word>,
    offsets: Vec<usize>,
    digits: u32,
    matched: Vec<usize>,
}

impl View for WordPicker {
    type V = WordPickerModel;

    closed spec fn view(&self) -> WordPickerModel {
        WordPickerModel {
            raw: self.raw@,
            words: self.words@.map_values(|w: Word| w@),
            offsets: self.offsets@,
            digits: self.digits,
            matched: self.matched@,
        }
    }
}

/// Whether `b` is the byte offset of a character of `s`, or of its end.
pub open spec fn is_boundary(s: Seq<char>, b: int) -> bool {
    exists|k: int| 0 <= k <= s.len() && #[trigger] byte_offset(s, k) == b
}

/// The character index whose byte offset in `s` is `b`.
pub open spec fn boundary_index(s: Seq<char>, b: int) -> int {
    choose|k: int| 0 <= k <= s.len() && #[trigger] byte_offset(s, k) == b
}

/// The text between two byte offsets, as `str::get` gives it: none unless
/// both are character boundaries in order.
pub open spec fn byte_slice(s: Seq<char>, from: int, to: int) -> Option<Seq<char>> {
    if is_boundary(s, from) && is_boundary(s, to) && from <= to {
        Some(s.subrange(boundary_index(s, from), boundary_index(s, to)))
    } else {
        None
    }
}

pub open spec fn opt_view(o: Option<String>) -> Option<Seq<char>> {
    match o {
        Some(s) => Some(s@),
        None => None,
    }
}

/// Byte offsets name characters uniquely.
pub proof fn lemma_boundary_unique(s: Seq<char>, b: int, k: int)
    requires
        0 <= k <= s.len(),
        byte_offset(s, k) == b,
    ensures
        is_boundary(s, b),
        boundary_index(s, b) == k,
{
    let c = boundary_index(s, b);
    if c < k {
        lemma_byte_offset_monotone(s, c, k);
    } else if c > k {
        lemma_byte_offset_monotone(s, k, c);
    }
}

/// The picker's words for a split: each with its label and folded form.
pub open spec fn words_for(split: Seq<(nat, Seq<char>)>, keys: Seq<char>, digits: u32) -> Seq<
    WordModel,
> {
    Seq::new(
        split.len(),
        |i: int|
            WordModel {
                text: split[i].1,
                label: label_spec(keys, i as nat, Some(digits)),
                ascii: folded(split[i].1),
            },
    )
}

/// The matches that still name a word.
pub open spec fn live_matches(m: WordPickerModel) -> Seq<usize> {
    m.matched.filter(|i: usize| (i as int) < m.words.len())
}

/// Whether some match names a word and every match that does names the same
/// text.
pub open spec fn one_word(m: WordPickerModel) -> bool {
    let l = live_matches(m);
    &&& l.len() > 0
    &&& forall|j: int| 0 <= j < l.len() ==> m.words[#[trigger] l[j] as int].text == m.words[l[0] as int].text
}

/// The search pattern a query gives, by its source: none for an empty query
/// or one whose pattern does not compile.
pub open spec fn search_view(query: Seq<char>) -> Option<Seq<char>> {
    if query.len() == 0 {
        None
    } else if regex_accepts(search_source(query)) {
        Some(search_source(query))
    } else {
        None
    }
}

/// `text` in a span of the given class.
pub open spec fn span_html(text: Seq<char>, class: Seq<char>) -> Seq<char> {
    "<span class=\""@ + class + "\">"@ + text + "</span>"@
}

/// A matched label: the typed prefix dimmed, the rest highlighted.
pub open spec fn matched_label_html(prefix: Seq<char>, label: Seq<char>) -> Seq<char> {
    "<span class=\"d\">"@ + prefix + "</span><span class=\"h\">"@ + skip_chars(label, prefix.len())
        + "</span>"@
}

/// How one word is drawn: its class, its label's markup, and whether it
/// matched the prefix and search.
pub open spec fn word_entry(
    w: WordModel,
    idx: int,
    selected: Option<usize>,
    label_prefix: Seq<char>,
    text_prefix: Seq<char>,
) -> (Seq<char>, Seq<char>, bool) {
    if selected == Some(idx as usize) {
        ("rh"@, span_html(w.label, "d"@), false)
    } else if (label_prefix.len() > 0 || text_prefix.len() > 0) && label_prefix.is_prefix_of(w.label)
        && match search_view(text_prefix) {
        None => true,
        Some(p) => regex_finds(p, w.ascii),
    } {
        ("m"@, matched_label_html(label_prefix, w.label), true)
    } else if label_prefix.len() == 0 && text_prefix.len() == 0 {
        ("n"@, span_html(w.label, "h"@), false)
    } else {
        ("d"@, span_html(w.label, "d"@), false)
    }
}

/// The markup of one word.
pub open spec fn word_html(w: WordModel, entry: (Seq<char>, Seq<char>, bool)) -> Seq<char> {
    "<span class=\""@ + entry.0 + "\">"@ + w.text + "</span> "@ + entry.1 + " "@
}

/// The columns one word takes on a line, with its label and spacing.
pub open spec fn word_columns(w: WordModel, digits: u32) -> int {
    unicode_str_width(w.text) + digits + 2
}

/// The lines of the first `n` words, each line a span, broken where the next
/// word would pass `ideal` columns; with the columns of the last line.
pub open spec fn layout(
    m: WordPickerModel,
    n: int,
    ideal: int,
    selected: Option<usize>,
    label_prefix: Seq<char>,
    text_prefix: Seq<char>,
) -> (Seq<char>, int)
    decreases n,
{
    if n <= 0 {
        ("<span class=\"line\">"@, 0)
    } else {
        let (buf, lw) = layout(m, n - 1, ideal, selected, label_prefix, text_prefix);
        let w = m.words[n - 1];
        let html = word_html(w, word_entry(w, n - 1, selected, label_prefix, text_prefix));
        let cols = word_columns(w, m.digits);
        if lw + cols <= ideal {
            (buf + html, lw + cols)
        } else if lw > 0 {
            (buf + "</span>"@ + "<span class=\"line\">"@ + html, cols)
        } else {
            (buf + html, cols)
        }
    }
}

/// The indices of the first `n` words that match.
pub open spec fn matches_of(
    m: WordPickerModel,
    n: int,
    selected: Option<usize>,
    label_prefix: Seq<char>,
    text_prefix: Seq<char>,
) -> Seq<usize>
    decreases n,
{
    if n <= 0 {
        Seq::empty()
    } else {
        let before = matches_of(m, n - 1, selected, label_prefix, text_prefix);
        if word_entry(m.words[n - 1], n - 1, selected, label_prefix, text_prefix).2 {
            before.push((n - 1) as usize)
        } else {
            before
        }
    }
}

/// Whether word `i` is a match: something was typed, its label begins with the
/// typed label prefix, the search (where the query compiles) finds its folded
/// text, and it is not the range end already picked.
pub open spec fn is_match_of(
    m: WordPickerModel,
    i: int,
    selected: Option<usize>,
    label_prefix: Seq<char>,
    text_prefix: Seq<char>,
) -> bool {
    &&& label_prefix.len() > 0 || text_prefix.len() > 0
    &&& label_prefix.is_prefix_of(m.words[i].label)
    &&& (search_view(text_prefix) matches Some(p) ==> regex_finds(p, m.words[i].ascii))
    &&& selected != Some(i as usize)
}

/// The matches among the first `n` words are exactly the words, in order,
/// whose label begins with the typed prefix and whose folded text the search
/// finds: a label prefix never overrides the search, nor a search the prefix.
pub proof fn law_matches_follow_prefix_and_search(
    m: WordPickerModel,
    n: int,
    selected: Option<usize>,
    label_prefix: Seq<char>,
    text_prefix: Seq<char>,
)
    requires
        0 <= n <= m.words.len(),
        n <= usize::MAX,
    ensures
        forall|k: int|
            0 <= k < matches_of(m, n, selected, label_prefix, text_prefix).len() ==> {
                let i = #[trigger] matches_of(m, n, selected, label_prefix, text_prefix)[k] as int;
                &&& 0 <= i < n
                &&& is_match_of(m, i, selected, label_prefix, text_prefix)
            },
        forall|i: int|
            0 <= i < n && is_match_of(m, i, selected, label_prefix, text_prefix) ==> matches_of(
                m,
                n,
                selected,
                label_prefix,
                text_prefix,
            ).contains(i as usize),
        forall|a: int, b: int|
            0 <= a < b < matches_of(m, n, selected, label_prefix, text_prefix).len() ==> (
            #[trigger] matches_of(m, n, selected, label_prefix, text_prefix)[a]) < (
            #[trigger] matches_of(m, n, selected, label_prefix, text_prefix)[b]),
    decreases n,
{
    if n > 0 {
        law_matches_follow_prefix_and_search(m, n - 1, selected, label_prefix, text_prefix);
        let before = matches_of(m, n - 1, selected, label_prefix, text_prefix);
        let now = matches_of(m, n, selected, label_prefix, text_prefix);
        let w = m.words[n - 1];
        let e = word_entry(w, n - 1, selected, label_prefix, text_prefix);
        assert(e.2 == is_match_of(m, n - 1, selected, label_prefix, text_prefix));
        if e.2 {
            assert(now == before.push((n - 1) as usize));
            assert forall|i: int|
                0 <= i < n && is_match_of(m, i, selected, label_prefix, text_prefix) implies now.contains(
                i as usize,
            ) by {
                if i < n - 1 {
                    let k = choose|k: int| 0 <= k < before.len() && before[k] == i as usize;
                    assert(now[k] == i as usize);
                } else {
                    assert(now[before.len() as int] == i as usize);
                }
            }
        } else {
            assert(now == before);
        }
    }
}

/// The whole picker's markup/// The whole picker's markup: a hint line, then the words in lines.
pub open spec fn picker_html(
    m: WordPickerModel,
    ideal: int,
    selected: Option<usize>,
    label_prefix: Seq<char>,
    text_prefix: Seq<char>,
) -> Seq<char> {
    let n = m.words.len() as int;
    let hint = if !(label_prefix.len() == 0 && text_prefix.len() == 0) && matches_of(
        m,
        n,
        selected,
        label_prefix,
        text_prefix,
    ).len() == 0 {
        "Press \u{f006e} to return"@
    } else {
        "Press / to search"@
    };
    "<span class=\"h\">"@ + hint + "</span>\n"@ + layout(m, n, ideal, selected, label_prefix, text_prefix).0
        + "</span>"@
}

/// The columns the first `n` words take with their labels and spacing.
pub open spec fn columns_sum(words: Seq<WordModel>, digits: u32, n: int) -> int
    decreases n,
{
    if n <= 0 {
        0
    } else {
        columns_sum(words, digits, n - 1) + word_columns(words[n - 1], digits)
    }
}

/// The character index in `s` of the byte offset `b`, given the table `t` of
/// the byte offsets of `s`.
fn index_of_offset(t: &Vec<usize>, b: usize, s: Ghost<Seq<char>>) -> (r: Option<usize>)
    requires
        t@.len() == s@.len() + 1,
        forall|k: int| 0 <= k <= s@.len() ==> #[trigger] t@[k] == byte_offset(s@, k),
    ensures
        r is Some <==> is_boundary(s@, b as int),
        r matches Some(k) ==> k == boundary_index(s@, b as int) && k <= s@.len(),
{
    let mut k: usize = 0;
    while k < t.len()
        invariant
            t@.len() == s@.len() + 1,
            forall|j: int| 0 <= j <= s@.len() ==> #[trigger] t@[j] == byte_offset(s@, j),
            k <= t@.len(),
            forall|j: int| 0 <= j < k ==> byte_offset(s@, j) != b,
        decreases t@.len() - k,
    {
        if t[k] == b {
            proof {
                assert(byte_offset(s@, k as int) == b);
                let c = boundary_index(s@, b as int);
                if c != k {
                    if c < k {
                        lemma_byte_offset_monotone(s@, c, k as int);
                    } else {
                        lemma_byte_offset_monotone(s@, k as int, c);
                    }
                }
            }
            return Some(k);
        }
        k = k + 1;
    }
    None
}

/// How many bytes `s` takes.
fn utf8_size(s: &str) -> (r: usize)
    requires
        byte_len(s@) <= usize::MAX,
    ensures
        r == byte_len(s@),
{
    let v = chars_of(s);
    let mut acc: usize = 0;
    let mut i: usize = 0;
    while i < v.len()
        invariant
            v@ == s@,
            i <= v@.len(),
            byte_len(s@) <= usize::MAX,
            acc == byte_offset(s@, i as int),
        decreases v@.len() - i,
    {
        assert(s@.take(i + 1).drop_last() =~= s@.take(i as int));
        proof {
            lemma_byte_offset_monotone(s@, i + 1, s@.len() as int);
        }
        acc = acc + crate::utf8::char_utf8_len(v[i]);
        i = i + 1;
    }
    assert(s@.take(i as int) =~= s@);
    acc
}

/// The byte offsets of every character of `s`, and of its end.
fn offset_table(s: &str) -> (t: Vec<usize>)
    requires
        byte_len(s@) <= usize::MAX,
    ensures
        t@.len() == s@.len() + 1,
        forall|k: int| 0 <= k <= s@.len() ==> #[trigger] t@[k] == byte_offset(s@, k),
{
    let v = chars_of(s);
    let mut t: Vec<usize> = Vec::new();
    t.push(0);
    assert(s@.take(0) =~= Seq::<char>::empty());
    let mut acc: usize = 0;
    let mut i: usize = 0;
    while i < v.len()
        invariant
            v@ == s@,
            i <= v@.len(),
            byte_len(s@) <= usize::MAX,
            t@.len() == i + 1,
            acc == byte_offset(s@, i as int),
            forall|k: int| 0 <= k <= i ==> #[trigger] t@[k] == byte_offset(s@, k),
        decreases v@.len() - i,
    {
        assert(s@.take(i + 1).drop_last() =~= s@.take(i as int));
        proof {
            lemma_byte_offset_monotone(s@, i + 1, s@.len() as int);
        }
        acc = acc + crate::utf8::char_utf8_len(v[i]);
        t.push(acc);
        i = i + 1;
    }
    t
}

impl WordPicker {
    #[verifier::type_invariant]
    closed spec fn well_formed(self) -> bool {
        &&& self.words@.len() == self.offsets@.len()
        &&& byte_len(self.raw@) <= usize::MAX
        &&& forall|i: int|
            0 <= i < self.words@.len() ==> occurs_at_byte(
                self.raw@,
                (#[trigger] self.words@[i]).text@,
                self.offsets@[i] as nat,
            )
    }

    /// Cuts `text` into words and labels them with `hint_keys`, all labels of
    /// one width. `None` only where the regex compiler refuses one of the
    /// fixed splitting patterns.
    pub fn new(text: String, hint_keys: &HintKeys) -> (r: Option<WordPicker>)
        requires
            byte_len(text@) <= usize::MAX,
        ensures
            r is Some <==> regex_accepts(URL_PATTERN@) && regex_accepts(SCRIPT_SEGMENT_PATTERN@),
            r matches Some(wp) ==> {
                let split = split_spec(text@, URL_PATTERN@, SCRIPT_SEGMENT_PATTERN@);
                &&& wp@.raw == text@
                &&& wp@.digits == digits_for_len_spec(split.len(), hint_keys@.len())
                &&& wp@.words == words_for(split, hint_keys@, wp@.digits)
                &&& wp@.offsets.len() == split.len()
                &&& forall|i: int| 0 <= i < split.len() ==> #[trigger] wp@.offsets[i] as nat == split[i].0
                &&& wp@.matched.len() == 0
            },
    {
        let (word_strings, offsets) = match multilingual_split(text.as_str()) {
            Some(p) => p,
            None => return None,
        };
        let ghost split = split_spec(text@, URL_PATTERN@, SCRIPT_SEGMENT_PATTERN@);
        assert forall|k: int| 0 <= k < split.len() implies #[trigger] offsets@[k] as nat
            == split[k].0 by {
            assert(word_strings@[k]@ == split[k].1);
        }
        let digits = hint_keys.digits_for_len(word_strings.len());
        let mut words: Vec<Word> = Vec::new();
        let mut i: usize = 0;
        while i < word_strings.len()
            invariant
                word_strings@.len() == split.len(),
                offsets@.len() == split.len(),
                forall|k: int| 0 <= k < split.len() ==> #[trigger] word_strings@[k]@ == split[k].1,
                forall|k: int| 0 <= k < split.len() ==> #[trigger] offsets@[k] as nat == split[k].0,
                forall|k: int|
                    0 <= k < word_strings@.len() ==> occurs_at_byte(
                        text@,
                        #[trigger] word_strings@[k]@,
                        offsets@[k] as nat,
                    ),
                i <= word_strings@.len(),
                words@.len() == i,
                forall|k: int|
                    0 <= k < i ==> #[trigger] words@[k]@ == words_for(split, hint_keys@, digits)[k],
            decreases word_strings@.len() - i,
        {
            let text_i = word_strings[i].clone();
            let label = hint_keys.label_for_index(i, Some(digits));
            let ascii = lower_ascii(text_i.as_str());
            words.push(Word { text: text_i, label, ascii });
            i = i + 1;
        }
        assert forall|k: int| 0 <= k < words@.len() implies occurs_at_byte(
            text@,
            (#[trigger] words@[k]).text@,
            offsets@[k] as nat,
        ) by {
            assert(words@[k]@ == words_for(split, hint_keys@, digits)[k]);
            assert(word_strings@[k]@ == split[k].1);
        }
        let wp = WordPicker { raw: text, words, offsets, digits, matched: Vec::new() };
        assert(wp@.words =~= words_for(split, hint_keys@, digits));
        assert forall|i: int| 0 <= i < split.len() implies #[trigger] wp@.offsets[i] as nat
            == split[i].0 by {
            assert(word_strings@[i]@ == split[i].1);
        }
        Some(wp)
    }

    /// Width of every label.
    pub fn digits(&self) -> (r: u32)
        ensures
            r == self@.digits,
    {
        self.digits
    }

    /// How many words match the current prefix and search.
    pub fn matched_count(&self) -> (r: usize)
        ensures
            r == live_matches(self@).len(),
    {
        let n = self.words.len();
        let mut count: usize = 0;
        let mut i: usize = 0;
        let ghost m = self@;
        while i < self.matched.len()
            invariant
                m == self@,
                n == m.words.len(),
                i <= m.matched.len(),
                count == m.matched.take(i as int).filter(|i: usize| (i as int) < m.words.len()).len(),
            decreases m.matched.len() - i,
        {
            proof {
                reveal(Seq::filter);
                assert(m.matched.take(i + 1).drop_last() =~= m.matched.take(i as int));
            }
            if self.matched[i] < n {
                count = count + 1;
            }
            i = i + 1;
        }
        assert(m.matched.take(i as int) =~= m.matched);
        count
    }

    /// Whether every match is the same word, which keeps a pick unambiguous
    /// even though several copies of it matched. False when nothing matched.
    pub fn all_matches_are_one_word(&self) -> (r: bool)
        ensures
            r == one_word(self@),
    {
        let n = self.words.len();
        let ghost m = self@;
        let ghost pred = |i: usize| (i as int) < m.words.len();
        let mut first: Option<usize> = None;
        let mut i: usize = 0;
        while i < self.matched.len()
            invariant
                m == self@,
                n == m.words.len(),
                pred == (|i: usize| (i as int) < m.words.len()),
                i <= m.matched.len(),
                first is None <==> m.matched.take(i as int).filter(pred).len() == 0,
                first matches Some(f) ==> f == m.matched.take(i as int).filter(pred)[0] && f < n,
                forall|j: int|
                    0 <= j < m.matched.take(i as int).filter(pred).len() ==> m.words[#[trigger] m.matched.take(
                        i as int,
                    ).filter(pred)[j] as int].text == m.words[first->0 as int].text,
            decreases m.matched.len() - i,
        {
            let ghost before = m.matched.take(i as int).filter(pred);
            proof {
                reveal(Seq::filter);
                assert(m.matched.take(i + 1).drop_last() =~= m.matched.take(i as int));
                assert(m.matched =~= m.matched.take(i + 1) + m.matched.skip(i + 1));
                Seq::filter_distributes_over_add(m.matched.take(i + 1), m.matched.skip(i + 1), pred);
            }
            let idx = self.matched[i];
            if idx < n {
                let ghost after = before.push(idx);
                assert(m.matched.take(i + 1).filter(pred) == after);
                match first {
                    None => {
                        first = Some(idx);
                    },
                    Some(f) => {
                        if self.words[idx].text != self.words[f].text {
                            assert(live_matches(m)[before.len() as int] == idx);
                            assert(live_matches(m)[0] == f);
                            return false;
                        }
                    },
                }
            } else {
                assert(m.matched.take(i + 1).filter(pred) == before);
            }
            i = i + 1;
        }
        assert(m.matched.take(i as int) =~= m.matched);
        first.is_some()
    }

    /// The raw text from the start of one word to the end of another, either
    /// given first; none when an index names no word.
    pub fn select_range(&self, idx1: usize, idx2: usize) -> (r: Option<String>)
        ensures
            ({
                let m = self@;
                let (start, end) = if idx1 < idx2 {
                    (idx1 as int, idx2 as int)
                } else {
                    (idx2 as int, idx1 as int)
                };
                if end < m.offsets.len() {
                    opt_view(r) == byte_slice(
                        m.raw,
                        m.offsets[start] as int,
                        m.offsets[end] + byte_len(m.words[end].text),
                    )
                } else {
                    r is None
                }
            }),
            idx1 == idx2 && (idx1 as int) < self@.words.len() ==> opt_view(r) == Some(
                self@.words[idx1 as int].text,
            ),
    {
        proof {
            use_type_invariant(self);
        }
        let (start, end) = if idx1 < idx2 {
            (idx1, idx2)
        } else {
            (idx2, idx1)
        };
        if end >= self.offsets.len() {
            return None;
        }
        let ghost raw = self.raw@;
        let ghost text = self.words@[end as int].text@;
        let ghost o = self.offsets@[end as int] as nat;
        proof {
            assert(occurs_at_byte(raw, text, o));
            lemma_occurs_bound(raw, text, o);
            let k = choose|k: int|
                0 <= k && k + text.len() <= raw.len() && #[trigger] byte_offset(raw, k) == o
                    && raw.subrange(k, k + text.len()) == text;
            lemma_offset_within(raw, k, k + text.len(), text.len() as int);
            assert(text.take(text.len() as int) =~= text);
            lemma_boundary_unique(raw, o as int, k);
            lemma_boundary_unique(raw, (o + byte_len(text)) as int, k + text.len());
        }
        let s_off = self.offsets[start];
        let e_off = self.offsets[end] + utf8_size(self.words[end].text.as_str());
        let t = offset_table(self.raw.as_str());
        let a = index_of_offset(&t, s_off, Ghost(raw));
        let b = index_of_offset(&t, e_off, Ghost(raw));
        match (a, b) {
            (Some(a), Some(b)) => {
                if s_off <= e_off {
                    proof {
                        if b < a {
                            lemma_byte_offset_monotone(raw, b as int, a as int);
                        }
                    }
                    Some(String::from_str(self.raw.as_str().substring_char(a, b)))
                } else {
                    None
                }
            },
            _ => None,
        }
    }

    /// The markup of the picker for a label prefix and a search query, its
    /// lines broken near `ideal_width` columns, and the indices of the words
    /// that match. The word at `multi_selection_idx`, one end of a range
    /// already picked, is set apart.
    pub fn to_string(
        &self,
        ideal_width: usize,
        multi_selection_idx: Option<usize>,
        label_prefix: &str,
        text_prefix: &str,
    ) -> (r: (String, Vec<usize>))
        ensures
            r.0@ == picker_html(
                self@,
                ideal_width as int,
                multi_selection_idx,
                label_prefix@,
                text_prefix@,
            ),
            r.1@ == matches_of(
                self@,
                self@.words.len() as int,
                multi_selection_idx,
                label_prefix@,
                text_prefix@,
            ),
    {
        let ghost m = self@;
        let ghost lp = label_prefix@;
        let ghost tp = text_prefix@;
        let pattern = search_regex(text_prefix);
        let no_prefix = label_prefix.unicode_len() == 0 && text_prefix.unicode_len() == 0;
        let mut buffer = String::from_str("<span class=\"line\">");
        let mut line_width: u128 = 0;
        let mut matched: Vec<usize> = Vec::new();
        let mut idx: usize = 0;
        while idx < self.words.len()
            invariant
                m == self@,
                lp == label_prefix@,
                tp == text_prefix@,
                no_prefix == (lp.len() == 0 && tp.len() == 0),
                match pattern {
                    Some(p) => search_view(tp) == Some(p@),
                    None => search_view(tp) is None,
                },
                idx <= m.words.len(),
                (buffer@, line_width as int) == layout(m, idx as int, ideal_width as int, multi_selection_idx, lp, tp),
                line_width <= ideal_width || line_width <= usize::MAX + 0x1_0000_0002u128,
                matched@ == matches_of(m, idx as int, multi_selection_idx, lp, tp),
            decreases m.words.len() - idx,
        {
            let w = &self.words[idx];
            let ghost wm = m.words[idx as int];
            assert(w@ == wm);
            let selected = match multi_selection_idx {
                Some(o) => o == idx,
                None => false,
            };
            let mut label_html = String::new();
            let mut is_match = false;
            let class: &str;
            if selected {
                class = "rh";
                label_html.append("<span class=\"");
                label_html.append("d");
                label_html.append("\">");
                label_html.append(w.label.as_str());
                label_html.append("</span>");
            } else if !no_prefix && starts_with(w.label.as_str(), label_prefix) && match &pattern {
                None => true,
                Some(p) => p.is_match(w.ascii.as_str()),
            } {
                class = "m";
                is_match = true;
                label_html.append("<span class=\"d\">");
                label_html.append(label_prefix);
                label_html.append("</span><span class=\"h\">");
                push_skipped(&mut label_html, w.label.as_str(), label_prefix.unicode_len());
                label_html.append("</span>");
            } else if no_prefix {
                class = "n";
                label_html.append("<span class=\"");
                label_html.append("h");
                label_html.append("\">");
                label_html.append(w.label.as_str());
                label_html.append("</span>");
            } else {
                class = "d";
                label_html.append("<span class=\"");
                label_html.append("d");
                label_html.append("\">");
                label_html.append(w.label.as_str());
                label_html.append("</span>");
            }
            let ghost entry = word_entry(wm, idx as int, multi_selection_idx, lp, tp);
            assert(class@ == entry.0 && label_html@ =~= entry.1 && is_match == entry.2);
            if is_match {
                matched.push(idx);
            }
            let mut span = String::from_str("<span class=\"");
            span.append(class);
            span.append("\">");
            span.append(w.text.as_str());
            span.append("</span> ");
            span.append(label_html.as_str());
            span.append(" ");
            assert(span@ =~= word_html(wm, entry));
            let cols: u128 = str_width(w.text.as_str()) as u128 + self.digits as u128 + 2;
            if line_width + cols <= ideal_width as u128 {
                line_width = line_width + cols;
            } else {
                if line_width > 0 {
                    buffer.append("</span>");
                    buffer.append("<span class=\"line\">");
                }
                line_width = cols;
            }
            buffer.append(span.as_str());
            idx = idx + 1;
        }
        let mut out = String::from_str("<span class=\"h\">");
        if !no_prefix && matched.len() == 0 {
            out.append("Press \u{f006e} to return");
        } else {
            out.append("Press / to search");
        }
        out.append("</span>\n");
        out.append(buffer.as_str());
        out.append("</span>");
        (out, matched)
    }

    /// Renders the picker as [`Self::to_string`] does and keeps the indices of
    /// the words that matched; returns the markup for the text layer.
    pub fn update_text_layer(
        &mut self,
        ideal_width: usize,
        multi_selection_idx: Option<usize>,
        label_prefix: &str,
        text_prefix: &str,
    ) -> (r: String)
        ensures
            r@ == picker_html(
                old(self)@,
                ideal_width as int,
                multi_selection_idx,
                label_prefix@,
                text_prefix@,
            ),
            final(self)@ == (WordPickerModel {
                matched: matches_of(
                    old(self)@,
                    old(self)@.words.len() as int,
                    multi_selection_idx,
                    label_prefix@,
                    text_prefix@,
                ),
                ..old(self)@
            }),
    {
        let (html, matched) = self.to_string(ideal_width, multi_selection_idx, label_prefix, text_prefix);
        proof {
            use_type_invariant(&*self);
        }
        self.matched = matched;
        html
    }

    /// The columns all words take with their labels and spacing, from which
    /// the ideal line width is chosen; `u128::MAX` where the sum is larger.
    pub fn total_width(&self) -> (r: u128)
        ensures
            r == if columns_sum(self@.words, self@.digits, self@.words.len() as int) > u128::MAX {
                u128::MAX as int
            } else {
                columns_sum(self@.words, self@.digits, self@.words.len() as int)
            },
    {
        let ghost m = self@;
        let mut sum: u128 = 0;
        let mut i: usize = 0;
        while i < self.words.len()
            invariant
                m == self@,
                i <= m.words.len(),
                sum == if columns_sum(m.words, m.digits, i as int) > u128::MAX {
                    u128::MAX as int
                } else {
                    columns_sum(m.words, m.digits, i as int)
                },
            decreases m.words.len() - i,
        {
            assert(self.words@[i as int]@ == m.words[i as int]);
            let cols: u128 = str_width(self.words[i].text.as_str()) as u128 + self.digits as u128 + 2;
            if sum > u128::MAX - cols {
                sum = u128::MAX;
            } else {
                sum = sum + cols;
            }
            i = i + 1;
        }
        sum
    }

    /// The first match that still names a word, as its index and text.
    pub fn first_matched_word(&self) -> (r: Option<(usize, &str)>)
        ensures
            live_matches(self@).len() == 0 ==> r is None,
            live_matches(self@).len() > 0 ==> (r matches Some((i, t)) && i == live_matches(self@)[0]
                && t@ == self@.words[i as int].text),
    {
        let n = self.words.len();
        let ghost m = self@;
        let mut i: usize = 0;
        while i < self.matched.len()
            invariant
                m == self@,
                n == m.words.len(),
                i <= m.matched.len(),
                m.matched.take(i as int).filter(|i: usize| (i as int) < m.words.len()).len() == 0,
            decreases m.matched.len() - i,
        {
            proof {
                reveal(Seq::filter);
                assert(m.matched.take(i + 1).drop_last() =~= m.matched.take(i as int));
            }
            let idx = self.matched[i];
            if idx < n {
                proof {
                    let pred = |i: usize| (i as int) < m.words.len();
                    assert(m.matched =~= m.matched.take(i + 1) + m.matched.skip(i + 1));
                    Seq::filter_distributes_over_add(m.matched.take(i + 1), m.matched.skip(i + 1), pred);
                    assert(m.matched.take(i + 1).filter(pred) =~= seq![idx]);
                }
                return Some((idx, self.words[idx].text.as_str()));
            }
            i = i + 1;
        }
        assert(m.matched.take(i as int) =~= m.matched);
        None
    }
}

} // verus!
