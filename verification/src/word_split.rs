//! Cutting a text into pickable words, each with its byte offset in the text.
//!
//! Three levels, each tried only where the one before left a single word:
//! whitespace and script boundaries, then ASCII punctuation, then runs of
//! ASCII against single non-ASCII characters.

use vstd::prelude::*;
use crate::pattern::{
    Pattern, PatternError, occurs_at_byte, regex_accepts, regex_finds, regex_match_list,
};
use crate::std_text::chars_of;
use crate::text::{is_ascii_punct, is_ascii_punctuation, is_unicode_whitespace, is_whitespace};
use crate::utf8::{
    byte_len, byte_offset, char_utf8_len, lemma_byte_len_concat, lemma_byte_offset_monotone,
    utf8_len,
};

verus! {

/// A URL: a scheme, `://`, and no whitespace after it.
pub const URL_PATTERN: &'static str = "^[a-zA-Z][a-zA-Z0-9+.-]*://\\S+$";

/// A run of CJK characters, or a run of anything else.
pub const SCRIPT_SEGMENT_PATTERN: &'static str = "([\\u{4E00}-\\u{9FFF}\\u{3040}-\\u{30FF}\\u{AC00}-\\u{D7AF}]+|[^\\u{4E00}-\\u{9FFF}\\u{3040}-\\u{30FF}\\u{AC00}-\\u{D7AF}]+)";

/// The separators of a level: whitespace, or ASCII punctuation.
pub open spec fn is_separator(c: char, by_punct: bool) -> bool {
    if by_punct {
        is_ascii_punct(c)
    } else {
        is_unicode_whitespace(c)
    }
}

/// The maximal runs of non-separators in `s`, as character spans.
pub open spec fn runs(s: Seq<char>, by_punct: bool) -> Seq<(int, int)>
    decreases s.len(),
{
    if s.len() == 0 {
        Seq::empty()
    } else {
        let r = runs(s.drop_last(), by_punct);
        let n = s.len() - 1;
        if is_separator(s.last(), by_punct) {
            r
        } else if n > 0 && !is_separator(s[n - 1], by_punct) {
            r.update(r.len() - 1, (r.last().0, s.len() as int))
        } else {
            r.push((n, s.len() as int))
        }
    }
}

pub open spec fn is_ascii_char(c: char) -> bool {
    (c as u32) < 128
}

/// Runs of ASCII characters, and each other character on its own, as
/// character spans.
pub open spec fn ascii_groups(s: Seq<char>) -> Seq<(int, int)>
    decreases s.len(),
{
    if s.len() == 0 {
        Seq::empty()
    } else {
        let r = ascii_groups(s.drop_last());
        let n = s.len() - 1;
        if is_ascii_char(s.last()) && n > 0 && is_ascii_char(s[n - 1]) {
            r.update(r.len() - 1, (r.last().0, s.len() as int))
        } else {
            r.push((n, s.len() as int))
        }
    }
}

/// Spans in bounds, non-empty and in order.
pub open spec fn spans_ok(spans: Seq<(int, int)>, len: int) -> bool {
    &&& forall|i: int| 0 <= i < spans.len() ==> 0 <= (#[trigger] spans[i]).0 < spans[i].1 <= len
    &&& forall|i: int, j: int| 0 <= i < j < spans.len() ==> (#[trigger] spans[i]).1 <= (
    #[trigger] spans[j]).0
}

/// The words of `w` for the given spans, each with its byte offset, where `w`
/// itself starts at byte `base`.
pub open spec fn pieces(w: Seq<char>, base: nat, spans: Seq<(int, int)>) -> Seq<(nat, Seq<char>)> {
    spans.map_values(|p: (int, int)| ((base + byte_offset(w, p.0)) as nat, w.subrange(p.0, p.1)))
}

/// The words of one whitespace-separated token `input[a..b]`: the whole token
/// where it is a URL, else its script segments.
pub open spec fn token_words(input: Seq<char>, span: (int, int), url: Seq<char>, seg: Seq<char>) -> Seq<
    (nat, Seq<char>),
> {
    let tok = input.subrange(span.0, span.1);
    let base = byte_offset(input, span.0);
    if regex_finds(url, tok) {
        seq![(base, tok)]
    } else {
        regex_match_list(seg, tok).map_values(
            |m: (usize, Seq<char>)| ((base + m.0) as nat, m.1),
        )
    }
}

/// The first level over the given token spans.
pub open spec fn level1(input: Seq<char>, spans: Seq<(int, int)>, url: Seq<char>, seg: Seq<char>) -> Seq<
    (nat, Seq<char>),
>
    decreases spans.len(),
{
    if spans.len() == 0 {
        Seq::empty()
    } else {
        level1(input, spans.drop_last(), url, seg) + token_words(input, spans.last(), url, seg)
    }
}

/// The words of `input` with their byte offsets, for the given URL and script
/// segment patterns.
pub open spec fn split_spec(input: Seq<char>, url: Seq<char>, seg: Seq<char>) -> Seq<
    (nat, Seq<char>),
> {
    let l1 = level1(input, runs(input, false), url, seg);
    if l1.len() != 1 {
        l1
    } else {
        let l2 = pieces(l1[0].1, l1[0].0, runs(l1[0].1, true));
        if l2.len() != 1 {
            l2
        } else {
            pieces(l2[0].1, l2[0].0, ascii_groups(l2[0].1))
        }
    }
}

pub proof fn lemma_runs_shape(s: Seq<char>, by_punct: bool)
    ensures
        spans_ok(runs(s, by_punct), s.len() as int),
        s.len() > 0 && !is_separator(s.last(), by_punct) ==> runs(s, by_punct).len() > 0 && runs(
            s,
            by_punct,
        ).last().1 == s.len(),
        runs(s, by_punct).len() > 0 ==> runs(s, by_punct).last().1 <= s.len(),
    decreases s.len(),
{
    if s.len() > 0 {
        let p = s.drop_last();
        lemma_runs_shape(p, by_punct);
        let n = s.len() - 1;
        if n > 0 && !is_separator(s[n - 1], by_punct) {
            assert(p.last() == s[n - 1]);
        }
    }
}

pub proof fn lemma_groups_shape(s: Seq<char>)
    ensures
        spans_ok(ascii_groups(s), s.len() as int),
        s.len() > 0 ==> ascii_groups(s).len() > 0 && ascii_groups(s).last().1 == s.len(),
    decreases s.len(),
{
    if s.len() > 0 {
        lemma_groups_shape(s.drop_last());
    }
}

/// Byte offsets add up across a span: the offset of a character inside a
/// piece of `s`, plus the piece's own offset, is its offset in `s`.
pub proof fn lemma_offset_within(s: Seq<char>, a: int, b: int, k: int)
    requires
        0 <= a <= b <= s.len(),
        0 <= k <= b - a,
    ensures
        byte_offset(s, a) + byte_offset(s.subrange(a, b), k) == byte_offset(s, a + k),
{
    assert(s.take(a + k) =~= s.take(a) + s.subrange(a, b).take(k));
    lemma_byte_len_concat(s.take(a), s.subrange(a, b).take(k));
}

/// A word found inside a word of `s` is found in `s`, at the sum of the
/// offsets.
pub proof fn lemma_occurs_compose(s: Seq<char>, w: Seq<char>, o: nat, x: Seq<char>, p: nat)
    requires
        occurs_at_byte(s, w, o),
        occurs_at_byte(w, x, p),
    ensures
        occurs_at_byte(s, x, o + p),
{
    let k = choose|k: int|
        0 <= k && k + w.len() <= s.len() && #[trigger] byte_offset(s, k) == o && s.subrange(
            k,
            k + w.len(),
        ) == w;
    let j = choose|j: int|
        0 <= j && j + x.len() <= w.len() && #[trigger] byte_offset(w, j) == p && w.subrange(
            j,
            j + x.len(),
        ) == x;
    lemma_offset_within(s, k, k + w.len(), j);
    assert(s.subrange(k + j, k + j + x.len()) =~= w.subrange(j, j + x.len()));
    assert(byte_offset(s, k + j) == o + p);
}

/// A span of `w` is found in `w` at its byte offset.
pub proof fn lemma_span_occurs(w: Seq<char>, a: int, b: int)
    requires
        0 <= a <= b <= w.len(),
    ensures
        occurs_at_byte(w, w.subrange(a, b), byte_offset(w, a)),
{
    assert(w.subrange(a, a + w.subrange(a, b).len()) =~= w.subrange(a, b));
}

/// A word found in `s` ends within `s`'s bytes.
pub proof fn lemma_occurs_bound(s: Seq<char>, w: Seq<char>, o: nat)
    requires
        occurs_at_byte(s, w, o),
    ensures
        o + byte_len(w) <= byte_len(s),
{
    let k = choose|k: int|
        0 <= k && k + w.len() <= s.len() && #[trigger] byte_offset(s, k) == o && s.subrange(
            k,
            k + w.len(),
        ) == w;
    lemma_offset_within(s, k, k + w.len(), w.len() as int);
    assert(w.take(w.len() as int) =~= w);
    lemma_byte_offset_monotone(s, k + w.len(), s.len() as int);
}

/// Every piece of a word found in `s` is found in `s` at its offset.
pub proof fn lemma_pieces_occur(s: Seq<char>, w: Seq<char>, o: nat, spans: Seq<(int, int)>)
    requires
        occurs_at_byte(s, w, o),
        spans_ok(spans, w.len() as int),
    ensures
        forall|i: int|
            0 <= i < spans.len() ==> occurs_at_byte(
                s,
                (#[trigger] pieces(w, o, spans)[i]).1,
                pieces(w, o, spans)[i].0,
            ),
{
    assert forall|i: int| 0 <= i < spans.len() implies occurs_at_byte(
        s,
        (#[trigger] pieces(w, o, spans)[i]).1,
        pieces(w, o, spans)[i].0,
    ) by {
        let sp = spans[i];
        lemma_span_occurs(w, sp.0, sp.1);
        lemma_occurs_compose(s, w, o, w.subrange(sp.0, sp.1), byte_offset(w, sp.0));
    }
}

pub open spec fn spans_view(v: Seq<(usize, usize)>) -> Seq<(int, int)> {
    v.map_values(|p: (usize, usize)| (p.0 as int, p.1 as int))
}

pub open spec fn words_view(v: Seq<(usize, String)>) -> Seq<(nat, Seq<char>)> {
    v.map_values(|p: (usize, String)| (p.0 as nat, p.1@))
}

fn separates(c: char, by_punct: bool) -> (r: bool)
    ensures
        r == is_separator(c, by_punct),
{
    if by_punct {
        is_ascii_punctuation(c)
    } else {
        is_whitespace(c)
    }
}

/// The maximal runs of non-separators in `v`.
fn runs_of(v: &Vec<char>, by_punct: bool) -> (r: Vec<(usize, usize)>)
    ensures
        spans_view(r@) == runs(v@, by_punct),
{
    let mut r: Vec<(usize, usize)> = Vec::new();
    let mut i: usize = 0;
    while i < v.len()
        invariant
            i <= v@.len(),
            spans_view(r@) == runs(v@.take(i as int), by_punct),
        decreases v@.len() - i,
    {
        let ghost pre = v@.take(i as int);
        let ghost nxt = v@.take(i + 1);
        assert(nxt.drop_last() =~= pre);
        assert(nxt.last() == v@[i as int]);
        proof {
            lemma_runs_shape(pre, by_punct);
        }
        let c = v[i];
        if separates(c, by_punct) {
        } else if i > 0 && !separates(v[i - 1], by_punct) {
            assert(pre.last() == v@[i - 1]);
            let last = r.len() - 1;
            let start = r[last].0;
            r.set(last, (start, i + 1));
            assert(spans_view(r@) =~= runs(pre, by_punct).update(
                last as int,
                (start as int, (i + 1) as int),
            ));
        } else {
            r.push((i, i + 1));
            assert(spans_view(r@) =~= runs(pre, by_punct).push((i as int, (i + 1) as int)));
        }
        i = i + 1;
    }
    assert(v@.take(i as int) =~= v@);
    r
}

/// Runs of ASCII characters, and each other character on its own.
fn groups_of(v: &Vec<char>) -> (r: Vec<(usize, usize)>)
    ensures
        spans_view(r@) == ascii_groups(v@),
{
    let mut r: Vec<(usize, usize)> = Vec::new();
    let mut i: usize = 0;
    while i < v.len()
        invariant
            i <= v@.len(),
            spans_view(r@) == ascii_groups(v@.take(i as int)),
        decreases v@.len() - i,
    {
        let ghost pre = v@.take(i as int);
        let ghost nxt = v@.take(i + 1);
        assert(nxt.drop_last() =~= pre);
        assert(nxt.last() == v@[i as int]);
        proof {
            lemma_groups_shape(pre);
        }
        let c = v[i];
        if (c as u32) < 128 && i > 0 && (v[i - 1] as u32) < 128 {
            assert(pre.last() == v@[i - 1]);
            let last = r.len() - 1;
            let start = r[last].0;
            r.set(last, (start, i + 1));
            assert(spans_view(r@) =~= ascii_groups(pre).update(
                last as int,
                (start as int, (i + 1) as int),
            ));
        } else {
            r.push((i, i + 1));
            assert(spans_view(r@) =~= ascii_groups(pre).push((i as int, (i + 1) as int)));
        }
        i = i + 1;
    }
    assert(v@.take(i as int) =~= v@);
    r
}

/// The byte offset of every character of `v`, and of its end.
fn byte_offsets(v: &Vec<char>) -> (t: Vec<usize>)
    requires
        byte_len(v@) <= usize::MAX,
    ensures
        t@.len() == v@.len() + 1,
        forall|k: int| 0 <= k <= v@.len() ==> #[trigger] t@[k] == byte_offset(v@, k),
{
    let mut t: Vec<usize> = Vec::new();
    t.push(0);
    assert(v@.take(0) =~= Seq::<char>::empty());
    let mut acc: usize = 0;
    let mut i: usize = 0;
    while i < v.len()
        invariant
            i <= v@.len(),
            byte_len(v@) <= usize::MAX,
            t@.len() == i + 1,
            acc == byte_offset(v@, i as int),
            forall|k: int| 0 <= k <= i ==> #[trigger] t@[k] == byte_offset(v@, k),
        decreases v@.len() - i,
    {
        assert(v@.take(i + 1).drop_last() =~= v@.take(i as int));
        proof {
            lemma_byte_offset_monotone(v@, i + 1, v@.len() as int);
        }
        acc = acc + char_utf8_len(v[i]);
        t.push(acc);
        i = i + 1;
    }
    t
}

/// The words of `w` for `spans`, where `w` starts at byte `base`.
fn pieces_of(w: &str, base: usize, spans: &Vec<(usize, usize)>) -> (r: Vec<(usize, String)>)
    requires
        base + byte_len(w@) <= usize::MAX,
        spans_ok(spans_view(spans@), w@.len() as int),
    ensures
        words_view(r@) == pieces(w@, base as nat, spans_view(spans@)),
{
    let v = chars_of(w);
    let t = byte_offsets(&v);
    let ghost sv = spans_view(spans@);
    let mut r: Vec<(usize, String)> = Vec::new();
    let mut j: usize = 0;
    while j < spans.len()
        invariant
            v@ == w@,
            base + byte_len(w@) <= usize::MAX,
            sv == spans_view(spans@),
            spans_ok(sv, w@.len() as int),
            t@.len() == v@.len() + 1,
            forall|k: int| 0 <= k <= v@.len() ==> #[trigger] t@[k] == byte_offset(v@, k),
            j <= spans@.len(),
            words_view(r@) == pieces(w@, base as nat, sv.take(j as int)),
        decreases spans@.len() - j,
    {
        let (a, b) = spans[j];
        assert(sv[j as int] == (a as int, b as int));
        proof {
            lemma_byte_offset_monotone(w@, a as int, w@.len() as int);
        }
        let word = String::from_str(w.substring_char(a, b));
        assert(word@ == w@.subrange(a as int, b as int));
        let off = base + t[a];
        assert(off == base + byte_offset(w@, a as int));
        let ghost before = words_view(r@);
        r.push((off, word));
        assert(words_view(r@) =~= before.push((off as nat, w@.subrange(a as int, b as int))));
        assert(sv.take(j + 1) =~= sv.take(j as int).push(sv[j as int]));
        assert(words_view(r@) =~= pieces(w@, base as nat, sv.take(j + 1)));
        j = j + 1;
    }
    assert(sv.take(j as int) =~= sv);
    r
}

pub open spec fn all_occur(input: Seq<char>, words: Seq<(nat, Seq<char>)>) -> bool {
    forall|i: int| 0 <= i < words.len() ==> occurs_at_byte(input, (#[trigger] words[i]).1, words[i].0)
}

/// The first level: whitespace-separated tokens, each kept whole where it is a
/// URL and cut into script segments otherwise.
fn split_level1(input: &str, url: &Pattern, seg: &Pattern) -> (r: Vec<(usize, String)>)
    requires
        byte_len(input@) <= usize::MAX,
    ensures
        words_view(r@) == level1(input@, runs(input@, false), url@, seg@),
        all_occur(input@, words_view(r@)),
{
    let v = chars_of(input);
    let t = byte_offsets(&v);
    let spans = runs_of(&v, false);
    let ghost sv = spans_view(spans@);
    proof {
        lemma_runs_shape(input@, false);
    }
    let mut out: Vec<(usize, String)> = Vec::new();
    let mut j: usize = 0;
    while j < spans.len()
        invariant
            v@ == input@,
            byte_len(input@) <= usize::MAX,
            sv == spans_view(spans@),
            sv == runs(input@, false),
            spans_ok(sv, input@.len() as int),
            t@.len() == v@.len() + 1,
            forall|k: int| 0 <= k <= v@.len() ==> #[trigger] t@[k] == byte_offset(v@, k),
            j <= spans@.len(),
            words_view(out@) == level1(input@, sv.take(j as int), url@, seg@),
            all_occur(input@, words_view(out@)),
        decreases spans@.len() - j,
    {
        let (a, b) = spans[j];
        assert(sv[j as int] == (a as int, b as int));
        assert(sv.take(j + 1).drop_last() =~= sv.take(j as int));
        assert(sv.take(j + 1).last() == sv[j as int]);
        let tok = String::from_str(input.substring_char(a, b));
        assert(tok@ == input@.subrange(a as int, b as int));
        let base = t[a];
        proof {
            lemma_span_occurs(input@, a as int, b as int);
            lemma_occurs_bound(input@, tok@, base as nat);
        }
        let ghost before = words_view(out@);
        if url.is_match(tok.as_str()) {
            out.push((base, tok));
            assert(words_view(out@) =~= before + token_words(input@, sv[j as int], url@, seg@));
        } else {
            let ms = seg.find_all(tok.as_str());
            let ghost mv = ms@.map_values(|m: (usize, String)| (m.0, m.1@));
            let ghost tw = token_words(input@, sv[j as int], url@, seg@);
            assert(tw == mv.map_values(|m: (usize, Seq<char>)| ((base + m.0) as nat, m.1)));
            let mut m: usize = 0;
            while m < ms.len()
                invariant
                    byte_len(input@) <= usize::MAX,
                    occurs_at_byte(input@, tok@, base as nat),
                    base + byte_len(tok@) <= byte_len(input@),
                    mv == ms@.map_values(|m: (usize, String)| (m.0, m.1@)),
                    forall|i: int|
                        0 <= i < ms@.len() ==> occurs_at_byte(
                            tok@,
                            (#[trigger] ms@[i]).1@,
                            ms@[i].0 as nat,
                        ),
                    tw == mv.map_values(|m: (usize, Seq<char>)| ((base + m.0) as nat, m.1)),
                    m <= ms@.len(),
                    words_view(out@) == before + tw.take(m as int),
                    all_occur(input@, words_view(out@)),
                decreases ms@.len() - m,
            {
                let (off, ref text) = ms[m];
                proof {
                    lemma_occurs_bound(tok@, text@, off as nat);
                    lemma_occurs_compose(input@, tok@, base as nat, text@, off as nat);
                }
                let ghost prev = words_view(out@);
                out.push((base + off, text.clone()));
                assert(words_view(out@) =~= prev.push(((base + off) as nat, text@)));
                assert(tw.take(m + 1) =~= tw.take(m as int).push(tw[m as int]));
                m = m + 1;
            }
            assert(tw.take(m as int) =~= tw);
        }
        j = j + 1;
    }
    assert(sv.take(j as int) =~= sv);
    out
}

/// The words of `input` with their byte offsets, for the given URL and
/// script segment patterns. Every word stands in `input` at its offset.
pub fn split_with(input: &str, url: &Pattern, seg: &Pattern) -> (r: Vec<(usize, String)>)
    requires
        byte_len(input@) <= usize::MAX,
    ensures
        words_view(r@) == split_spec(input@, url@, seg@),
        all_occur(input@, words_view(r@)),
{
    let l1 = split_level1(input, url, seg);
    if l1.len() != 1 {
        return l1;
    }
    let ghost w1 = words_view(l1@)[0];
    let (o, ref w) = l1[0];
    assert(w1 == (o as nat, w@));
    proof {
        lemma_occurs_bound(input@, w@, o as nat);
    }
    let wv = chars_of(w.as_str());
    let spans2 = runs_of(&wv, true);
    proof {
        lemma_runs_shape(w@, true);
        lemma_pieces_occur(input@, w@, o as nat, spans_view(spans2@));
    }
    let l2 = pieces_of(w.as_str(), o, &spans2);
    if l2.len() != 1 {
        return l2;
    }
    let ghost w2 = words_view(l2@)[0];
    let (o2, ref w2s) = l2[0];
    assert(w2 == (o2 as nat, w2s@));
    assert(occurs_at_byte(input@, w2.1, w2.0));
    proof {
        lemma_occurs_bound(input@, w2s@, o2 as nat);
    }
    let wv2 = chars_of(w2s.as_str());
    let spans3 = groups_of(&wv2);
    proof {
        lemma_groups_shape(w2s@);
        lemma_pieces_occur(input@, w2s@, o2 as nat, spans_view(spans3@));
    }
    pieces_of(w2s.as_str(), o2, &spans3)
}

/// Splits `input` into pickable words, each with its byte offset in `input`:
/// a URL stays one word, while `Hello世界` becomes `Hello`, `世`, `界`. `None`
/// only where the regex compiler refuses one of the two fixed patterns.
pub fn multilingual_split(input: &str) -> (r: Option<(Vec<String>, Vec<usize>)>)
    requires
        byte_len(input@) <= usize::MAX,
    ensures
        r is Some <==> regex_accepts(URL_PATTERN@) && regex_accepts(SCRIPT_SEGMENT_PATTERN@),
        r matches Some((words, offsets)) ==> {
            let spec = split_spec(input@, URL_PATTERN@, SCRIPT_SEGMENT_PATTERN@);
            &&& words@.len() == spec.len()
            &&& offsets@.len() == spec.len()
            &&& forall|i: int|
                0 <= i < spec.len() ==> #[trigger] words@[i]@ == spec[i].1 && offsets@[i] as nat
                    == spec[i].0
        },
        r matches Some((words, offsets)) ==> forall|i: int|
            0 <= i < words@.len() ==> occurs_at_byte(
                input@,
                #[trigger] words@[i]@,
                offsets@[i] as nat,
            ),
{
    let url = match Pattern::new(URL_PATTERN) {
        Ok(p) => p,
        Err(_) => return None,
    };
    let seg = match Pattern::new(SCRIPT_SEGMENT_PATTERN) {
        Ok(p) => p,
        Err(_) => return None,
    };
    let pairs = split_with(input, &url, &seg);
    let ghost pv = words_view(pairs@);
    let mut words: Vec<String> = Vec::new();
    let mut offsets: Vec<usize> = Vec::new();
    let mut i: usize = 0;
    while i < pairs.len()
        invariant
            pv == words_view(pairs@),
            all_occur(input@, pv),
            i <= pairs@.len(),
            words@.len() == i,
            offsets@.len() == i,
            forall|k: int|
                0 <= k < i ==> #[trigger] words@[k]@ == pv[k].1 && offsets@[k] as nat == pv[k].0,
        decreases pairs@.len() - i,
    {
        let (o, ref w) = pairs[i];
        words.push(w.clone());
        offsets.push(o);
        i = i + 1;
    }
    assert forall|k: int| 0 <= k < words@.len() implies occurs_at_byte(
        input@,
        #[trigger] words@[k]@,
        offsets@[k] as nat,
    ) by {
        assert(occurs_at_byte(input@, pv[k].1, pv[k].0));
    }
    Some((words, offsets))
}

} // verus!
