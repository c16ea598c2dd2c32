//! Display widths and the fitting of text into a fixed number of columns.

use vstd::prelude::*;
use crate::std_text::chars_of;
use crate::text::{all_ascii, ascii_lower_char, ascii_lowercase};
pub use crate::pattern::search_regex;

verus! {

/// What `UnicodeWidthStr::width` returns for a string: its width in columns,
/// by the rules of Unicode Standard Annex #11.
pub uninterp spec fn unicode_str_width(s: Seq<char>) -> usize;

/// What `UnicodeWidthChar::width` returns for a character: its width in
/// columns, or `None` for a control character.
pub uninterp spec fn unicode_char_width(c: char) -> Option<usize>;

/// Calls `UnicodeWidthStr::width`. Its result is named by
/// `unicode_str_width`; the empty string is zero columns wide.
#[verifier::external_body]
pub(crate) fn str_width(s: &str) -> (r: usize)
    ensures
        r == unicode_str_width(s@),
        s@.len() == 0 ==> r == 0,
{
    unicode_width::UnicodeWidthStr::width(s)
}

/// Calls `UnicodeWidthChar::width`. Its result is named by
/// `unicode_char_width`; the C0 and C1 control codes have no width and the
/// printable ASCII characters are one column wide, as the crate's lookup
/// decides before it consults its tables.
#[verifier::external_body]
pub(crate) fn char_width(c: char) -> (r: Option<usize>)
    ensures
        r == unicode_char_width(c),
        (c as u32) < 0x20 ==> r is None,
        0x20 <= (c as u32) < 0x7F ==> r == Some(1usize),
        0x7F <= (c as u32) < 0xA0 ==> r is None,
{
    unicode_width::UnicodeWidthChar::width(c)
}

/// The columns `c` takes, a control character taking none.
pub open spec fn columns(c: char) -> nat {
    match unicode_char_width(c) {
        Some(w) => w as nat,
        None => 0,
    }
}

/// How many characters at the end of `s` fit in `budget` columns, taken from
/// the end one at a time until one does not fit.
pub open spec fn fitting_tail(s: Seq<char>, budget: nat) -> nat
    decreases s.len(),
{
    if s.len() == 0 {
        0
    } else if columns(s.last()) > budget {
        0
    } else {
        1 + fitting_tail(s.drop_last(), (budget - columns(s.last())) as nat)
    }
}

/// `s` cut to `n` columns: unchanged when it fits, else `.` followed by as
/// much of its end as fits in the other `n - 1` columns.
pub open spec fn fixed_width_spec(s: Seq<char>, n: nat) -> Seq<char> {
    if unicode_str_width(s) <= n {
        s
    } else if n == 0 {
        Seq::empty()
    } else {
        seq!['.'] + s.subrange(s.len() - fitting_tail(s, (n - 1) as nat), s.len() as int)
    }
}

/// The columns the characters of `s` take, one by one.
pub open spec fn columns_of(s: Seq<char>) -> nat
    decreases s.len(),
{
    if s.len() == 0 {
        0
    } else {
        columns_of(s.drop_last()) + columns(s.last())
    }
}

proof fn lemma_columns_concat(a: Seq<char>, b: Seq<char>)
    ensures
        columns_of(a + b) == columns_of(a) + columns_of(b),
    decreases b.len(),
{
    if b.len() == 0 {
        assert(a + b =~= a);
    } else {
        assert((a + b).drop_last() =~= a + b.drop_last());
        lemma_columns_concat(a, b.drop_last());
    }
}

/// The tail kept when text is cut to a budget fits in it, and is the longest
/// tail that does: the character before it would not fit as well.
pub proof fn law_kept_tail_fits(s: Seq<char>, budget: nat)
    ensures
        fitting_tail(s, budget) <= s.len(),
        columns_of(s.subrange(s.len() - fitting_tail(s, budget), s.len() as int)) <= budget,
        fitting_tail(s, budget) < s.len() ==> columns_of(
            s.subrange(s.len() - fitting_tail(s, budget) - 1, s.len() as int),
        ) > budget,
    decreases s.len(),
{
    let k = fitting_tail(s, budget);
    assert(columns_of(Seq::<char>::empty()) == 0);
    if s.len() == 0 {
        assert(s.subrange(0, 0) =~= Seq::<char>::empty());
    } else if columns(s.last()) > budget {
        assert(k == 0);
        assert(s.subrange(s.len() as int, s.len() as int) =~= Seq::<char>::empty());
        let one = s.subrange(s.len() - 1, s.len() as int);
        assert(one.drop_last() =~= Seq::<char>::empty());
        assert(one.last() == s.last());
    } else {
        let p = s.drop_last();
        let b2 = (budget - columns(s.last())) as nat;
        law_kept_tail_fits(p, b2);
        let k2 = fitting_tail(p, b2);
        assert(k == k2 + 1);
        let tail = s.subrange(s.len() - k, s.len() as int);
        assert(tail =~= p.subrange(p.len() - k2, p.len() as int) + seq![s.last()]);
        lemma_columns_concat(p.subrange(p.len() - k2, p.len() as int), seq![s.last()]);
        assert(seq![s.last()].drop_last() =~= Seq::<char>::empty());
        if k < s.len() {
            let longer = s.subrange(s.len() - k - 1, s.len() as int);
            assert(longer =~= p.subrange(p.len() - k2 - 1, p.len() as int) + seq![s.last()]);
            lemma_columns_concat(p.subrange(p.len() - k2 - 1, p.len() as int), seq![s.last()]);
        }
    }
}

/// Text that fits is kept whole; text too wide for no columns gives nothing;
/// otherwise the result is `.` and then the end of the text, the longest end
/// whose characters fit in the other columns.
pub proof fn law_fixed_width(s: Seq<char>, n: nat)
    ensures
        unicode_str_width(s) <= n ==> fixed_width_spec(s, n) == s,
        unicode_str_width(s) > n && n == 0 ==> fixed_width_spec(s, n).len() == 0,
        unicode_str_width(s) > n && n > 0 ==> {
            let r = fixed_width_spec(s, n);
            let tail = r.drop_first();
            &&& r.len() >= 1
            &&& r[0] == '.'
            &&& tail.len() <= s.len()
            &&& tail == s.subrange(s.len() - tail.len(), s.len() as int)
            &&& columns_of(tail) <= n - 1
            &&& tail.len() < s.len() ==> columns_of(s.subrange(s.len() - tail.len() - 1, s.len() as int)) > n - 1
        },
{
    if unicode_str_width(s) > n && n > 0 {
        law_kept_tail_fits(s, (n - 1) as nat);
        let k = fitting_tail(s, (n - 1) as nat);
        let r = fixed_width_spec(s, n);
        assert(r.drop_first() =~= s.subrange(s.len() - k, s.len() as int));
    }
}

/// `input` fitted into `fixed_length` columns, dropping characters from its
/// start and marking the cut with a `.`.
pub fn format_fixed_width(input: &str, fixed_length: usize) -> (r: String)
    ensures
        r@ == fixed_width_spec(input@, fixed_length as nat),
{
    if str_width(input) <= fixed_length {
        return String::from_str(input);
    }
    if fixed_length == 0 {
        return String::new();
    }
    let v = chars_of(input);
    let n = v.len();
    let mut start: usize = n;
    let mut budget: usize = fixed_length - 1;
    assert(input@.take(n as int) =~= input@);
    let mut full = false;
    while start > 0 && !full
        invariant
            full ==> fitting_tail(input@.take(start as int), budget as nat) == 0,
            v@ == input@,
            n == v@.len(),
            start <= n,
            budget <= fixed_length - 1,
            fitting_tail(input@, (fixed_length - 1) as nat) == (n - start) + fitting_tail(
                input@.take(start as int),
                budget as nat,
            ),
        decreases start + (if full { 0int } else { 1int }),
    {
        let c = v[start - 1];
        let w: usize = match char_width(c) {
            Some(w) => w,
            None => 0,
        };
        let ghost pre = input@.take(start as int);
        assert(pre.last() == c);
        assert(pre.drop_last() =~= input@.take(start - 1));
        assert(columns(c) == w);
        if w > budget {
            assert(fitting_tail(pre, budget as nat) == 0);
            full = true;
        } else {
            budget = budget - w;
            start = start - 1;
        }
    }
    proof {
        if start == 0 {
            assert(input@.take(0).len() == 0);
            assert(fitting_tail(input@.take(0), budget as nat) == 0);
        }
    }
    assert(fitting_tail(input@, (fixed_length - 1) as nat) == n - start);
    let mut out = String::new();
    out.push('.');
    out.append(input.substring_char(start, n));
    out
}

/// What `any_ascii::any_ascii` returns for a string: its transliteration
/// into ASCII.
pub uninterp spec fn transliteration(s: Seq<char>) -> Seq<char>;

/// Calls `any_ascii::any_ascii`. Its result is named by `transliteration`; it
/// is ASCII, and ASCII characters are copied unchanged, so ASCII text comes
/// back as it went in.
#[verifier::external_body]
fn any_ascii(s: &str) -> (r: String)
    ensures
        r@ == transliteration(s@),
        all_ascii(r@),
        all_ascii(s@) ==> r@ == s@,
{
    any_ascii::any_ascii(s)
}

/// The folded form in which search targets are compared: transliterated to
/// ASCII, then lower-cased.
pub open spec fn folded(s: Seq<char>) -> Seq<char> {
    transliteration(s).map_values(|c: char| ascii_lower_char(c))
}

/// `text` transliterated to ASCII and lower-cased, so that a search ignores
/// case and accents.
pub fn lower_ascii(text: &str) -> (r: String)
    ensures
        r@ == folded(text@),
        all_ascii(r@),
{
    let t = any_ascii(text);
    let r = ascii_lowercase(t.as_str());
    assert forall|i: int| 0 <= i < r@.len() implies (#[trigger] r@[i] as u32) < 128 by {
        let c = t@[i];
        assert((c as u32) < 128);
    }
    r
}

} // verus!
