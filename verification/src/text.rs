//! Text helpers: whitespace, case folding, display width and the search
//! pattern typed into the hint filter.

use vstd::prelude::*;
use crate::std_text::{chars_of, lemma_char_code};

verus! {

/// The Unicode `White_Space` property, which `char::is_whitespace` tests.
pub open spec fn is_unicode_whitespace(c: char) -> bool {
    let u = c as u32;
    ||| 0x9 <= u <= 0xD
    ||| u == 0x20
    ||| u == 0x85
    ||| u == 0xA0
    ||| u == 0x1680
    ||| 0x2000 <= u <= 0x200A
    ||| u == 0x2028
    ||| u == 0x2029
    ||| u == 0x202F
    ||| u == 0x205F
    ||| u == 0x3000
}

/// Whether `c` has the Unicode `White_Space` property.
pub fn is_whitespace(c: char) -> (r: bool)
    ensures
        r == is_unicode_whitespace(c),
{
    let u = c as u32;
    (0x9 <= u && u <= 0xD) || u == 0x20 || u == 0x85 || u == 0xA0 || u == 0x1680 || (0x2000 <= u
        && u <= 0x200A) || u == 0x2028 || u == 0x2029 || u == 0x202F || u == 0x205F || u == 0x3000
}

/// ASCII punctuation: the printable ASCII characters that are neither
/// letters, digits nor the space.
pub open spec fn is_ascii_punct(c: char) -> bool {
    let u = c as u32;
    ||| 0x21 <= u <= 0x2F
    ||| 0x3A <= u <= 0x40
    ||| 0x5B <= u <= 0x60
    ||| 0x7B <= u <= 0x7E
}

pub fn is_ascii_punctuation(c: char) -> (r: bool)
    ensures
        r == is_ascii_punct(c),
{
    let u = c as u32;
    (0x21 <= u && u <= 0x2F) || (0x3A <= u && u <= 0x40) || (0x5B <= u && u <= 0x60) || (0x7B <= u
        && u <= 0x7E)
}

/// `s` without its leading whitespace.
pub open spec fn trim_start_spec(s: Seq<char>) -> Seq<char>
    decreases s.len(),
{
    if s.len() > 0 && is_unicode_whitespace(s[0]) {
        trim_start_spec(s.subrange(1, s.len() as int))
    } else {
        s
    }
}

/// `s` without its trailing whitespace.
pub open spec fn trim_end_spec(s: Seq<char>) -> Seq<char>
    decreases s.len(),
{
    if s.len() > 0 && is_unicode_whitespace(s.last()) {
        trim_end_spec(s.drop_last())
    } else {
        s
    }
}

/// `s` without leading and trailing whitespace, as `str::trim` gives it.
pub open spec fn trim_spec(s: Seq<char>) -> Seq<char> {
    trim_end_spec(trim_start_spec(s))
}

/// `s` without leading and trailing whitespace.
pub fn trim_whitespace(s: &str) -> (r: String)
    ensures
        r@ == trim_spec(s@),
{
    let v = chars_of(s);
    let n = v.len();
    let mut lo: usize = 0;
    assert(s@.subrange(0, n as int) =~= s@);
    while lo < n && is_whitespace(v[lo])
        invariant
            v@ == s@,
            n == v@.len(),
            lo <= n,
            trim_start_spec(s@) == trim_start_spec(s@.subrange(lo as int, n as int)),
        decreases n - lo,
    {
        let ghost rest = s@.subrange(lo as int, n as int);
        assert(rest.subrange(1, rest.len() as int) =~= s@.subrange(lo + 1, n as int));
        lo = lo + 1;
    }
    let ghost start = s@.subrange(lo as int, n as int);
    assert(trim_start_spec(start) == start);
    let mut hi: usize = n;
    while hi > lo && is_whitespace(v[hi - 1])
        invariant
            v@ == s@,
            n == v@.len(),
            lo <= hi <= n,
            start == s@.subrange(lo as int, n as int),
            trim_end_spec(start) == trim_end_spec(s@.subrange(lo as int, hi as int)),
        decreases hi - lo,
    {
        let ghost rest = s@.subrange(lo as int, hi as int);
        assert(rest.drop_last() =~= s@.subrange(lo as int, hi - 1));
        assert(rest.last() == v@[hi - 1]);
        hi = hi - 1;
    }
    let ghost fin = s@.subrange(lo as int, hi as int);
    assert(hi > lo ==> fin.last() == v@[hi - 1]);
    assert(trim_end_spec(fin) == fin);
    String::from_str(s.substring_char(lo, hi))
}

/// What `str::to_uppercase` returns for a string: Unicode full upper-casing.
pub uninterp spec fn unicode_upper(s: Seq<char>) -> Seq<char>;

/// What `str::to_lowercase` returns for a string: Unicode full lower-casing.
pub uninterp spec fn unicode_lower(s: Seq<char>) -> Seq<char>;

/// ASCII upper-casing of one character; everything but `a..=z` is unchanged.
pub open spec fn ascii_upper_char(c: char) -> char {
    if 'a' <= c <= 'z' {
        ((c as u32) - 32) as char
    } else {
        c
    }
}

/// ASCII lower-casing of one character; everything but `A..=Z` is unchanged.
pub open spec fn ascii_lower_char(c: char) -> char {
    if 'A' <= c <= 'Z' {
        ((c as u32) + 32) as char
    } else {
        c
    }
}

pub open spec fn all_ascii(s: Seq<char>) -> bool {
    forall|i: int| 0 <= i < s.len() ==> (#[trigger] s[i] as u32) < 128
}

/// Upper-casing as `str::to_uppercase` does it, spelled out for ASCII text.
pub open spec fn upper_case(s: Seq<char>) -> Seq<char> {
    if all_ascii(s) {
        s.map_values(|c: char| ascii_upper_char(c))
    } else {
        unicode_upper(s)
    }
}

/// Calls `str::to_uppercase`, Unicode's full upper-casing. The result is named
/// by `unicode_upper`; on ASCII text it upper-cases `a..=z` and keeps every
/// other character, as the Unicode case tables map no ASCII character out of
/// ASCII. Nothing else is said of non-ASCII input.
#[verifier::external_body]
pub(crate) fn to_uppercase(s: &str) -> (r: String)
    ensures
        r@ == unicode_upper(s@),
        all_ascii(s@) ==> r@ == s@.map_values(|c: char| ascii_upper_char(c)),
{
    s.to_uppercase()
}

/// Calls `str::to_lowercase`, Unicode's full lower-casing. The result is named
/// by `unicode_lower`; on ASCII text it lower-cases `A..=Z` and keeps every
/// other character. Nothing else is said of non-ASCII input.
#[verifier::external_body]
pub(crate) fn to_lowercase(s: &str) -> (r: String)
    ensures
        r@ == unicode_lower(s@),
        all_ascii(s@) ==> r@ == s@.map_values(|c: char| ascii_lower_char(c)),
{
    s.to_lowercase()
}

/// ASCII lower-casing of a string, as `str::to_ascii_lowercase` does it.
pub fn ascii_lowercase(s: &str) -> (r: String)
    ensures
        r@ == s@.map_values(|c: char| ascii_lower_char(c)),
{
    let v = chars_of(s);
    let mut out = String::new();
    let mut i: usize = 0;
    while i < v.len()
        invariant
            v@ == s@,
            i <= v@.len(),
            out@ == s@.take(i as int).map_values(|c: char| ascii_lower_char(c)),
        decreases v@.len() - i,
    {
        let c = v[i];
        let l = if 'A' <= c && c <= 'Z' {
            proof {
                lemma_char_code(c, c);
            }
            ((c as u32 + 32) as u8) as char
        } else {
            c
        };
        out.push(l);
        assert(s@.take(i + 1).map_values(|c: char| ascii_lower_char(c)) =~= s@.take(
            i as int,
        ).map_values(|c: char| ascii_lower_char(c)).push(l));
        i = i + 1;
    }
    assert(s@.take(i as int) =~= s@);
    out
}

/// Whether `s` begins with `prefix`, as `str::starts_with` tests it.
pub fn starts_with(s: &str, prefix: &str) -> (r: bool)
    ensures
        r == prefix@.is_prefix_of(s@),
{
    let a = chars_of(s);
    let p = chars_of(prefix);
    if p.len() > a.len() {
        return false;
    }
    let mut i: usize = 0;
    while i < p.len()
        invariant
            a@ == s@,
            p@ == prefix@,
            p@.len() <= a@.len(),
            i <= p@.len(),
            forall|k: int| 0 <= k < i ==> a@[k] == p@[k],
        decreases p@.len() - i,
    {
        if a[i] != p[i] {
            assert(s@.subrange(0, prefix@.len() as int)[i as int] != prefix@[i as int]);
            return false;
        }
        i = i + 1;
    }
    assert(prefix@ =~= s@.subrange(0, prefix@.len() as int));
    true
}

} // verus!
