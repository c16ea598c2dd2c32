//! Character and string primitives used by the rest of the crate.

use vstd::prelude::*;

verus! {

/// `String::push` appends one character.
pub assume_specification[ String::push ](s: &mut String, ch: char)
    ensures
        final(s)@ == old(s)@.push(ch),
;

/// `String::pop` removes and returns the last character, if any.
pub assume_specification[ String::pop ](s: &mut String) -> (r: Option<char>)
    ensures
        old(s)@.len() == 0 ==> r is None && final(s)@ == old(s)@,
        old(s)@.len() > 0 ==> r == Some(old(s)@.last()) && final(s)@ == old(s)@.drop_last(),
;

/// A character's code fits in `u32` unchanged, and two characters with one
/// code are one character.
pub proof fn lemma_char_code(a: char, b: char)
    ensures
        (a as u32) as int == a as int,
        0 <= a as int <= 0x10FFFF,
        ((a as u32) == (b as u32)) <==> (a == b),
{
    assert(0 <= (a as int) <= 0x10FFFF);
    assert((a as u32) as int == a as int);
    assert((b as u32) as int == b as int);
}

/// The characters of `s`, in order.
pub fn chars_of(s: &str) -> (v: Vec<char>)
    ensures
        v@ == s@,
{
    let mut v: Vec<char> = Vec::new();
    for c in it: s.chars()
        invariant
            v@ == it.seq().take(it.index() as int),
    {
        v.push(c);
    }
    v
}

pub fn upper_ascii_char(c: char) -> (r: char)
    ensures
        r == (if 'a' <= c <= 'z' { ((c as u32) - 32) as char } else { c }),
{
    if 'a' <= c && c <= 'z' {
        let b: u8 = (c as u32 - 32) as u8;
        b as char
    } else {
        c
    }
}

} // verus!
