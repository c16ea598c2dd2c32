//! Colours written as CSS, and the style sheet of the word picker.

use vstd::prelude::*;
use crate::std_text::chars_of;
use crate::utf8::byte_len;

verus! {

/// The style of the word picker, with `{..}` placeholders for its colours.
pub const WORD_PICKER_STYLE: &'static str = "\n<style>\nbody {\n    font-size: 25px;\n    line-height: 1.5;\n    color: {fg_color};\n}\n.line { display: block; }\n.h { color: {hl_color} }\n.rh { color: {bg_color}; background-color: {hl_color}; }\n.d { color: {dim_color} }\n</style>";

/// The decimal digit for `d`.
pub open spec fn digit_char(d: nat) -> char {
    (('0' as u32) + d) as char
}

/// `n` in decimal, without leading zeros.
pub open spec fn decimal(n: nat) -> Seq<char>
    decreases n,
{
    if n < 10 {
        seq![digit_char(n)]
    } else {
        decimal(n / 10).push(digit_char(n % 10))
    }
}

/// Hundredths of `a / 255`, rounded to the nearest; the exact quotient is never
/// halfway between two hundredths.
pub open spec fn alpha_hundredths(a: u8) -> nat {
    ((200 * (a as nat) + 255) / 510) as nat
}

/// `h` hundredths written with two decimals, as `{:.2}` writes it.
pub open spec fn two_decimals(h: nat) -> Seq<char> {
    decimal(h / 100) + seq!['.', digit_char((h / 10) % 10), digit_char(h % 10)]
}

/// The CSS colour `rgba(r, g, b, alpha)`, alpha as a fraction with two
/// decimals.
pub open spec fn css_color(rgba: (u8, u8, u8, u8)) -> Seq<char> {
    "rgba("@ + decimal(rgba.0 as nat) + ", "@ + decimal(rgba.1 as nat) + ", "@ + decimal(
        rgba.2 as nat,
    ) + ", "@ + two_decimals(alpha_hundredths(rgba.3)) + ")"@
}

fn push_digit(out: &mut String, d: u32)
    requires
        d < 10,
    ensures
        final(out)@ == old(out)@.push(digit_char(d as nat)),
{
    let c: char = ((48 + d) as u8) as char;
    assert(c == digit_char(d as nat));
    out.push(c);
}

/// Appends `n` in decimal.
pub fn push_decimal(out: &mut String, n: u64)
    ensures
        final(out)@ == old(out)@ + decimal(n as nat),
    decreases n,
{
    if n < 10 {
        push_digit(out, n as u32);
        assert(decimal(n as nat) =~= seq![digit_char(n as nat)]);
    } else {
        let ghost start = out@;
        push_decimal(out, n / 10);
        push_digit(out, (n % 10) as u32);
        assert(out@ =~= start + decimal(n as nat));
    }
}

/// A colour as CSS, e.g. `rgba(255, 0, 0, 0.50)` for `(255, 0, 0, 128)`.
pub fn rgba_to_css_color(rgba: (u8, u8, u8, u8)) -> (r: String)
    ensures
        r@ == css_color(rgba),
{
    let (red, green, blue, alpha) = rgba;
    let mut out = String::from_str("rgba(");
    push_decimal(&mut out, red as u64);
    out.append(", ");
    push_decimal(&mut out, green as u64);
    out.append(", ");
    push_decimal(&mut out, blue as u64);
    out.append(", ");
    let h: u32 = (200 * (alpha as u32) + 255) / 510;
    push_decimal(&mut out, (h / 100) as u64);
    out.push('.');
    push_digit(&mut out, (h / 10) % 10);
    push_digit(&mut out, h % 10);
    out.append(")");
    assert(out@ =~= css_color(rgba));
    out
}

/// `s` with every occurrence of `from` replaced by `to`, scanning left to
/// right without overlaps, as `str::replace` does.
pub open spec fn replace_spec(s: Seq<char>, from: Seq<char>, to: Seq<char>) -> Seq<char>
    decreases s.len(),
{
    if from.len() == 0 || s.len() < from.len() {
        s
    } else if from.is_prefix_of(s) {
        to + replace_spec(s.skip(from.len() as int), from, to)
    } else {
        seq![s[0]] + replace_spec(s.skip(1), from, to)
    }
}

/// `s` with every occurrence of the non-empty `from` replaced by `to`.
pub fn replace_all(s: &str, from: &str, to: &str) -> (r: String)
    requires
        from@.len() > 0,
    ensures
        r@ == replace_spec(s@, from@, to@),
{
    let v = chars_of(s);
    let f = chars_of(from);
    let n = v.len();
    let fl = f.len();
    let mut out = String::new();
    let mut i: usize = 0;
    assert(s@.skip(0) =~= s@);
    assert(out@ + replace_spec(s@, from@, to@) =~= replace_spec(s@, from@, to@));
    while i < n
        invariant
            v@ == s@,
            f@ == from@,
            n == v@.len(),
            fl == f@.len(),
            fl > 0,
            i <= n,
            out@ + replace_spec(s@.skip(i as int), from@, to@) == replace_spec(s@, from@, to@),
        decreases n - i,
    {
        let ghost rest = s@.skip(i as int);
        if n - i < fl {
            assert(replace_spec(rest, from@, to@) == rest);
            out.append(s.substring_char(i, n));
            assert(out@ =~= replace_spec(s@, from@, to@)) by {
                assert(s@.subrange(i as int, n as int) =~= rest);
            }
            return out;
        }
        let mut j: usize = 0;
        while j < fl && v[i + j] == f[j]
            invariant
                v@ == s@,
                f@ == from@,
                n == v@.len(),
                fl == f@.len(),
                i + fl <= n,
                j <= fl,
                forall|k: int| 0 <= k < j ==> v@[i + k] == f@[k],
            decreases fl - j,
        {
            j = j + 1;
        }
        if j == fl {
            assert(from@ =~= rest.subrange(0, from@.len() as int));
            assert(rest.skip(fl as int) =~= s@.skip(i + fl));
            out.append(to);
            i = i + fl;
        } else {
            assert(rest.subrange(0, from@.len() as int)[j as int] != from@[j as int]);
            assert(!from@.is_prefix_of(rest));
            assert(rest.skip(1) =~= s@.skip(i + 1));
            out.push(v[i]);
            i = i + 1;
        }
    }
    assert(s@.skip(i as int) =~= Seq::<char>::empty());
    assert(out@ =~= replace_spec(s@, from@, to@));
    out
}

/// A colour, or opaque white where there is none.
pub open spec fn or_white(c: Option<(u8, u8, u8, u8)>) -> (u8, u8, u8, u8) {
    match c {
        Some(c) => c,
        None => (255u8, 255u8, 255u8, 255u8),
    }
}

/// The foreground colour with its alpha divided by `dim_level`.
pub open spec fn dimmed(c: (u8, u8, u8, u8), dim_level: u8) -> (u8, u8, u8, u8) {
    (c.0, c.1, c.2, (c.3 / dim_level) as u8)
}

/// `css` with its colour placeholders filled: foreground, background,
/// highlight, and the foreground dimmed by `dim_level`. A missing colour is
/// opaque white.
pub fn replace_color_in_css(
    css: &str,
    fg: Option<(u8, u8, u8, u8)>,
    bg: Option<(u8, u8, u8, u8)>,
    hl: Option<(u8, u8, u8, u8)>,
    dim_level: u8,
) -> (r: String)
    requires
        dim_level > 0,
    ensures
        r@ == replace_spec(
            replace_spec(
                replace_spec(
                    replace_spec(css@, "{fg_color}"@, css_color(or_white(fg))),
                    "{bg_color}"@,
                    css_color(or_white(bg)),
                ),
                "{hl_color}"@,
                css_color(or_white(hl)),
            ),
            "{dim_color}"@,
            css_color(dimmed(or_white(fg), dim_level)),
        ),
{
    let white: (u8, u8, u8, u8) = (255, 255, 255, 255);
    let fg_rgba = match fg {
        Some(c) => c,
        None => white,
    };
    let bg_rgba = match bg {
        Some(c) => c,
        None => white,
    };
    let hl_rgba = match hl {
        Some(c) => c,
        None => white,
    };
    let dim_rgba = (fg_rgba.0, fg_rgba.1, fg_rgba.2, fg_rgba.3 / dim_level);
    proof {
        reveal_strlit("{fg_color}");
        reveal_strlit("{bg_color}");
        reveal_strlit("{hl_color}");
        reveal_strlit("{dim_color}");
    }
    let s1 = replace_all(css, "{fg_color}", rgba_to_css_color(fg_rgba).as_str());
    let s2 = replace_all(s1.as_str(), "{bg_color}", rgba_to_css_color(bg_rgba).as_str());
    let s3 = replace_all(s2.as_str(), "{hl_color}", rgba_to_css_color(hl_rgba).as_str());
    replace_all(s3.as_str(), "{dim_color}", rgba_to_css_color(dim_rgba).as_str())
}

/// The value of a hexadecimal digit.
pub open spec fn hex_value(c: char) -> Option<nat> {
    if '0' <= c <= '9' {
        Some((c as nat - '0' as nat) as nat)
    } else if 'a' <= c <= 'f' {
        Some((c as nat - 'a' as nat + 10) as nat)
    } else if 'A' <= c <= 'F' {
        Some((c as nat - 'A' as nat + 10) as nat)
    } else {
        None
    }
}

/// Two characters read as a hexadecimal byte, as `u8::from_str_radix` reads
/// them: two digits, or `+` and one digit.
pub open spec fn hex_pair(a: char, b: char) -> Option<u8> {
    match (hex_value(a), hex_value(b)) {
        (Some(x), Some(y)) => Some((16 * x + y) as u8),
        (None, Some(y)) => if a == '+' {
            Some(y as u8)
        } else {
            None
        },
        _ => None,
    }
}

/// `s` without its leading `#`s.
pub open spec fn without_hashes(s: Seq<char>) -> Seq<char>
    decreases s.len(),
{
    if s.len() > 0 && s[0] == '#' {
        without_hashes(s.drop_first())
    } else {
        s
    }
}

/// A colour written `#rrggbb` or `#rrggbbaa`, as bytes; the alpha is opaque
/// unless the text after the `#`s takes exactly eight bytes, and then it is
/// read from the bytes after the sixth (a character of two bytes there is no
/// pair of digits).
pub open spec fn hex_color_spec(hex: Seq<char>) -> Option<(u8, u8, u8, u8)> {
    let t = without_hashes(hex);
    if t.len() < 6 {
        None
    } else {
        match (hex_pair(t[0], t[1]), hex_pair(t[2], t[3]), hex_pair(t[4], t[5])) {
            (Some(r), Some(g), Some(b)) => if byte_len(t) == 8 {
                if t.len() < 8 {
                    None
                } else {
                    match hex_pair(t[6], t[7]) {
                        Some(a) => Some((r, g, b, a)),
                        None => None,
                    }
                }
            } else {
                Some((r, g, b, 255u8))
            },
            _ => None,
        }
    }
}

fn hex_digit(c: char) -> (r: Option<u32>)
    ensures
        match hex_value(c) {
            Some(v) => r == Some(v as u32),
            None => r is None,
        },
{
    if '0' <= c && c <= '9' {
        Some(c as u32 - 48)
    } else if 'a' <= c && c <= 'f' {
        Some(c as u32 - 97 + 10)
    } else if 'A' <= c && c <= 'F' {
        Some(c as u32 - 65 + 10)
    } else {
        None
    }
}

fn read_pair(a: char, b: char) -> (r: Option<u8>)
    ensures
        r == hex_pair(a, b),
{
    match (hex_digit(a), hex_digit(b)) {
        (Some(x), Some(y)) => Some((16 * x + y) as u8),
        (None, Some(y)) => if a == '+' {
            Some(y as u8)
        } else {
            None
        },
        _ => None,
    }
}

/// Reads a colour written `#rrggbb` or `#rrggbbaa` into its bytes.
pub fn hex_to_rgba(hex: &str) -> (r: Option<(u8, u8, u8, u8)>)
    ensures
        r == hex_color_spec(hex@),
{
    let v = chars_of(hex);
    let mut start: usize = 0;
    assert(hex@.skip(0) =~= hex@);
    while start < v.len() && v[start] == '#'
        invariant
            v@ == hex@,
            start <= v@.len(),
            without_hashes(hex@) == without_hashes(hex@.skip(start as int)),
        decreases v@.len() - start,
    {
        assert(hex@.skip(start as int).drop_first() =~= hex@.skip(start + 1));
        start = start + 1;
    }
    let ghost t = hex@.skip(start as int);
    assert(start < v@.len() ==> t[0] == v@[start as int]);
    assert(without_hashes(t) == t);
    if v.len() - start < 6 {
        return None;
    }
    let red = read_pair(v[start], v[start + 1]);
    let green = read_pair(v[start + 2], v[start + 3]);
    let blue = read_pair(v[start + 4], v[start + 5]);
    match (red, green, blue) {
        (Some(r), Some(g), Some(b)) => {
            let rest = String::from_str(hex.substring_char(start, v.len()));
            assert(rest@ =~= t);
            if crate::engine::byte_count(rest.as_str()) == 8 {
                if v.len() - start < 8 {
                    return None;
                }
                match read_pair(v[start + 6], v[start + 7]) {
                    Some(a) => Some((r, g, b, a)),
                    None => None,
                }
            } else {
                Some((r, g, b, 255))
            }
        },
        _ => None,
    }
}

/// Two hexadecimal digits for a byte.
pub open spec fn hex_byte(b: u8) -> Seq<char> {
    seq![hex_digit_char((b / 16) as nat), hex_digit_char((b % 16) as nat)]
}

pub open spec fn hex_digit_char(d: nat) -> char {
    if d < 10 {
        (('0' as nat) + d) as char
    } else {
        (('a' as nat) + d - 10) as char
    }
}

/// A colour written `#rrggbb` where it is opaque, else `#rrggbbaa`.
pub open spec fn hex_text(c: (u8, u8, u8, u8)) -> Seq<char> {
    seq!['#'] + hex_byte(c.0) + hex_byte(c.1) + hex_byte(c.2) + if c.3 == 255 {
        Seq::empty()
    } else {
        hex_byte(c.3)
    }
}

fn push_hex_byte(out: &mut String, b: u8)
    ensures
        final(out)@ == old(out)@ + hex_byte(b),
{
    let hi = b / 16;
    let lo = b % 16;
    let ch = if hi < 10 { (48 + hi) as char } else { (97 + hi - 10) as char };
    let cl = if lo < 10 { (48 + lo) as char } else { (97 + lo - 10) as char };
    out.push(ch);
    out.push(cl);
    assert(out@ =~= old(out)@ + hex_byte(b));
}

/// Writes a colour as hexadecimal text, the alpha only where not opaque.
pub fn rgba_to_hex(c: (u8, u8, u8, u8)) -> (r: String)
    ensures
        r@ == hex_text(c),
{
    let mut out = String::new();
    out.push('#');
    push_hex_byte(&mut out, c.0);
    push_hex_byte(&mut out, c.1);
    push_hex_byte(&mut out, c.2);
    if c.3 != 255 {
        push_hex_byte(&mut out, c.3);
    }
    assert(out@ =~= hex_text(c));
    out
}

proof fn lemma_hex_digit_roundtrip(d: nat)
    requires
        d < 16,
    ensures
        hex_value(hex_digit_char(d)) == Some(d),
        (hex_digit_char(d) as u32) < 0x80,
{
}

proof fn lemma_hex_byte_roundtrip(b: u8)
    ensures
        hex_pair(hex_byte(b)[0], hex_byte(b)[1]) == Some(b),
        (hex_byte(b)[0] as u32) < 0x80,
        (hex_byte(b)[1] as u32) < 0x80,
        hex_byte(b)[0] != '#',
{
    lemma_hex_digit_roundtrip((b / 16) as nat);
    lemma_hex_digit_roundtrip((b % 16) as nat);
}

/// Text of one-byte characters takes one byte per character.
proof fn lemma_ascii_byte_len(s: Seq<char>)
    requires
        forall|i: int| 0 <= i < s.len() ==> (#[trigger] s[i] as u32) < 0x80,
    ensures
        byte_len(s) == s.len(),
    decreases s.len(),
{
    if s.len() > 0 {
        lemma_ascii_byte_len(s.drop_last());
    }
}

/// Writing a colour as hexadecimal text and reading it back gives the colour.
pub proof fn law_hex_color_roundtrip(c: (u8, u8, u8, u8))
    ensures
        hex_color_spec(hex_text(c)) == Some(c),
{
    lemma_hex_byte_roundtrip(c.0);
    lemma_hex_byte_roundtrip(c.1);
    lemma_hex_byte_roundtrip(c.2);
    lemma_hex_byte_roundtrip(c.3);
    let h = hex_text(c);
    let t = hex_byte(c.0) + hex_byte(c.1) + hex_byte(c.2) + if c.3 == 255 {
        Seq::empty()
    } else {
        hex_byte(c.3)
    };
    assert(h.drop_first() =~= t);
    assert(without_hashes(t) == t);
    assert forall|i: int| 0 <= i < t.len() implies (#[trigger] t[i] as u32) < 0x80 by {
        if i < 2 {
            assert(t[i] == hex_byte(c.0)[i]);
        } else if i < 4 {
            assert(t[i] == hex_byte(c.1)[i - 2]);
        } else if i < 6 {
            assert(t[i] == hex_byte(c.2)[i - 4]);
        } else {
            assert(t[i] == hex_byte(c.3)[i - 6]);
        }
    }
    lemma_ascii_byte_len(t);
    assert(t[0] == hex_byte(c.0)[0] && t[1] == hex_byte(c.0)[1]);
    assert(t[2] == hex_byte(c.1)[0] && t[3] == hex_byte(c.1)[1]);
    assert(t[4] == hex_byte(c.2)[0] && t[5] == hex_byte(c.2)[1]);
    if c.3 != 255 {
        assert(t[6] == hex_byte(c.3)[0] && t[7] == hex_byte(c.3)[1]);
    }
}

/// The alpha is written as the hundredth nearest to `a / 255`: it is off by
/// at most half a hundredth, and it lies between 0 and 1.
pub proof fn law_alpha_rounding(a: u8)
    ensures
        alpha_hundredths(a) <= 100,
        2 * 255 * (alpha_hundredths(a) as int) - 200 * (a as int) <= 255,
        200 * (a as int) - 2 * 255 * (alpha_hundredths(a) as int) <= 255,
{
    let h = alpha_hundredths(a) as int;
    let x = 200 * (a as int) + 255;
    assert(h == x / 510);
    assert(510 * h <= x < 510 * h + 510) by (nonlinear_arith)
        requires
            h == x / 510,
            x >= 0,
    ;
}

} // verus!
