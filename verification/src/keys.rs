//! Keys as the key listener sees them, and how they are written in the
//! configuration.

use vstd::prelude::*;
use crate::std_text::{chars_of, lemma_char_code, upper_ascii_char};
use crate::text::{
    all_ascii, ascii_upper_char, is_unicode_whitespace, trim_end_spec, trim_spec, trim_start_spec,
    trim_whitespace, upper_case, to_uppercase,
};

verus! {

/// A physical key. Keys the library has no use for are `Other`, told apart by
/// a code the event source assigns.
#[derive(Debug, Clone, Copy, PartialEq, Eq, Hash, Structural)]
pub enum Key {
    KeyA,
    KeyB,
    KeyC,
    KeyD,
    KeyE,
    KeyF,
    KeyG,
    KeyH,
    KeyI,
    KeyJ,
    KeyK,
    KeyL,
    KeyM,
    KeyN,
    KeyO,
    KeyP,
    KeyQ,
    KeyR,
    KeyS,
    KeyT,
    KeyU,
    KeyV,
    KeyW,
    KeyX,
    KeyY,
    KeyZ,
    Num1,
    Num2,
    Num3,
    Num4,
    Num5,
    Num6,
    Num7,
    Num8,
    Num9,
    Num0,
    Grave,
    Minus,
    Equal,
    BracketLeft,
    BracketRight,
    Backslash,
    Semicolon,
    Quote,
    Comma,
    Period,
    Slash,
    Backspace,
    Delete,
    ShiftLeft,
    ShiftRight,
    AltLeft,
    AltRight,
    ControlLeft,
    ControlRight,
    MetaLeft,
    MetaRight,
    Space,
    Return,
    Escape,
    Tab,
    Other(u32),
}

/// What a key types in the hint filter.
pub open spec fn key_char(k: Key) -> char {
    match k {
        Key::KeyA => 'A',
        Key::KeyB => 'B',
        Key::KeyC => 'C',
        Key::KeyD => 'D',
        Key::KeyE => 'E',
        Key::KeyF => 'F',
        Key::KeyG => 'G',
        Key::KeyH => 'H',
        Key::KeyI => 'I',
        Key::KeyJ => 'J',
        Key::KeyK => 'K',
        Key::KeyL => 'L',
        Key::KeyM => 'M',
        Key::KeyN => 'N',
        Key::KeyO => 'O',
        Key::KeyP => 'P',
        Key::KeyQ => 'Q',
        Key::KeyR => 'R',
        Key::KeyS => 'S',
        Key::KeyT => 'T',
        Key::KeyU => 'U',
        Key::KeyV => 'V',
        Key::KeyW => 'W',
        Key::KeyX => 'X',
        Key::KeyY => 'Y',
        Key::KeyZ => 'Z',
        Key::Num1 => '1',
        Key::Num2 => '2',
        Key::Num3 => '3',
        Key::Num4 => '4',
        Key::Num5 => '5',
        Key::Num6 => '6',
        Key::Num7 => '7',
        Key::Num8 => '8',
        Key::Num9 => '9',
        Key::Num0 => '0',
        Key::Grave => '`',
        Key::Minus => '-',
        Key::Equal => '=',
        Key::BracketLeft => '[',
        Key::BracketRight => ']',
        Key::Backslash => '\\',
        Key::Semicolon => ';',
        Key::Quote => '\'',
        Key::Comma => ',',
        Key::Period => '.',
        Key::Slash => '/',
        Key::Backspace | Key::Delete => '\u{f006e}',
        Key::ShiftLeft | Key::ShiftRight => '\u{f0636}',
        _ => ' ',
    }
}

/// What a key types with shift held.
pub open spec fn key_shifted_char(k: Key) -> char {
    match k {
        Key::KeyA => 'A',
        Key::KeyB => 'B',
        Key::KeyC => 'C',
        Key::KeyD => 'D',
        Key::KeyE => 'E',
        Key::KeyF => 'F',
        Key::KeyG => 'G',
        Key::KeyH => 'H',
        Key::KeyI => 'I',
        Key::KeyJ => 'J',
        Key::KeyK => 'K',
        Key::KeyL => 'L',
        Key::KeyM => 'M',
        Key::KeyN => 'N',
        Key::KeyO => 'O',
        Key::KeyP => 'P',
        Key::KeyQ => 'Q',
        Key::KeyR => 'R',
        Key::KeyS => 'S',
        Key::KeyT => 'T',
        Key::KeyU => 'U',
        Key::KeyV => 'V',
        Key::KeyW => 'W',
        Key::KeyX => 'X',
        Key::KeyY => 'Y',
        Key::KeyZ => 'Z',
        Key::Num1 => '!',
        Key::Num2 => '@',
        Key::Num3 => '#',
        Key::Num4 => '$',
        Key::Num5 => '%',
        Key::Num6 => '^',
        Key::Num7 => '&',
        Key::Num8 => '*',
        Key::Num9 => '(',
        Key::Num0 => ')',
        Key::Grave => '~',
        Key::Minus => '_',
        Key::Equal => '+',
        Key::BracketLeft => '{',
        Key::BracketRight => '}',
        Key::Backslash => '|',
        Key::Semicolon => ':',
        Key::Quote => '"',
        Key::Comma => '<',
        Key::Period => '>',
        Key::Slash => '?',
        Key::Backspace | Key::Delete => '\u{f006e}',
        _ => ' ',
    }
}
/// The letter key typing `c`, for `A..=Z`.
pub open spec fn letter_key(c: char) -> Key {
    if c == 'A' {
        Key::KeyA
    } else if c == 'B' {
        Key::KeyB
    } else if c == 'C' {
        Key::KeyC
    } else if c == 'D' {
        Key::KeyD
    } else if c == 'E' {
        Key::KeyE
    } else if c == 'F' {
        Key::KeyF
    } else if c == 'G' {
        Key::KeyG
    } else if c == 'H' {
        Key::KeyH
    } else if c == 'I' {
        Key::KeyI
    } else if c == 'J' {
        Key::KeyJ
    } else if c == 'K' {
        Key::KeyK
    } else if c == 'L' {
        Key::KeyL
    } else if c == 'M' {
        Key::KeyM
    } else if c == 'N' {
        Key::KeyN
    } else if c == 'O' {
        Key::KeyO
    } else if c == 'P' {
        Key::KeyP
    } else if c == 'Q' {
        Key::KeyQ
    } else if c == 'R' {
        Key::KeyR
    } else if c == 'S' {
        Key::KeyS
    } else if c == 'T' {
        Key::KeyT
    } else if c == 'U' {
        Key::KeyU
    } else if c == 'V' {
        Key::KeyV
    } else if c == 'W' {
        Key::KeyW
    } else if c == 'X' {
        Key::KeyX
    } else if c == 'Y' {
        Key::KeyY
    } else if c == 'Z' {
        Key::KeyZ
    } else {
        Key::Other(0)
    }
}
fn letter_key_exec(c: char) -> (r: Key)
    requires
        'A' <= c <= 'Z',
    ensures
        r == letter_key(c),
{
    match c {
        'A' => Key::KeyA,
        'B' => Key::KeyB,
        'C' => Key::KeyC,
        'D' => Key::KeyD,
        'E' => Key::KeyE,
        'F' => Key::KeyF,
        'G' => Key::KeyG,
        'H' => Key::KeyH,
        'I' => Key::KeyI,
        'J' => Key::KeyJ,
        'K' => Key::KeyK,
        'L' => Key::KeyL,
        'M' => Key::KeyM,
        'N' => Key::KeyN,
        'O' => Key::KeyO,
        'P' => Key::KeyP,
        'Q' => Key::KeyQ,
        'R' => Key::KeyR,
        'S' => Key::KeyS,
        'T' => Key::KeyT,
        'U' => Key::KeyU,
        'V' => Key::KeyV,
        'W' => Key::KeyW,
        'X' => Key::KeyX,
        'Y' => Key::KeyY,
        'Z' => Key::KeyZ,
        _ => Key::Other(0),
    }
}

/// How a key is written in a key combination.
pub open spec fn key_name(k: Key) -> Seq<char> {
    match k {
        Key::AltLeft | Key::AltRight => seq!['A', 'L', 'T'],
        Key::ControlLeft | Key::ControlRight => seq!['C', 'T', 'R', 'L'],
        Key::MetaLeft | Key::MetaRight => seq!['M', 'E', 'T', 'A'],
        Key::ShiftLeft | Key::ShiftRight => seq!['S', 'H', 'I', 'F', 'T'],
        Key::Space => seq!['S', 'P', 'A', 'C', 'E'],
        _ => seq![key_char(k)],
    }
}

/// The key an upper-cased name stands for.
pub open spec fn key_from_name(s: Seq<char>) -> Option<Key> {
    if s.len() == 1 && 'A' <= s[0] <= 'Z' {
        Some(letter_key(s[0]))
    } else if s == seq!['A', 'L', 'T'] {
        Some(Key::AltLeft)
    } else if s == seq!['C', 'T', 'R', 'L'] {
        Some(Key::ControlLeft)
    } else if s == seq!['S', 'H', 'I', 'F', 'T'] {
        Some(Key::ShiftLeft)
    } else if s == seq!['M', 'E', 'T', 'A'] {
        Some(Key::MetaLeft)
    } else if s == seq!['S', 'P', 'A', 'C', 'E'] {
        Some(Key::Space)
    } else {
        None
    }
}

/// The right-hand twin that also satisfies a binding naming `k`.
pub open spec fn key_right_alternative(k: Key) -> Option<Key> {
    match k {
        Key::AltLeft => Some(Key::AltRight),
        Key::ControlLeft => Some(Key::ControlRight),
        Key::ShiftLeft => Some(Key::ShiftRight),
        Key::ShiftRight => Some(Key::MetaRight),
        _ => None,
    }
}

fn string_of(s: &str) -> (r: String)
    ensures
        r@ == s@,
{
    String::from_str(s)
}

impl Key {
    /// The character this key types in the hint filter.
    pub fn to_char(&self) -> (r: char)
        ensures
            r == key_char(*self),
    {
        match self {
            Key::KeyA => 'A',
            Key::KeyB => 'B',
            Key::KeyC => 'C',
            Key::KeyD => 'D',
            Key::KeyE => 'E',
            Key::KeyF => 'F',
            Key::KeyG => 'G',
            Key::KeyH => 'H',
            Key::KeyI => 'I',
            Key::KeyJ => 'J',
            Key::KeyK => 'K',
            Key::KeyL => 'L',
            Key::KeyM => 'M',
            Key::KeyN => 'N',
            Key::KeyO => 'O',
            Key::KeyP => 'P',
            Key::KeyQ => 'Q',
            Key::KeyR => 'R',
            Key::KeyS => 'S',
            Key::KeyT => 'T',
            Key::KeyU => 'U',
            Key::KeyV => 'V',
            Key::KeyW => 'W',
            Key::KeyX => 'X',
            Key::KeyY => 'Y',
            Key::KeyZ => 'Z',
            Key::Num1 => '1',
            Key::Num2 => '2',
            Key::Num3 => '3',
            Key::Num4 => '4',
            Key::Num5 => '5',
            Key::Num6 => '6',
            Key::Num7 => '7',
            Key::Num8 => '8',
            Key::Num9 => '9',
            Key::Num0 => '0',
            Key::Grave => '`',
            Key::Minus => '-',
            Key::Equal => '=',
            Key::BracketLeft => '[',
            Key::BracketRight => ']',
            Key::Backslash => '\\',
            Key::Semicolon => ';',
            Key::Quote => '\'',
            Key::Comma => ',',
            Key::Period => '.',
            Key::Slash => '/',
            Key::Backspace | Key::Delete => '\u{f006e}',
            Key::ShiftLeft | Key::ShiftRight => '\u{f0636}',
            _ => ' ',
        }
    }

    /// The character this key types with shift held.
    pub fn shifted_char(&self) -> (r: char)
        ensures
            r == key_shifted_char(*self),
    {
        match self {
            Key::KeyA => 'A',
            Key::KeyB => 'B',
            Key::KeyC => 'C',
            Key::KeyD => 'D',
            Key::KeyE => 'E',
            Key::KeyF => 'F',
            Key::KeyG => 'G',
            Key::KeyH => 'H',
            Key::KeyI => 'I',
            Key::KeyJ => 'J',
            Key::KeyK => 'K',
            Key::KeyL => 'L',
            Key::KeyM => 'M',
            Key::KeyN => 'N',
            Key::KeyO => 'O',
            Key::KeyP => 'P',
            Key::KeyQ => 'Q',
            Key::KeyR => 'R',
            Key::KeyS => 'S',
            Key::KeyT => 'T',
            Key::KeyU => 'U',
            Key::KeyV => 'V',
            Key::KeyW => 'W',
            Key::KeyX => 'X',
            Key::KeyY => 'Y',
            Key::KeyZ => 'Z',
            Key::Num1 => '!',
            Key::Num2 => '@',
            Key::Num3 => '#',
            Key::Num4 => '$',
            Key::Num5 => '%',
            Key::Num6 => '^',
            Key::Num7 => '&',
            Key::Num8 => '*',
            Key::Num9 => '(',
            Key::Num0 => ')',
            Key::Grave => '~',
            Key::Minus => '_',
            Key::Equal => '+',
            Key::BracketLeft => '{',
            Key::BracketRight => '}',
            Key::Backslash => '|',
            Key::Semicolon => ':',
            Key::Quote => '"',
            Key::Comma => '<',
            Key::Period => '>',
            Key::Slash => '?',
            Key::Backspace | Key::Delete => '\u{f006e}',
            _ => ' ',
        }
    }

    /// How this key is written in a key combination.
    pub fn to_str(&self) -> (r: String)
        ensures
            r@ == key_name(*self),
    {
        match self {
            Key::AltLeft | Key::AltRight => {
                let r = string_of("ALT");
                proof {
                    reveal_strlit("ALT");
                }
                assert(r@ =~= key_name(*self));
                r
            },
            Key::ControlLeft | Key::ControlRight => {
                let r = string_of("CTRL");
                proof {
                    reveal_strlit("CTRL");
                }
                assert(r@ =~= key_name(*self));
                r
            },
            Key::MetaLeft | Key::MetaRight => {
                let r = string_of("META");
                proof {
                    reveal_strlit("META");
                }
                assert(r@ =~= key_name(*self));
                r
            },
            Key::ShiftLeft | Key::ShiftRight => {
                let r = string_of("SHIFT");
                proof {
                    reveal_strlit("SHIFT");
                }
                assert(r@ =~= key_name(*self));
                r
            },
            Key::Space => {
                let r = string_of("SPACE");
                proof {
                    reveal_strlit("SPACE");
                }
                assert(r@ =~= key_name(*self));
                r
            },
            _ => {
                let mut r = String::new();
                r.push(self.to_char());
                assert(r@ =~= key_name(*self));
                r
            },
        }
    }

    /// The key a name stands for, case-insensitively: a single letter, or one
    /// of `ALT`, `CTRL`, `SHIFT`, `META`, `SPACE`.
    pub fn from_str(c: &str) -> (r: Option<Key>)
        ensures
            r == key_from_name(upper_case(c@)),
    {
        let up = to_uppercase(c);
        assert(up@ == upper_case(c@));
        let v = chars_of(up.as_str());
        if v.len() == 1 && 'A' <= v[0] && v[0] <= 'Z' {
            return Some(letter_key_exec(v[0]));
        }
        proof {
            reveal_strlit("ALT");
            reveal_strlit("CTRL");
            reveal_strlit("SHIFT");
            reveal_strlit("META");
            reveal_strlit("SPACE");
            assert("ALT"@ =~= seq!['A', 'L', 'T']);
            assert("CTRL"@ =~= seq!['C', 'T', 'R', 'L']);
            assert("SHIFT"@ =~= seq!['S', 'H', 'I', 'F', 'T']);
            assert("META"@ =~= seq!['M', 'E', 'T', 'A']);
            assert("SPACE"@ =~= seq!['S', 'P', 'A', 'C', 'E']);
        }
        if up == string_of("ALT") {
            assert(up@ =~= seq!['A', 'L', 'T']);
            Some(Key::AltLeft)
        } else if up == string_of("CTRL") {
            assert(up@ =~= seq!['C', 'T', 'R', 'L']);
            Some(Key::ControlLeft)
        } else if up == string_of("SHIFT") {
            assert(up@ =~= seq!['S', 'H', 'I', 'F', 'T']);
            Some(Key::ShiftLeft)
        } else if up == string_of("META") {
            assert(up@ =~= seq!['M', 'E', 'T', 'A']);
            Some(Key::MetaLeft)
        } else if up == string_of("SPACE") {
            assert(up@ =~= seq!['S', 'P', 'A', 'C', 'E']);
            Some(Key::Space)
        } else {
            assert(up@ != seq!['A', 'L', 'T']);
            assert(up@ != seq!['C', 'T', 'R', 'L']);
            assert(up@ != seq!['S', 'H', 'I', 'F', 'T']);
            assert(up@ != seq!['M', 'E', 'T', 'A']);
            assert(up@ != seq!['S', 'P', 'A', 'C', 'E']);
            None
        }
    }

    /// The right-hand twin of a left modifier.
    pub fn right_alternative(&self) -> (r: Option<Key>)
        ensures
            r == key_right_alternative(*self),
    {
        match self {
            Key::AltLeft => Some(Key::AltRight),
            Key::ControlLeft => Some(Key::ControlRight),
            Key::ShiftLeft => Some(Key::ShiftRight),
            Key::ShiftRight => Some(Key::MetaRight),
            _ => None,
        }
    }
}

/// Key combination text: the keys' names joined by ` + `.
pub open spec fn combo_text(keys: Seq<Key>) -> Seq<char>
    decreases keys.len(),
{
    if keys.len() == 0 {
        Seq::empty()
    } else if keys.len() == 1 {
        key_name(keys[0])
    } else {
        combo_text(keys.drop_last()) + seq![' ', '+', ' '] + key_name(keys.last())
    }
}

/// The pieces of `s` between occurrences of `sep`, as `str::split` yields them.
pub open spec fn split_on(s: Seq<char>, sep: char) -> Seq<Seq<char>>
    decreases s.len(),
{
    if s.len() == 0 {
        seq![Seq::empty()]
    } else {
        let p = split_on(s.drop_last(), sep);
        if s.last() == sep {
            p.push(Seq::empty())
        } else {
            p.update(p.len() - 1, p.last().push(s.last()))
        }
    }
}

pub proof fn lemma_split_on_nonempty(s: Seq<char>, sep: char)
    ensures
        split_on(s, sep).len() >= 1,
    decreases s.len(),
{
    if s.len() > 0 {
        lemma_split_on_nonempty(s.drop_last(), sep);
    }
}

/// The message for a part of a key combination that names no key.
pub open spec fn invalid_key_message(part: Seq<char>) -> Seq<char> {
    "Invalid key: "@ + part
}

/// Keys named by the parts of a combination, or the message for the first
/// part that names none. Parts are trimmed and upper-cased before lookup.
pub open spec fn parse_parts(parts: Seq<Seq<char>>) -> Result<Seq<Key>, Seq<char>>
    decreases parts.len(),
{
    if parts.len() == 0 {
        Ok(Seq::empty())
    } else {
        match parse_parts(parts.drop_last()) {
            Err(e) => Err(e),
            Ok(ks) => match key_from_name(upper_case(trim_spec(parts.last()))) {
                Some(k) => Ok(ks.push(k)),
                None => Err(invalid_key_message(parts.last())),
            },
        }
    }
}

/// A combination as written in the configuration, e.g. `ALT + G`.
pub open spec fn parse_combo_spec(s: Seq<char>) -> Result<Seq<Key>, Seq<char>> {
    parse_parts(split_on(s, '+'))
}

/// Writes a key combination, e.g. `CTRL + SHIFT + Z`.
pub fn format_key_combo(keys: &[Key]) -> (r: String)
    ensures
        r@ == combo_text(keys@),
{
    let mut out = String::new();
    let mut i: usize = 0;
    while i < keys.len()
        invariant
            i <= keys@.len(),
            out@ == combo_text(keys@.take(i as int)),
        decreases keys@.len() - i,
    {
        let ghost before = keys@.take(i as int);
        let ghost after = keys@.take(i + 1);
        assert(after.drop_last() =~= before);
        assert(after.last() == keys@[i as int]);
        if i > 0 {
            let sep = string_of(" + ");
            proof {
                reveal_strlit(" + ");
                assert(sep@ =~= seq![' ', '+', ' ']);
            }
            out.append(sep.as_str());
        } else {
            assert(after =~= seq![keys@[0]]);
        }
        let name = keys[i].to_str();
        out.append(name.as_str());
        i = i + 1;
    }
    assert(keys@.take(i as int) =~= keys@);
    out
}

/// The pieces of `s` between occurrences of `sep`, as `str::split` yields them.
pub fn split_char(s: &str, sep: char) -> (parts: Vec<String>)
    ensures
        parts@.map_values(|p: String| p@) == split_on(s@, sep),
{
    let v = chars_of(s);
    let mut done: Vec<String> = Vec::new();
    let mut cur = String::new();
    let mut i: usize = 0;
    while i < v.len()
        invariant
            v@ == s@,
            i <= v@.len(),
            done@.map_values(|p: String| p@).push(cur@) == split_on(s@.take(i as int), sep),
        decreases v@.len() - i,
    {
        let ghost pre = s@.take(i as int);
        let ghost nxt = s@.take(i + 1);
        assert(nxt.drop_last() =~= pre);
        assert(nxt.last() == v@[i as int]);
        let ghost old_done = done@.map_values(|p: String| p@);
        let ghost old_cur = cur@;
        if v[i] == sep {
            let finished = cur;
            done.push(finished);
            cur = String::new();
            assert(done@.map_values(|p: String| p@) =~= old_done.push(old_cur));
            assert(done@.map_values(|p: String| p@).push(cur@) =~= old_done.push(old_cur).push(
                Seq::empty(),
            ));
        } else {
            cur.push(v[i]);
            assert(old_done.push(old_cur).update(old_done.len() as int, old_cur.push(v@[i as int]))
                =~= old_done.push(cur@));
        }
        i = i + 1;
    }
    assert(s@.take(i as int) =~= s@);
    let ghost old_done = done@.map_values(|p: String| p@);
    done.push(cur);
    assert(done@.map_values(|p: String| p@) =~= old_done.push(cur@));
    done
}

/// Reads a key combination, e.g. `ALT + G`; fails with `Invalid key: <part>`
/// on the first part that names no key.
pub fn parse_key_combo(s: &str) -> (r: Result<Vec<Key>, String>)
    ensures
        match r {
            Ok(keys) => parse_combo_spec(s@) == Ok::<Seq<Key>, Seq<char>>(keys@),
            Err(msg) => parse_combo_spec(s@) == Err::<Seq<Key>, Seq<char>>(msg@),
        },
{
    let parts = split_char(s, '+');
    let ghost views = parts@.map_values(|p: String| p@);
    let mut keys: Vec<Key> = Vec::new();
    let mut i: usize = 0;
    while i < parts.len()
        invariant
            views == parts@.map_values(|p: String| p@),
            views == split_on(s@, '+'),
            i <= parts@.len(),
            parse_parts(views.take(i as int)) == Ok::<Seq<Key>, Seq<char>>(keys@),
        decreases parts@.len() - i,
    {
        let ghost nxt = views.take(i + 1);
        assert(nxt.drop_last() =~= views.take(i as int));
        assert(nxt.last() == parts@[i as int]@);
        let trimmed = trim_whitespace(parts[i].as_str());
        match Key::from_str(trimmed.as_str()) {
            Some(k) => {
                keys.push(k);
            },
            None => {
                let mut msg = string_of("Invalid key: ");
                msg.append(parts[i].as_str());
                proof {
                    lemma_parse_error_sticks(views, (i + 1) as nat, invalid_key_message(
                        parts@[i as int]@,
                    ));
                    assert(views.take(views.len() as int) =~= views);
                }
                return Err(msg);
            },
        }
        i = i + 1;
    }
    assert(views.take(i as int) =~= views);
    Ok(keys)
}

/// Once a prefix of the parts fails, every longer prefix fails the same way.
proof fn lemma_parse_error_sticks(parts: Seq<Seq<char>>, n: nat, e: Seq<char>)
    requires
        n <= parts.len(),
        parse_parts(parts.take(n as int)) == Err::<Seq<Key>, Seq<char>>(e),
    ensures
        parse_parts(parts.take(parts.len() as int)) == Err::<Seq<Key>, Seq<char>>(e),
    decreases parts.len() - n,
{
    if n < parts.len() {
        assert(parts.take((n + 1) as int).drop_last() =~= parts.take(n as int));
        lemma_parse_error_sticks(parts, n + 1, e);
    }
}

/// A key that reads back as itself from its name: a letter, a left modifier,
/// or the space bar.
pub open spec fn reads_back(k: Key) -> bool {
    key_from_name(upper_case(key_name(k))) == Some(k)
}

/// Cutting at a separator between two texts cuts each apart.
pub proof fn lemma_split_joined(x: Seq<char>, y: Seq<char>, sep: char)
    ensures
        split_on(x + seq![sep] + y, sep) == split_on(x, sep) + split_on(y, sep),
    decreases y.len(),
{
    let whole = x + seq![sep] + y;
    if y.len() == 0 {
        assert(whole.drop_last() =~= x);
        assert(split_on(y, sep) =~= seq![Seq::<char>::empty()]);
        assert(split_on(x, sep).push(Seq::empty()) =~= split_on(x, sep) + seq![Seq::<char>::empty()]);
    } else {
        let y2 = y.drop_last();
        lemma_split_joined(x, y2, sep);
        lemma_split_on_nonempty(y2, sep);
        lemma_split_on_nonempty(x, sep);
        assert(whole.drop_last() =~= x + seq![sep] + y2);
        assert(whole.last() == y.last());
        let px = split_on(x, sep);
        let py = split_on(y2, sep);
        if y.last() == sep {
            assert((px + py).push(Seq::empty()) =~= px + py.push(Seq::empty()));
        } else {
            let p = px + py;
            assert(p.update(p.len() - 1, p.last().push(y.last())) =~= px + py.update(
                py.len() - 1,
                py.last().push(y.last()),
            ));
        }
    }
}

/// Text without the separator is one piece.
proof fn lemma_split_whole(s: Seq<char>, sep: char)
    requires
        forall|i: int| 0 <= i < s.len() ==> s[i] != sep,
    ensures
        split_on(s, sep) == seq![s],
    decreases s.len(),
{
    if s.len() == 0 {
        assert(s =~= Seq::<char>::empty());
        assert(split_on(s, sep) =~= seq![s]);
    } else {
        lemma_split_whole(s.drop_last(), sep);
        assert(s.drop_last().push(s.last()) =~= s);
        assert(seq![s.drop_last()].update(0, s.drop_last().push(s.last())) =~= seq![s]);
    }
}

/// A name: upper-case letters only.
pub open spec fn is_name(s: Seq<char>) -> bool {
    &&& s.len() > 0
    &&& forall|i: int| 0 <= i < s.len() ==> 'A' <= #[trigger] s[i] <= 'Z'
}

proof fn lemma_reads_back_name(k: Key)
    requires
        reads_back(k),
    ensures
        is_name(key_name(k)),
{
    let n = key_name(k);
    if !is_name(n) {
        if all_ascii(n) {
            let u = n.map_values(|c: char| ascii_upper_char(c));
            assert(upper_case(n) == u);
            if u.len() == 1 && 'A' <= u[0] <= 'Z' {
                assert(n.len() == 1);
            }
        }
    }
}

/// Trimming leaves a name alone, and a name with a space before it.
proof fn lemma_trim_name(s: Seq<char>)
    requires
        is_name(s),
    ensures
        trim_spec(s) == s,
        trim_spec(seq![' '] + s) == s,
{
    assert(!is_unicode_whitespace(s[0]));
    assert(!is_unicode_whitespace(s.last()));
    let t = seq![' '] + s;
    assert(t.subrange(1, t.len() as int) =~= s);
}

/// Trimming ignores a space added at the end of text that holds something
/// besides whitespace.
proof fn lemma_trim_trailing_space(x: Seq<char>, k: int)
    requires
        0 <= k < x.len(),
        !is_unicode_whitespace(x[k]),
    ensures
        trim_spec(x.push(' ')) == trim_spec(x),
    decreases x.len(),
{
    lemma_trim_start_push(x, k);
    let y = trim_start_spec(x);
    assert(y.push(' ').drop_last() =~= y);
}

proof fn lemma_trim_start_push(x: Seq<char>, k: int)
    requires
        0 <= k < x.len(),
        !is_unicode_whitespace(x[k]),
    ensures
        trim_start_spec(x.push(' ')) == trim_start_spec(x).push(' '),
    decreases x.len(),
{
    if is_unicode_whitespace(x[0]) {
        let r = x.subrange(1, x.len() as int);
        assert(x.push(' ').subrange(1, (x.len() + 1) as int) =~= r.push(' '));
        lemma_trim_start_push(r, k - 1);
    }
}

/// The pieces of a written combination: one per key, which trims to its name,
/// the last one ending in the name itself.
proof fn lemma_combo_parts(keys: Seq<Key>)
    requires
        keys.len() > 0,
        forall|i: int| 0 <= i < keys.len() ==> reads_back(#[trigger] keys[i]),
    ensures
        split_on(combo_text(keys), '+').len() == keys.len(),
        forall|i: int|
            0 <= i < keys.len() ==> trim_spec(#[trigger] split_on(combo_text(keys), '+')[i])
                == key_name(keys[i]),
        split_on(combo_text(keys), '+').last().len() > 0,
        !is_unicode_whitespace(split_on(combo_text(keys), '+').last().last()),
    decreases keys.len(),
{
    let n = keys.len();
    let last = keys.last();
    lemma_reads_back_name(last);
    let name = key_name(last);
    assert forall|i: int| 0 <= i < name.len() implies name[i] != '+' by {
        assert('A' <= name[i] <= 'Z');
    }
    lemma_trim_name(name);
    assert(!is_unicode_whitespace(name.last()));
    if n == 1 {
        assert(combo_text(keys) == name);
        lemma_split_whole(name, '+');
    } else {
        let init = keys.drop_last();
        assert forall|i: int| 0 <= i < init.len() implies reads_back(#[trigger] init[i]) by {
            assert(init[i] == keys[i]);
        }
        lemma_combo_parts(init);
        let x = combo_text(init);
        let p = split_on(x, '+');
        let tail = seq![' '] + name;
        assert forall|i: int| 0 <= i < tail.len() implies tail[i] != '+' by {
            if i > 0 {
                assert(tail[i] == name[i - 1]);
                assert('A' <= name[i - 1] <= 'Z');
            }
        }
        lemma_split_whole(tail, '+');
        assert(combo_text(keys) == x + seq![' ', '+', ' '] + name);
        assert(x + seq![' ', '+', ' '] + name =~= x.push(' ') + seq!['+'] + tail);
        lemma_split_joined(x.push(' '), tail, '+');
        lemma_split_on_nonempty(x, '+');
        assert(x.push(' ').drop_last() =~= x);
        let q = p.update(p.len() - 1, p.last().push(' '));
        assert(split_on(x.push(' '), '+') == q);
        let parts = split_on(combo_text(keys), '+');
        assert(parts == q + seq![tail]);
        lemma_trim_trailing_space(p.last(), p.last().len() - 1);
        assert forall|i: int| 0 <= i < n implies trim_spec(#[trigger] parts[i]) == key_name(keys[i]) by {
            if i < n - 1 {
                assert(init[i] == keys[i]);
                if i < n - 2 {
                    assert(parts[i] == p[i]);
                } else {
                    assert(parts[i] == p.last().push(' '));
                }
            } else {
                assert(parts[i] == tail);
            }
        }
        assert(parts.last() == tail);
        assert(tail.last() == name.last());
    }
}

/// Parts that trim to names of keys that read back parse to those keys.
proof fn lemma_parse_names(parts: Seq<Seq<char>>, keys: Seq<Key>)
    requires
        parts.len() == keys.len(),
        forall|i: int| 0 <= i < keys.len() ==> reads_back(#[trigger] keys[i]),
        forall|i: int| 0 <= i < keys.len() ==> trim_spec(#[trigger] parts[i]) == key_name(keys[i]),
    ensures
        parse_parts(parts) == Ok::<Seq<Key>, Seq<char>>(keys),
    decreases parts.len(),
{
    if parts.len() > 0 {
        let n = parts.len() - 1;
        assert forall|i: int| 0 <= i < n implies reads_back(#[trigger] keys.drop_last()[i])
            && trim_spec(parts.drop_last()[i]) == key_name(keys.drop_last()[i]) by {
            assert(keys.drop_last()[i] == keys[i]);
            assert(parts.drop_last()[i] == parts[i]);
        }
        lemma_parse_names(parts.drop_last(), keys.drop_last());
        assert(trim_spec(parts.last()) == key_name(keys.last()));
        assert(keys.drop_last().push(keys.last()) =~= keys);
    } else {
        assert(keys =~= Seq::<Key>::empty());
    }
}

/// A written key combination reads back as the same keys, for keys that read
/// back from their names (letters, left modifiers and the space bar).
pub proof fn law_key_combo_roundtrip(keys: Seq<Key>)
    requires
        keys.len() > 0,
        forall|i: int| 0 <= i < keys.len() ==> reads_back(#[trigger] keys[i]),
    ensures
        parse_combo_spec(combo_text(keys)) == Ok::<Seq<Key>, Seq<char>>(keys),
{
    lemma_combo_parts(keys);
    lemma_parse_names(split_on(combo_text(keys), '+'), keys);
}

} // verus!
