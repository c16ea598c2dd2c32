//! The alphabet hint labels are spelled in, and the labels themselves.
//!
//! Labels are little-endian numerals in base `base()`: the first character is
//! the least significant digit, and padding repeats the alphabet's first key at
//! the end.

use vstd::prelude::*;
use vstd::arithmetic::power2::pow2;
use crate::std_text::{chars_of, lemma_char_code, upper_ascii_char};

verus! {

/// Characters that can reach the hint filter as a plain keystroke. `/` is left
/// out on purpose: it starts a text search instead.
pub open spec fn is_typable_hint_char(c: char) -> bool {
    ||| 'A' <= c <= 'Z'
    ||| '0' <= c <= '9'
    ||| c == '`'
    ||| c == '-'
    ||| c == '='
    ||| c == '['
    ||| c == ']'
    ||| c == '\\'
    ||| c == ';'
    ||| c == '\''
    ||| c == ','
    ||| c == '.'
}

/// ASCII upper-casing of one character; everything but `a..=z` is unchanged.
pub open spec fn ascii_upper(c: char) -> char {
    if 'a' <= c <= 'z' {
        ((c as u32) - 32) as char
    } else {
        c
    }
}

/// The keys of `raw` that can label hints: upper-cased, restricted to typable
/// characters, each kept at its first occurrence only.
pub open spec fn sanitize(raw: Seq<char>) -> Seq<char>
    decreases raw.len(),
{
    if raw.len() == 0 {
        Seq::empty()
    } else {
        let kept = sanitize(raw.drop_last());
        let c = ascii_upper(raw.last());
        if is_typable_hint_char(c) && !kept.contains(c) {
            kept.push(c)
        } else {
            kept
        }
    }
}

/// `A` to `Z`, the alphabet used when a configured one is unusable.
pub open spec fn default_alphabet() -> Seq<char> {
    Seq::new(26, |i: int| (65 + i) as char)
}

/// The alphabet a raw configuration value yields.
pub open spec fn normalize(raw: Seq<char>) -> Seq<char> {
    if sanitize(raw).len() >= 2 {
        sanitize(raw)
    } else {
        default_alphabet()
    }
}

/// What every hint alphabet satisfies.
pub open spec fn is_hint_alphabet(keys: Seq<char>) -> bool {
    &&& keys.len() >= 2
    &&& keys.no_duplicates()
    &&& forall|i: int| 0 <= i < keys.len() ==> is_typable_hint_char(#[trigger] keys[i])
}

/// Base-`b` digits of `n`, least significant first; `0` has none.
pub open spec fn base_digits(n: nat, b: nat) -> Seq<nat>
    decreases n,
{
    if n == 0 || b < 2 {
        Seq::empty()
    } else {
        proof {
            lemma_div_shrinks(n, b);
        }
        seq![n % b].add(base_digits(n / b, b))
    }
}

pub proof fn lemma_div_shrinks(n: nat, b: nat)
    requires
        n > 0,
        b >= 2,
    ensures
        n / b < n,
{
    assert(n / b < n) by (nonlinear_arith)
        requires
            n > 0,
            b >= 2,
    ;
}

/// Spells digits with the keys of an alphabet.
pub open spec fn spell(keys: Seq<char>, digits: Seq<nat>) -> Seq<char> {
    digits.map_values(|d: nat| keys[d as int])
}

/// `n` copies of the alphabet's first key.
pub open spec fn padding(keys: Seq<char>, n: int) -> Seq<char> {
    Seq::new(if n > 0 { n as nat } else { 0 }, |j: int| keys[0])
}

/// Label of the `i`-th hint over `keys`, as `HintKeys::label_for_index` builds it.
pub open spec fn label_spec(keys: Seq<char>, i: nat, digits: Option<u32>) -> Seq<char> {
    if i == 0 && digits is None {
        seq![keys[0]]
    } else {
        let natural = spell(keys, base_digits(i, keys.len()));
        let width: int = match digits {
            Some(d) => d as int,
            None => 0,
        };
        natural + padding(keys, width - natural.len())
    }
}

/// Shortest label width for `len` hints over an alphabet of `b` keys.
pub open spec fn digits_for_len_spec(len: nat, b: nat) -> nat {
    if len <= 1 {
        1
    } else {
        base_digits((len - 1) as nat, b).len()
    }
}

/// Bitmap of the ASCII characters in a sequence.
pub open spec fn ascii_bits(s: Seq<char>) -> u128
    decreases s.len(),
{
    if s.len() == 0 {
        0
    } else {
        ascii_bits(s.drop_last()) | ascii_bit_spec(s.last())
    }
}

pub open spec fn ascii_bit_spec(c: char) -> u128 {
    if (c as u32) < 128 {
        1u128 << (c as u32)
    } else {
        0
    }
}

/// The characters `is_typable_hint_char` accepts, as text.
pub const TYPABLE_HINT_CHARS: &'static str = "ABCDEFGHIJKLMNOPQRSTUVWXYZ0123456789`-=[]\\;',.";

/// [`is_typable_hint_char`] as a bitmap indexed by ASCII code.
pub const TYPABLE_HINT_MASK: u128 = 0x13ffffffe2bff708000000000u128;

/// Bit for `c` in a 128-bit bitmap indexed by ASCII code; `0` when `c` is not
/// ASCII.
pub fn ascii_bit(c: char) -> (r: u128)
    ensures
        r == ascii_bit_spec(c),
{
    let code: u32 = c as u32;
    if code < 128 {
        1u128 << code
    } else {
        0
    }
}

proof fn lemma_mask_bits(k: u128)
    by (bit_vector)
    requires
        k < 128,
    ensures
        ((1u128 << k) & 0x13ffffffe2bff708000000000u128 != 0) <==> (
            (65 <= k && k <= 90) || (48 <= k && k <= 57) || k == 96 || k == 45 || k == 61
                || k == 91 || k == 93 || k == 92 || k == 59 || k == 39 || k == 44 || k == 46),
{
}

proof fn lemma_bit_or(x: u128, j: u128, k: u128)
    by (bit_vector)
    requires
        j < 128,
        k < 128,
    ensures
        ((x | (1u128 << j)) & (1u128 << k) != 0) <==> ((x & (1u128 << k)) != 0 || j == k),
{
}

proof fn lemma_bit_zero(k: u128)
    by (bit_vector)
    requires
        k < 128,
    ensures
        (0u128 & (1u128 << k)) == 0,
        (1u128 << k) != 0,
{
}

/// The mask selects exactly the typable characters.
proof fn lemma_typable_mask(c: char)
    ensures
        (ascii_bit_spec(c) & TYPABLE_HINT_MASK != 0) <==> is_typable_hint_char(c),
{
    let k = c as u32;
    if k < 128 {
        lemma_mask_bits(k as u128);
        assert(ascii_bit_spec(c) == 1u128 << (k as u128));
    } else {
        assert((0u128 & 0x13ffffffe2bff708000000000u128) == 0) by (bit_vector);
    }
}

/// For a sequence of ASCII characters, the bitmap records membership.
proof fn lemma_ascii_bits_member(s: Seq<char>, c: char)
    requires
        (c as u32) < 128,
        forall|i: int| 0 <= i < s.len() ==> (#[trigger] s[i] as u32) < 128,
    ensures
        (ascii_bits(s) & ascii_bit_spec(c) != 0) <==> s.contains(c),
    decreases s.len(),
{
    let k = c as u32;
    if s.len() == 0 {
        lemma_bit_zero(k as u128);
        assert(ascii_bit_spec(c) == 1u128 << (k as u128));
    } else {
        let p = s.drop_last();
        let l = s.last();
        assert(l == s[s.len() - 1]);
        assert forall|i: int| 0 <= i < p.len() implies (#[trigger] p[i] as u32) < 128 by {
            assert(p[i] == s[i]);
        }
        lemma_ascii_bits_member(p, c);
        let j = l as u32;
        assert(j < 128);
        lemma_bit_or(ascii_bits(p), j as u128, k as u128);
        assert(ascii_bit_spec(c) == 1u128 << (k as u128));
        assert(ascii_bit_spec(l) == 1u128 << (j as u128));
        assert(ascii_bits(s) == ascii_bits(p) | ascii_bit_spec(l));
        assert((ascii_bits(s) & ascii_bit_spec(c) != 0) <==> ((ascii_bits(p) & ascii_bit_spec(c))
            != 0 || j == k));
        lemma_char_code(l, c);
        assert((j == k) <==> (l == c));
        assert(s =~= p.push(l));
        if s.contains(c) {
            let i = choose|i: int| 0 <= i < s.len() && s[i] == c;
            if i < s.len() - 1 {
                assert(p[i] == c);
            }
        }
        if p.contains(c) {
            let i = choose|i: int| 0 <= i < p.len() && p[i] == c;
            assert(s[i] == c);
        }
    }
}

/// What `sanitize` keeps is a hint alphabet except maybe for its length.
pub proof fn lemma_sanitize_shape(raw: Seq<char>)
    ensures
        sanitize(raw).no_duplicates(),
        forall|i: int| 0 <= i < sanitize(raw).len() ==> is_typable_hint_char(#[trigger] sanitize(raw)[i]),
        sanitize(raw).len() <= raw.len(),
    decreases raw.len(),
{
    if raw.len() > 0 {
        lemma_sanitize_shape(raw.drop_last());
        let kept = sanitize(raw.drop_last());
        let c = ascii_upper(raw.last());
        if is_typable_hint_char(c) && !kept.contains(c) {
            assert forall|i: int, j: int| 0 <= i < j < kept.push(c).len() implies kept.push(c)[i]
                != kept.push(c)[j] by {
                if j == kept.len() {
                    assert(kept[i] == kept.push(c)[i]);
                }
            }
            assert forall|i: int| 0 <= i < kept.push(c).len() implies is_typable_hint_char(
                #[trigger] kept.push(c)[i],
            ) by {
                if i < kept.len() {
                    assert(kept.push(c)[i] == kept[i]);
                }
            }
        }
    }
}

/// A character is kept exactly when some raw character upper-cases to it and
/// it is typable.
pub proof fn lemma_sanitize_members(raw: Seq<char>, c: char)
    ensures
        sanitize(raw).contains(c) <==> (is_typable_hint_char(c) && exists|i: int|
            0 <= i < raw.len() && ascii_upper(#[trigger] raw[i]) == c),
    decreases raw.len(),
{
    if raw.len() > 0 {
        let p = raw.drop_last();
        lemma_sanitize_members(p, c);
        let kept = sanitize(p);
        let l = ascii_upper(raw.last());
        lemma_sanitize_shape(p);
        if sanitize(raw).contains(c) {
            if is_typable_hint_char(l) && !kept.contains(l) {
                let k = choose|k: int| 0 <= k < kept.push(l).len() && kept.push(l)[k] == c;
                if k < kept.len() {
                    assert(kept[k] == c);
                    let i = choose|i: int| 0 <= i < p.len() && ascii_upper(#[trigger] p[i]) == c;
                    assert(raw[i] == p[i]);
                } else {
                    assert(ascii_upper(raw[raw.len() - 1]) == c);
                }
            } else {
                let i = choose|i: int| 0 <= i < p.len() && ascii_upper(#[trigger] p[i]) == c;
                assert(raw[i] == p[i]);
            }
        }
        if is_typable_hint_char(c) && exists|i: int|
            0 <= i < raw.len() && ascii_upper(#[trigger] raw[i]) == c {
            let i = choose|i: int| 0 <= i < raw.len() && ascii_upper(#[trigger] raw[i]) == c;
            if i < raw.len() - 1 {
                assert(p[i] == raw[i]);
                assert(kept.contains(c));
                if is_typable_hint_char(l) && !kept.contains(l) {
                    let k = choose|k: int| 0 <= k < kept.len() && kept[k] == c;
                    assert(kept.push(l)[k] == c);
                }
            } else {
                if !kept.contains(c) {
                    assert(kept.push(l)[kept.len() as int] == c);
                }
            }
        }
    }
}

proof fn lemma_default_alphabet()
    ensures
        is_hint_alphabet(default_alphabet()),
        sanitize(default_alphabet()) == default_alphabet(),
{
    let d = default_alphabet();
    assert forall|i: int| 0 <= i < d.len() implies is_typable_hint_char(#[trigger] d[i]) by {}
    assert(d.no_duplicates());
    lemma_sanitize_fixed(d);
}

/// A hint alphabet is left unchanged by sanitizing.
proof fn lemma_sanitize_fixed(keys: Seq<char>)
    requires
        keys.no_duplicates(),
        forall|i: int| 0 <= i < keys.len() ==> is_typable_hint_char(#[trigger] keys[i]),
    ensures
        sanitize(keys) == keys,
    decreases keys.len(),
{
    if keys.len() > 0 {
        let p = keys.drop_last();
        assert forall|i: int| 0 <= i < p.len() implies is_typable_hint_char(#[trigger] p[i]) by {
            assert(p[i] == keys[i]);
        }
        assert(p.no_duplicates()) by {
            assert forall|i: int, j: int| 0 <= i < j < p.len() implies p[i] != p[j] by {
                assert(p[i] == keys[i] && p[j] == keys[j]);
            }
        }
        lemma_sanitize_fixed(p);
        let l = keys.last();
        assert(is_typable_hint_char(keys[keys.len() - 1]));
        assert(ascii_upper(l) == l);
        if p.contains(l) {
            let i = choose|i: int| 0 <= i < p.len() && p[i] == l;
            assert(keys[i] == keys[keys.len() - 1]);
        }
        assert(keys =~= p.push(l));
    }
}

/// Normalizing yields a hint alphabet, and normalizing again changes nothing.
pub proof fn law_normalize_idempotent(raw: Seq<char>)
    ensures
        is_hint_alphabet(normalize(raw)),
        normalize(normalize(raw)) == normalize(raw),
{
    lemma_default_alphabet();
    lemma_sanitize_shape(raw);
    if sanitize(raw).len() >= 2 {
        lemma_sanitize_fixed(sanitize(raw));
    }
}

proof fn lemma_base_digits_len(n: nat, b: nat)
    requires
        b >= 2,
    ensures
        base_digits(n, b).len() <= n,
        forall|k: int| 0 <= k < base_digits(n, b).len() ==> #[trigger] base_digits(n, b)[k] < b,
    decreases n,
{
    if n > 0 {
        lemma_div_shrinks(n, b);
        lemma_base_digits_len(n / b, b);
        let t = base_digits(n / b, b);
        assert(base_digits(n, b) == seq![n % b].add(t));
        assert forall|k: int| 0 <= k < base_digits(n, b).len() implies #[trigger] base_digits(n, b)[k] < b by {
            if k > 0 {
                assert(base_digits(n, b)[k] == t[k - 1]);
            }
        }
    }
}

/// Numbers below `2^k` have at most `k` digits in any base of at least two.
proof fn lemma_base_digits_pow2(n: nat, b: nat, k: nat)
    requires
        b >= 2,
        n < pow2(k),
    ensures
        base_digits(n, b).len() <= k,
    decreases n,
{
    if n > 0 {
        if k == 0 {
            vstd::arithmetic::power2::lemma2_to64();
        } else {
            vstd::arithmetic::power2::lemma_pow2_unfold(k);
            assert(n / b <= n / 2) by {
                vstd::arithmetic::div_mod::lemma_div_is_ordered_by_denominator(n as int, 2, b as int);
            }
            assert(n / 2 < pow2((k - 1) as nat));
            lemma_base_digits_pow2(n / b, b, (k - 1) as nat);
        }
    }
}

proof fn lemma_usize_digits(n: usize, b: nat)
    requires
        b >= 2,
    ensures
        base_digits(n as nat, b).len() <= 64,
{
    vstd::arithmetic::power2::lemma2_to64_rest();
    lemma_base_digits_pow2(n as nat, b, 64);
}

/// `b` to the `e`.
pub open spec fn power(b: nat, e: nat) -> nat
    decreases e,
{
    if e == 0 {
        1
    } else {
        b * power(b, (e - 1) as nat)
    }
}

/// Value of little-endian base-`b` digits.
pub open spec fn digits_value(ds: Seq<nat>, b: nat) -> nat
    decreases ds.len(),
{
    if ds.len() == 0 {
        0
    } else {
        ds[0] + b * digits_value(ds.drop_first(), b)
    }
}

/// `n` zero digits.
pub open spec fn zero_digits(n: int) -> Seq<nat> {
    Seq::new(if n > 0 { n as nat } else { 0 }, |j: int| 0nat)
}

proof fn lemma_div_mod_parts(n: nat, b: nat)
    requires
        b >= 2,
    ensures
        n == b * (n / b) + n % b,
        n % b < b,
{
    vstd::arithmetic::div_mod::lemma_fundamental_div_mod(n as int, b as int);
}

proof fn lemma_base_digits_unfold(n: nat, b: nat)
    requires
        n > 0,
        b >= 2,
    ensures
        base_digits(n, b) == seq![n % b].add(base_digits(n / b, b)),
        base_digits(n, b).len() == 1 + base_digits(n / b, b).len(),
        base_digits(n, b).drop_first() == base_digits(n / b, b),
        base_digits(n, b)[0] == n % b,
{
    assert(seq![n % b].add(base_digits(n / b, b)).drop_first() =~= base_digits(n / b, b));
}

/// Digits evaluate back to their number.
proof fn lemma_digits_value(n: nat, b: nat)
    requires
        b >= 2,
    ensures
        digits_value(base_digits(n, b), b) == n,
    decreases n,
{
    if n > 0 {
        lemma_div_shrinks(n, b);
        lemma_base_digits_unfold(n, b);
        lemma_digits_value(n / b, b);
        lemma_div_mod_parts(n, b);
    }
}

proof fn lemma_zero_value(k: int, b: nat)
    ensures
        digits_value(zero_digits(k), b) == 0,
    decreases k,
{
    if k > 0 {
        assert(zero_digits(k).drop_first() =~= zero_digits(k - 1));
        lemma_zero_value(k - 1, b);
        assert(zero_digits(k)[0] == 0);
        assert(b * digits_value(zero_digits(k - 1), b) == 0) by (nonlinear_arith)
            requires
                digits_value(zero_digits(k - 1), b) == 0,
        ;
    } else {
        assert(zero_digits(k).len() == 0);
    }
}

/// Zero digits at the most significant end do not change the value.
proof fn lemma_padded_value(ds: Seq<nat>, k: int, b: nat)
    ensures
        digits_value(ds + zero_digits(k), b) == digits_value(ds, b),
    decreases ds.len(),
{
    if ds.len() == 0 {
        assert(ds + zero_digits(k) =~= zero_digits(k));
        lemma_zero_value(k, b);
    } else {
        assert((ds + zero_digits(k)).drop_first() =~= ds.drop_first() + zero_digits(k));
        lemma_padded_value(ds.drop_first(), k, b);
    }
}

/// A number below `b^k` has at most `k` digits.
proof fn lemma_digits_bound(n: nat, b: nat, k: nat)
    requires
        b >= 2,
        n < power(b, k),
    ensures
        base_digits(n, b).len() <= k,
    decreases n,
{
    if n > 0 {
        lemma_div_shrinks(n, b);
        lemma_base_digits_unfold(n, b);
        assert(k > 0);
        let p = power(b, (k - 1) as nat);
        assert(n / b < p) by (nonlinear_arith)
            requires
                n < b * p,
                b >= 2,
        ;
        lemma_digits_bound(n / b, b, (k - 1) as nat);
    }
}

/// `n` lies between the powers of `b` its digit count names.
proof fn lemma_digits_tight(n: nat, b: nat)
    requires
        b >= 2,
    ensures
        n < power(b, base_digits(n, b).len()),
        n > 0 ==> power(b, (base_digits(n, b).len() - 1) as nat) <= n,
    decreases n,
{
    if n > 0 {
        lemma_div_shrinks(n, b);
        lemma_base_digits_unfold(n, b);
        lemma_digits_tight(n / b, b);
        lemma_div_mod_parts(n, b);
        let m = base_digits(n / b, b).len();
        let q = n / b;
        let r = n % b;
        let p = power(b, m);
        assert(n < b * p) by (nonlinear_arith)
            requires
                q < p,
                n == b * q + r,
                r < b,
        ;
        if q > 0 {
            let p1 = power(b, (m - 1) as nat);
            assert(b * p1 <= n) by (nonlinear_arith)
                requires
                    p1 <= q,
                    n == b * q + r,
                    b >= 2,
            ;
        }
    }
}

/// Every label of a padded batch spells its index's digits, zero-padded.
proof fn lemma_label_digits(keys: Seq<char>, i: nat, d: nat)
    requires
        is_hint_alphabet(keys),
        d >= 1,
        d <= u32::MAX,
        i < power(keys.len(), d),
    ensures
        label_spec(keys, i, Some(d as u32)) == spell(
            keys,
            base_digits(i, keys.len()) + zero_digits(d - base_digits(i, keys.len()).len()),
        ),
        base_digits(i, keys.len()).len() <= d,
{
    let b = keys.len();
    lemma_digits_bound(i, b, d);
    let ds = base_digits(i, b);
    assert(label_spec(keys, i, Some(d as u32)) =~= spell(keys, ds + zero_digits(d - ds.len())));
}

/// Hint labels of one batch: each spells its index in exactly `d` keys of
/// the alphabet, and different indices get different labels, so that no
/// label is a prefix of another.
pub proof fn law_batch_labels(keys: Seq<char>, len: nat, i: nat, j: nat)
    requires
        is_hint_alphabet(keys),
        len <= usize::MAX,
        i < len,
        j < len,
    ensures
        ({
            let d = digits_for_len_spec(len, keys.len());
            &&& label_spec(keys, i, Some(d as u32)).len() == d
            &&& forall|k: int|
                0 <= k < d ==> keys.contains(#[trigger] label_spec(keys, i, Some(d as u32))[k])
            &&& i != j ==> label_spec(keys, i, Some(d as u32)) != label_spec(
                keys,
                j,
                Some(d as u32),
            )
        }),
{
    let b = keys.len();
    let d = digits_for_len_spec(len, b);
    law_digits_for_len(len, b);
    lemma_label_shape(keys, i, d);
    lemma_label_shape(keys, j, d);
    if i != j {
        let pi = base_digits(i, b) + zero_digits(d - base_digits(i, b).len());
        let pj = base_digits(j, b) + zero_digits(d - base_digits(j, b).len());
        if label_spec(keys, i, Some(d as u32)) == label_spec(keys, j, Some(d as u32)) {
            assert forall|k: int| 0 <= k < d implies pi[k] == pj[k] by {
                assert(spell(keys, pi)[k] == spell(keys, pj)[k]);
                assert(keys[pi[k] as int] == keys[pj[k] as int]);
            }
            assert(pi =~= pj);
            lemma_padded_value(base_digits(i, b), d - base_digits(i, b).len(), b);
            lemma_padded_value(base_digits(j, b), d - base_digits(j, b).len(), b);
            lemma_digits_value(i, b);
            lemma_digits_value(j, b);
        }
    }
}

/// Shape of one padded label: `d` keys, each an alphabet key, spelling the
/// zero-padded digits with every digit below the base.
proof fn lemma_label_shape(keys: Seq<char>, i: nat, d: nat)
    requires
        is_hint_alphabet(keys),
        d >= 1,
        d <= u32::MAX,
        i < power(keys.len(), d),
    ensures
        ({
            let b = keys.len();
            let pd = base_digits(i, b) + zero_digits(d - base_digits(i, b).len());
            &&& pd.len() == d
            &&& forall|k: int| 0 <= k < d ==> #[trigger] pd[k] < b
            &&& label_spec(keys, i, Some(d as u32)) == spell(keys, pd)
            &&& label_spec(keys, i, Some(d as u32)).len() == d
            &&& forall|k: int|
                0 <= k < d ==> keys.contains(#[trigger] label_spec(keys, i, Some(d as u32))[k])
        }),
{
    let b = keys.len();
    lemma_label_digits(keys, i, d);
    lemma_base_digits_len(i, b);
    let ds = base_digits(i, b);
    let pd = ds + zero_digits(d - ds.len());
    assert forall|k: int| 0 <= k < d implies #[trigger] pd[k] < b by {
        if k < ds.len() {
            assert(pd[k] == ds[k]);
        }
    }
    assert forall|k: int| 0 <= k < d implies keys.contains(
        #[trigger] label_spec(keys, i, Some(d as u32))[k],
    ) by {
        assert(label_spec(keys, i, Some(d as u32))[k] == keys[pd[k] as int]);
    }
}

/// The width `digits_for_len` picks is the shortest one that addresses
/// `len` hints: `len <= b^d`, and one key fewer would not do.
pub proof fn law_digits_for_len(len: nat, b: nat)
    requires
        b >= 2,
    ensures
        ({
            let d = digits_for_len_spec(len, b);
            &&& d >= 1
            &&& len <= power(b, d)
            &&& d == 1 || power(b, (d - 1) as nat) < len
            &&& len <= usize::MAX ==> d <= 64
        }),
{
    let d = digits_for_len_spec(len, b);
    if len >= 2 {
        let n = (len - 1) as nat;
        lemma_digits_tight(n, b);
        lemma_base_digits_unfold(n, b);
        assert(d == base_digits(n, b).len());
        assert(d >= 1);
        assert(n < power(b, d));
        assert(power(b, (d - 1) as nat) <= n);
        if len <= usize::MAX {
            lemma_usize_digits(n as usize, b);
        }
    } else {
        assert(power(b, 0) == 1);
        assert(power(b, 1) == b * power(b, 0));
        assert(d == 1);
    }
}

/// The alphabet hint labels are spelled in: upper-case, de-duplicated and
/// restricted to keys that can be typed, with at least two of them.
#[derive(Debug, PartialEq, Eq)]
pub struct HintKeys(String);

impl View for HintKeys {
    type V = Seq<char>;

    closed spec fn view(&self) -> Seq<char> {
        self.0@
    }
}

impl HintKeys {
    /// The historical alphabet, plain upper-case ASCII letters.
    pub const DEFAULT_ALPHABET: &'static str = "ABCDEFGHIJKLMNOPQRSTUVWXYZ";

    /// Below this many distinct keys hints cannot be told apart.
    pub const MIN_LEN: usize = 2;

    #[verifier::type_invariant]
    closed spec fn well_formed(self) -> bool {
        is_hint_alphabet(self.0@)
    }

    /// Normalizes a configured alphabet; one with fewer than two usable keys is
    /// replaced by the default.
    pub fn new(raw: &str) -> (r: Self)
        ensures
            r@ == normalize(raw@),
            is_hint_alphabet(r@),
    {
        let mut seen: u128 = 0;
        let mut sanitized = String::new();
        let input = chars_of(raw);
        let mut idx: usize = 0;
        while idx < input.len()
            invariant
                input@ == raw@,
                idx <= input@.len(),
                sanitized@ == sanitize(input@.take(idx as int)),
                seen == ascii_bits(sanitized@),
            decreases input@.len() - idx,
        {
            let c = input[idx];
            let ghost prev = sanitized@;
            let ghost pre = input@.take(idx as int);
            proof {
                lemma_sanitize_shape(pre);
            }
            let c = upper_ascii_char(c);
            let bit = ascii_bit(c) & TYPABLE_HINT_MASK;
            proof {
                lemma_typable_mask(c);
                assert(ascii_bit_spec(c) & TYPABLE_HINT_MASK == bit);
            }
            if bit != 0 {
                proof {
                    assert(is_typable_hint_char(c));
                    assert forall|i: int| 0 <= i < prev.len() implies (#[trigger] prev[i] as u32)
                        < 128 by {
                        assert(is_typable_hint_char(prev[i]));
                    }
                    lemma_ascii_bits_member(prev, c);
                    let k = c as u32;
                    assert(ascii_bit_spec(c) == 1u128 << (k as u128));
                    let ab = ascii_bit_spec(c);
                    assert(bit == ab) by (bit_vector)
                        requires
                            bit == (ab & 0x13ffffffe2bff708000000000u128),
                            bit != 0,
                            ab == 1u128 << (k as u128),
                            k < 128;
                }
                if seen & bit == 0 {
                    seen = seen | bit;
                    sanitized.push(c);
                    assert(sanitized@.drop_last() =~= prev);
                }
            }
            proof {
                let next = input@.take(idx + 1);
                assert(next.drop_last() =~= pre);
                assert(next.last() == input@[idx as int]);
            }
            idx = idx + 1;
        }
        proof {
            assert(input@.take(idx as int) =~= raw@);
            lemma_sanitize_shape(raw@);
            law_normalize_idempotent(raw@);
        }
        if sanitized.as_str().unicode_len() < Self::MIN_LEN {
            return Self::default();
        }
        HintKeys(sanitized)
    }

    /// The alphabet, in order.
    pub fn as_str(&self) -> (r: &str)
        ensures
            r@ == self@,
    {
        self.0.as_str()
    }

    /// Radix of the hint labels, how many distinct keys there are.
    pub fn base(&self) -> (r: usize)
        ensures
            r == self@.len(),
    {
        self.0.as_str().unicode_len()
    }

    /// The key every padded label is filled with, also the first hint's label.
    pub fn first(&self) -> (r: char)
        ensures
            r == self@[0],
    {
        proof {
            use_type_invariant(self);
        }
        self.0.as_str().get_char(0)
    }

    /// Label of the `i`-th hint: as short as possible without `digits`, padded
    /// to `digits` keys with it.
    pub fn label_for_index(&self, i: usize, digits: Option<u32>) -> (r: String)
        ensures
            r@ == label_spec(self@, i as nat, digits),
    {
        proof {
            use_type_invariant(self);
        }
        let keys = self.0.as_str();
        let base = keys.unicode_len();
        let ghost b = base as nat;
        if i == 0 && digits.is_none() {
            let mut label = String::new();
            label.push(keys.get_char(0));
            assert(label@ =~= seq![self@[0]]);
            return label;
        }
        proof {
            lemma_base_digits_len(i as nat, b);
        }
        let mut label = String::new();
        let mut written: usize = 0;
        let mut n = i;
        while n > 0
            invariant
                b >= 2,
                b == base,
                b == keys@.len(),
                keys@ == self@,
                written == label@.len(),
                written + base_digits(n as nat, b).len() == base_digits(i as nat, b).len(),
                base_digits(i as nat, b).len() <= i,
                label@ + spell(keys@, base_digits(n as nat, b)) == spell(
                    keys@,
                    base_digits(i as nat, b),
                ),
            decreases n,
        {
            let ghost rest = base_digits((n / base) as nat, b);
            let ghost d = (n % base) as nat;
            let ghost old_label = label@;
            assert(base_digits(n as nat, b) == seq![d].add(rest));
            let key = keys.get_char(n % base);
            assert(spell(keys@, seq![d].add(rest)) =~= seq![key] + spell(keys@, rest));
            label.push(key);
            written = written + 1;
            n = n / base;
            assert(label@ + spell(keys@, rest) =~= old_label + (seq![key] + spell(keys@, rest)));
        }
        let width: usize = match digits {
            Some(d) => d as usize,
            None => 0,
        };
        let ghost natural = label@;
        assert(base_digits(0, b) =~= Seq::<nat>::empty());
        assert(natural =~= spell(keys@, base_digits(i as nat, b)));
        while written < width
            invariant
                written == label@.len(),
                written >= natural.len(),
                written == natural.len() || written <= width,
                keys@ == self@,
                keys@.len() >= 2,
                label@ =~= natural + padding(keys@, written - natural.len()),
            decreases width - written,
        {
            label.push(keys.get_char(0));
            written = written + 1;
            assert(label@ =~= natural + padding(keys@, written - natural.len()));
        }
        assert(label@ =~= natural + padding(keys@, width - natural.len()));
        label
    }

    /// Shortest label width that tells `len` hints apart.
    pub fn digits_for_len(&self, len: usize) -> (r: u32)
        ensures
            r == digits_for_len_spec(len as nat, self@.len()),
    {
        proof {
            use_type_invariant(self);
        }
        if len <= 1 {
            return 1;
        }
        let base = self.base();
        let ghost b = base as nat;
        proof {
            lemma_usize_digits((len - 1) as usize, b);
        }
        let mut n = len - 1;
        let mut count: u32 = 0;
        while n > 0
            invariant
                b >= 2,
                b == base,
                count + base_digits(n as nat, b).len() == base_digits((len - 1) as nat, b).len(),
                base_digits((len - 1) as nat, b).len() <= 64,
            decreases n,
        {
            assert(base_digits(n as nat, b) == seq![(n % base) as nat].add(
                base_digits((n / base) as nat, b),
            ));
            n = n / base;
            count = count + 1;
        }
        count
    }
}

/// The labels of a batch of `len` hints, all of one width, with that width;
/// no width and no labels for an empty batch.
pub fn hint_labels(keys: &HintKeys, len: usize) -> (r: (u32, Vec<String>))
    ensures
        len == 0 ==> r.0 == 0 && r.1@.len() == 0,
        len > 0 ==> r.0 == digits_for_len_spec(len as nat, keys@.len()),
        r.1@.len() == len,
        forall|i: int| 0 <= i < len ==> #[trigger] r.1@[i]@ == label_spec(keys@, i as nat, Some(r.0)),
{
    if len == 0 {
        return (0, Vec::new());
    }
    let digits = keys.digits_for_len(len);
    let mut labels: Vec<String> = Vec::new();
    let mut i: usize = 0;
    while i < len
        invariant
            i <= len,
            labels@.len() == i,
            forall|k: int| 0 <= k < i ==> #[trigger] labels@[k]@ == label_spec(keys@, k as nat, Some(digits)),
        decreases len - i,
    {
        labels.push(keys.label_for_index(i, Some(digits)));
        i = i + 1;
    }
    (digits, labels)
}

impl Clone for HintKeys {
    fn clone(&self) -> (r: Self)
        ensures
            r@ == self@,
    {
        proof {
            use_type_invariant(self);
        }
        HintKeys(self.0.clone())
    }
}

impl Default for HintKeys {
    fn default() -> (r: Self)
        ensures
            r@ == default_alphabet(),
            is_hint_alphabet(r@),
    {
        proof {
            lemma_default_alphabet();
        }
        let s = String::from_str(Self::DEFAULT_ALPHABET);
        proof {
            reveal_strlit("ABCDEFGHIJKLMNOPQRSTUVWXYZ");
            assert(s@ =~= default_alphabet());
        }
        HintKeys(s)
    }
}

} // verus!
