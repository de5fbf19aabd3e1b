//! Small text builders shared by the rest of the crate: lowercase hexadecimal and
//! string concatenation over `String` views.

use vstd::prelude::*;

verus! {

/// The lowercase hexadecimal digit for a value below 16.
pub open spec fn hex_char(d: int) -> char {
    if d < 10 {
        (d + 48) as char
    } else {
        (d + 87) as char
    }
}

/// The `n` lowest hexadecimal digits of `v`, most significant first, zero padded.
pub open spec fn hex_fixed(v: nat, n: nat) -> Seq<char>
    decreases n,
{
    if n == 0 {
        Seq::empty()
    } else {
        hex_fixed(v / 16, (n - 1) as nat).push(hex_char((v % 16) as int))
    }
}

/// Lowercase hexadecimal encoding of a byte sequence, two digits per byte.
pub open spec fn hex_lower(bytes: Seq<u8>) -> Seq<char>
    decreases bytes.len(),
{
    if bytes.len() == 0 {
        Seq::empty()
    } else {
        hex_lower(bytes.drop_last()) + hex_fixed(bytes.last() as nat, 2)
    }
}

/// Whether `c` is a lowercase hexadecimal digit: `0`-`9` or `a`-`f`.
pub open spec fn is_lower_hex_digit(c: char) -> bool {
    ('0' <= c && c <= '9') || ('a' <= c && c <= 'f')
}

/// `hex_fixed(v, n)` is `n` lowercase hex digits.
pub proof fn lemma_hex_fixed_shape(v: nat, n: nat)
    ensures
        hex_fixed(v, n).len() == n,
        forall|i: int| 0 <= i < n ==> is_lower_hex_digit(#[trigger] hex_fixed(v, n)[i]),
    decreases n,
{
    if n > 0 {
        lemma_hex_fixed_shape(v / 16, (n - 1) as nat);
        let d = (v % 16) as int;
        assert(is_lower_hex_digit(hex_char(d)));
        assert forall|i: int| 0 <= i < n implies is_lower_hex_digit(#[trigger] hex_fixed(v, n)[i]) by {
            if i < n - 1 {
                assert(hex_fixed(v, n)[i] == hex_fixed(v / 16, (n - 1) as nat)[i]);
            }
        }
    }
}

/// The lowercase hex text of `n` bytes is `2n` lowercase hex digits.
pub proof fn lemma_hex_lower_shape(bytes: Seq<u8>)
    ensures
        hex_lower(bytes).len() == 2 * bytes.len(),
        forall|i: int| 0 <= i < hex_lower(bytes).len() ==> is_lower_hex_digit(#[trigger] hex_lower(bytes)[i]),
    decreases bytes.len(),
{
    if bytes.len() > 0 {
        lemma_hex_lower_shape(bytes.drop_last());
        lemma_hex_fixed_shape(bytes.last() as nat, 2);
        let a = hex_lower(bytes.drop_last());
        let b = hex_fixed(bytes.last() as nat, 2);
        assert forall|i: int| 0 <= i < hex_lower(bytes).len() implies is_lower_hex_digit(
            #[trigger] hex_lower(bytes)[i],
        ) by {
            if i < a.len() {
                assert(hex_lower(bytes)[i] == a[i]);
            } else {
                assert(hex_lower(bytes)[i] == b[i - a.len()]);
            }
        }
    }
}

/// The lowercase hex digit of a value below 16 is that place of `0123456789abcdef`.
pub proof fn lemma_hex_char_alphabet(d: int)
    requires
        0 <= d < 16,
    ensures
        hex_char(d) == "0123456789abcdef"@[d],
{
    reveal_strlit("0123456789abcdef");
}

/// `n` hex digits of `v`, most significant first: none for `n == 0`; otherwise the
/// `n - 1` digits of `v / 16` followed by the digit of `v % 16`.
pub proof fn lemma_hex_fixed_digits(v: nat, n: nat)
    ensures
        n == 0 ==> hex_fixed(v, n) == Seq::<char>::empty(),
        n > 0 ==> hex_fixed(v, n) == hex_fixed(v / 16, (n - 1) as nat).push("0123456789abcdef"@[(v % 16) as int]),
{
    if n > 0 {
        lemma_hex_char_alphabet((v % 16) as int);
    }
}

/// Lowercase hex, byte by byte: byte `i` gives characters `2i` and `2i + 1`, the digits
/// of its high and low halves from `0123456789abcdef`.
pub proof fn lemma_hex_lower_digits(bytes: Seq<u8>)
    ensures
        hex_lower(bytes).len() == 2 * bytes.len(),
        forall|i: int|
            0 <= i < bytes.len() ==> hex_lower(bytes)[2 * i] == "0123456789abcdef"@[(#[trigger] bytes[i]) as int / 16]
                && hex_lower(bytes)[2 * i + 1] == "0123456789abcdef"@[bytes[i] as int % 16],
    decreases bytes.len(),
{
    if bytes.len() > 0 {
        let d = bytes.drop_last();
        lemma_hex_lower_digits(d);
        let x = bytes.last();
        lemma_hex_char_alphabet((x / 16) as int);
        lemma_hex_char_alphabet((x % 16) as int);
        let t = hex_fixed(x as nat, 2);
        assert(t == hex_fixed(x as nat / 16, 1).push(hex_char((x as nat % 16) as int)));
        assert(hex_fixed(x as nat / 16, 1) == hex_fixed(x as nat / 16 / 16, 0).push(hex_char((x as nat / 16 % 16) as int)));
        assert((x as nat / 16) % 16 == x / 16);
        assert(t.len() == 2 && t[0] == hex_char((x / 16) as int) && t[1] == hex_char((x % 16) as int));
        let h = hex_lower(bytes);
        assert(h == hex_lower(d) + t);
        assert forall|i: int|
            0 <= i < bytes.len() implies h[2 * i] == "0123456789abcdef"@[(#[trigger] bytes[i]) as int / 16] && h[2 * i + 1]
                == "0123456789abcdef"@[bytes[i] as int % 16] by {
            if i < d.len() {
                assert(d[i] == bytes[i]);
            }
        }
    }
}

/// 16 to the power `n`.
pub open spec fn pow16(n: nat) -> nat
    decreases n,
{
    if n == 0 {
        1
    } else {
        16 * pow16((n - 1) as nat)
    }
}

/// `m + n` hex digits of `v` are the `m` digits of `v / 16^n` followed by the `n`
/// lowest digits of `v`.
pub proof fn lemma_hex_fixed_split(v: nat, m: nat, n: nat)
    ensures
        hex_fixed(v, m + n) == hex_fixed(v / pow16(n), m) + hex_fixed(v, n),
    decreases n,
{
    if n == 0 {
        assert(pow16(0) == 1);
        assert(v / 1 == v);
        assert(m + n == m);
        assert(hex_fixed(v, m + n) =~= hex_fixed(v / pow16(n), m) + hex_fixed(v, n));
    } else {
        lemma_hex_fixed_split(v / 16, m, (n - 1) as nat);
        assert(pow16(n) == 16 * pow16((n - 1) as nat));
        assert(pow16((n - 1) as nat) > 0) by {
            lemma_pow16_positive((n - 1) as nat);
        }
        vstd::arithmetic::div_mod::lemma_div_denominator(v as int, 16, pow16((n - 1) as nat) as int);
        assert(v / 16 / pow16((n - 1) as nat) == v / pow16(n));
        let c = hex_char((v % 16) as int);
        let a = hex_fixed(v / pow16(n), m);
        let b = hex_fixed(v / 16, (n - 1) as nat);
        assert(hex_fixed(v, m + n) == hex_fixed(v / 16, (m + n - 1) as nat).push(c));
        assert((m + n - 1) as nat == m + (n - 1) as nat);
        assert(hex_fixed(v / 16, (m + n - 1) as nat) == a + b);
        assert(hex_fixed(v, n) == b.push(c));
        assert((a + b).push(c) =~= a + b.push(c));
    }
}

proof fn lemma_pow16_positive(n: nat)
    ensures
        pow16(n) > 0,
    decreases n,
{
    if n > 0 {
        lemma_pow16_positive((n - 1) as nat);
    }
}

/// The one-character string holding the hex digit for `d`.
pub fn hex_digit_str(d: u64) -> (s: &'static str)
    requires
        d < 16,
    ensures
        s@ == seq![hex_char(d as int)],
{
    let digits = "0123456789abcdef";
    proof {
        reveal_strlit("0123456789abcdef");
    }
    let s = digits.substring_ascii(d as usize, (d + 1) as usize);
    assert(s@ =~= seq![hex_char(d as int)]);
    s
}

/// Appends the `n` lowest hexadecimal digits of `v` to `out`.
pub fn push_hex_fixed(out: &mut String, v: u128, n: usize)
    ensures
        final(out)@ == old(out)@ + hex_fixed(v as nat, n as nat),
    decreases n,
{
    if n > 0 {
        push_hex_fixed(out, v / 16, n - 1);
        let d = (v % 16) as u64;
        out.append(hex_digit_str(d));
        assert(final(out)@ =~= old(out)@ + hex_fixed(v as nat, n as nat));
    }
}

/// Lowercase hexadecimal text of a byte slice.
pub fn hex_encode(bytes: &[u8]) -> (res: String)
    ensures
        res@ == hex_lower(bytes@),
{
    let mut out = String::new();
    let mut i: usize = 0;
    while i < bytes.len()
        invariant
            i <= bytes@.len(),
            out@ == hex_lower(bytes@.take(i as int)),
        decreases bytes@.len() - i,
    {
        assert(bytes@.take((i + 1) as int).drop_last() =~= bytes@.take(i as int));
        push_hex_fixed(&mut out, bytes[i] as u128, 2);
        i = i + 1;
    }
    assert(bytes@.take(i as int) =~= bytes@);
    out
}

} // verus!
