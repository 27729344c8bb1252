use vstd::prelude::*;
use vstd::string::*;

use crate::error::PaginationError;
use crate::key::KeyTuple;

verus! {

/// The sixteen digits of a cursor token, by value.
pub open spec fn hex_digits() -> Seq<char> {
    seq!['0', '1', '2', '3', '4', '5', '6', '7', '8', '9', 'a', 'b', 'c', 'd', 'e', 'f']
}

/// The `i`-th four-bit group of `n`, most significant first.
pub open spec fn nibble(n: u64, i: int) -> u64 {
    (n >> ((60 - 4 * i) as u64)) & 15u64
}

/// A column value as sixteen lowercase hex digits, most significant first.
pub open spec fn hex_u64(n: u64) -> Seq<char> {
    Seq::new(16, |i: int| hex_digits()[nibble(n, i) as int])
}

/// The token of a key: its columns' hex forms, one after another.
pub open spec fn encode_spec(k: KeyTuple) -> Seq<char> {
    match k {
        KeyTuple::One(a) => hex_u64(a),
        KeyTuple::Two(a, b) => hex_u64(a) + hex_u64(b),
        KeyTuple::Three(a, b, c) => hex_u64(a) + hex_u64(b) + hex_u64(c),
    }
}

/// What decoding a token gives: the key that encodes to it, or a decode error.
pub open spec fn decode_spec(s: Seq<char>) -> Result<KeyTuple, PaginationError> {
    if exists|k: KeyTuple| encode_spec(k) == s {
        Ok(choose|k: KeyTuple| encode_spec(k) == s)
    } else {
        Err(PaginationError::CursorDecodeError)
    }
}

proof fn lemma_hex_digits_distinct(i: int, j: int)
    requires
        0 <= i < 16,
        0 <= j < 16,
        hex_digits()[i] == hex_digits()[j],
    ensures
        i == j,
{
}

proof fn lemma_nibble_bound(n: u64, i: int)
    ensures
        nibble(n, i) < 16,
{
    let s = (60 - 4 * i) as u64;
    assert((n >> s) & 15u64 < 16u64) by (bit_vector);
}

proof fn lemma_nibbles_determine(n: u64, m: u64)
    requires
        (n >> 60u64) & 15u64 == (m >> 60u64) & 15u64,
        (n >> 56u64) & 15u64 == (m >> 56u64) & 15u64,
        (n >> 52u64) & 15u64 == (m >> 52u64) & 15u64,
        (n >> 48u64) & 15u64 == (m >> 48u64) & 15u64,
        (n >> 44u64) & 15u64 == (m >> 44u64) & 15u64,
        (n >> 40u64) & 15u64 == (m >> 40u64) & 15u64,
        (n >> 36u64) & 15u64 == (m >> 36u64) & 15u64,
        (n >> 32u64) & 15u64 == (m >> 32u64) & 15u64,
        (n >> 28u64) & 15u64 == (m >> 28u64) & 15u64,
        (n >> 24u64) & 15u64 == (m >> 24u64) & 15u64,
        (n >> 20u64) & 15u64 == (m >> 20u64) & 15u64,
        (n >> 16u64) & 15u64 == (m >> 16u64) & 15u64,
        (n >> 12u64) & 15u64 == (m >> 12u64) & 15u64,
        (n >> 8u64) & 15u64 == (m >> 8u64) & 15u64,
        (n >> 4u64) & 15u64 == (m >> 4u64) & 15u64,
        (n >> 0u64) & 15u64 == (m >> 0u64) & 15u64,
    ensures
        n == m,
{
    assert(n == m) by (bit_vector)
        requires
        (n >> 60u64) & 15u64 == (m >> 60u64) & 15u64,
        (n >> 56u64) & 15u64 == (m >> 56u64) & 15u64,
        (n >> 52u64) & 15u64 == (m >> 52u64) & 15u64,
        (n >> 48u64) & 15u64 == (m >> 48u64) & 15u64,
        (n >> 44u64) & 15u64 == (m >> 44u64) & 15u64,
        (n >> 40u64) & 15u64 == (m >> 40u64) & 15u64,
        (n >> 36u64) & 15u64 == (m >> 36u64) & 15u64,
        (n >> 32u64) & 15u64 == (m >> 32u64) & 15u64,
        (n >> 28u64) & 15u64 == (m >> 28u64) & 15u64,
        (n >> 24u64) & 15u64 == (m >> 24u64) & 15u64,
        (n >> 20u64) & 15u64 == (m >> 20u64) & 15u64,
        (n >> 16u64) & 15u64 == (m >> 16u64) & 15u64,
        (n >> 12u64) & 15u64 == (m >> 12u64) & 15u64,
        (n >> 8u64) & 15u64 == (m >> 8u64) & 15u64,
        (n >> 4u64) & 15u64 == (m >> 4u64) & 15u64,
        (n >> 0u64) & 15u64 == (m >> 0u64) & 15u64,
    ;
}

/// Two column values with the same hex form are equal.
proof fn lemma_hex_u64_injective(n: u64, m: u64)
    requires
        hex_u64(n) == hex_u64(m),
    ensures
        n == m,
{
    assert forall|i: int| 0 <= i < 16 implies nibble(n, i) == nibble(m, i) by {
        assert(hex_u64(n)[i] == hex_u64(m)[i]);
        assert(hex_u64(n)[i] == hex_digits()[nibble(n, i) as int]);
        assert(hex_u64(m)[i] == hex_digits()[nibble(m, i) as int]);
        lemma_nibble_bound(n, i);
        lemma_nibble_bound(m, i);
        lemma_hex_digits_distinct(nibble(n, i) as int, nibble(m, i) as int);
    }
    assert(nibble(n, 0) == (n >> 60u64) & 15u64 && nibble(m, 0) == (m >> 60u64) & 15u64);
    assert(nibble(n, 1) == (n >> 56u64) & 15u64 && nibble(m, 1) == (m >> 56u64) & 15u64);
    assert(nibble(n, 2) == (n >> 52u64) & 15u64 && nibble(m, 2) == (m >> 52u64) & 15u64);
    assert(nibble(n, 3) == (n >> 48u64) & 15u64 && nibble(m, 3) == (m >> 48u64) & 15u64);
    assert(nibble(n, 4) == (n >> 44u64) & 15u64 && nibble(m, 4) == (m >> 44u64) & 15u64);
    assert(nibble(n, 5) == (n >> 40u64) & 15u64 && nibble(m, 5) == (m >> 40u64) & 15u64);
    assert(nibble(n, 6) == (n >> 36u64) & 15u64 && nibble(m, 6) == (m >> 36u64) & 15u64);
    assert(nibble(n, 7) == (n >> 32u64) & 15u64 && nibble(m, 7) == (m >> 32u64) & 15u64);
    assert(nibble(n, 8) == (n >> 28u64) & 15u64 && nibble(m, 8) == (m >> 28u64) & 15u64);
    assert(nibble(n, 9) == (n >> 24u64) & 15u64 && nibble(m, 9) == (m >> 24u64) & 15u64);
    assert(nibble(n, 10) == (n >> 20u64) & 15u64 && nibble(m, 10) == (m >> 20u64) & 15u64);
    assert(nibble(n, 11) == (n >> 16u64) & 15u64 && nibble(m, 11) == (m >> 16u64) & 15u64);
    assert(nibble(n, 12) == (n >> 12u64) & 15u64 && nibble(m, 12) == (m >> 12u64) & 15u64);
    assert(nibble(n, 13) == (n >> 8u64) & 15u64 && nibble(m, 13) == (m >> 8u64) & 15u64);
    assert(nibble(n, 14) == (n >> 4u64) & 15u64 && nibble(m, 14) == (m >> 4u64) & 15u64);
    assert(nibble(n, 15) == (n >> 0u64) & 15u64 && nibble(m, 15) == (m >> 0u64) & 15u64);
    lemma_nibbles_determine(n, m);
}

/// Distinct keys have distinct tokens.
pub proof fn lemma_encode_injective(k1: KeyTuple, k2: KeyTuple)
    requires
        encode_spec(k1) == encode_spec(k2),
    ensures
        k1 == k2,
{
    let s = encode_spec(k1);
    match (k1, k2) {
        (KeyTuple::One(a), KeyTuple::One(x)) => {
            lemma_hex_u64_injective(a, x);
        },
        (KeyTuple::Two(a, b), KeyTuple::Two(x, y)) => {
            assert(s.subrange(0, 16) =~= hex_u64(a) && s.subrange(0, 16) =~= hex_u64(x));
            assert(s.subrange(16, 32) =~= hex_u64(b) && s.subrange(16, 32) =~= hex_u64(y));
            lemma_hex_u64_injective(a, x);
            lemma_hex_u64_injective(b, y);
        },
        (KeyTuple::Three(a, b, c), KeyTuple::Three(x, y, z)) => {
            assert(s.subrange(0, 16) =~= hex_u64(a) && s.subrange(0, 16) =~= hex_u64(x));
            assert(s.subrange(16, 32) =~= hex_u64(b) && s.subrange(16, 32) =~= hex_u64(y));
            assert(s.subrange(32, 48) =~= hex_u64(c) && s.subrange(32, 48) =~= hex_u64(z));
            lemma_hex_u64_injective(a, x);
            lemma_hex_u64_injective(b, y);
            lemma_hex_u64_injective(c, z);
        },
        _ => {
            assert(encode_spec(k1).len() != encode_spec(k2).len());
        },
    }
}

/// A token is sixteen digits per column, and every character of it is a digit.
proof fn lemma_encode_shape(k: KeyTuple)
    ensures
        encode_spec(k).len() == 16 * k.arity_spec(),
        forall|j: int| 0 <= j < encode_spec(k).len() ==> hex_digits().contains(#[trigger] encode_spec(k)[j]),
{
    let s = encode_spec(k);
    assert forall|j: int| 0 <= j < s.len() implies hex_digits().contains(#[trigger] s[j]) by {
        let v = k.values()[j / 16];
        assert(s[j] == hex_u64(v)[j % 16]);
        lemma_nibble_bound(v, j % 16);
        assert(hex_digits()[nibble(v, j % 16) as int] == s[j]);
    }
}

/// Decoding the token of a key gives that key back.
pub proof fn lemma_cursor_round_trip(k: KeyTuple)
    ensures
        decode_spec(encode_spec(k)) == Ok::<KeyTuple, PaginationError>(k),
{
    let s = encode_spec(k);
    assert(exists|k2: KeyTuple| encode_spec(k2) == s);
    let k2 = choose|k2: KeyTuple| encode_spec(k2) == s;
    lemma_encode_injective(k, k2);
}

proof fn lemma_push_digit(acc: u64, d: u64, i: u64)
    requires
        d < 16,
        i < 16,
        acc < (1u64 << ((4 * i) as u64)),
    ensures
        ((acc << 4u64) | d) & 15u64 == d,
        ((acc << 4u64) | d) >> 4u64 == acc,
        i + 1 < 16 ==> ((acc << 4u64) | d) < (1u64 << ((4 * (i + 1)) as u64)),
{
    assert(((acc << 4u64) | d) & 15u64 == d) by (bit_vector)
        requires
            d < 16,
    ;
    assert(((acc << 4u64) | d) >> 4u64 == acc) by (bit_vector)
        requires
            d < 16,
            i < 16,
            acc < (1u64 << ((4 * i) as u64)),
    ;
    assert(i + 1 < 16 ==> ((acc << 4u64) | d) < (1u64 << ((4 * (i + 1)) as u64))) by (bit_vector)
        requires
            d < 16,
            i < 16,
            acc < (1u64 << ((4 * i) as u64)),
    ;
}

proof fn lemma_shift_compose(x: u64, t: u64)
    requires
        t < 16,
    ensures
        x >> ((4 * (t + 1)) as u64) == (x >> 4u64) >> ((4 * t) as u64),
{
    assert(x >> ((4 * (t + 1)) as u64) == (x >> 4u64) >> ((4 * t) as u64)) by (bit_vector)
        requires
            t < 16,
    ;
}

/// The one-character string of digit `d`.
fn digit_str(d: u64) -> (r: &'static str)
    requires
        d < 16,
    ensures
        r@ == seq![hex_digits()[d as int]],
{
    let digits = "0123456789abcdef";
    proof {
        reveal_strlit("0123456789abcdef");
        assert(digits@ =~= hex_digits());
    }
    let r = digits.substring_char(d as usize, d as usize + 1);
    assert(r@ =~= seq![hex_digits()[d as int]]);
    r
}

/// The value of a digit character, if it is one.
fn digit_of(c: char) -> (r: Option<u64>)
    ensures
        match r {
            Some(d) => d < 16 && hex_digits()[d as int] == c,
            None => !hex_digits().contains(c),
        },
{
    let digits = "0123456789abcdef";
    proof {
        reveal_strlit("0123456789abcdef");
        assert(digits@ =~= hex_digits());
    }
    let mut j: usize = 0;
    while j < 16
        invariant
            j <= 16,
            digits@ == hex_digits(),
            forall|t: int| 0 <= t < j ==> hex_digits()[t] != c,
        decreases 16 - j,
    {
        if digits.get_char(j) == c {
            return Some(j as u64);
        }
        j += 1;
    }
    None
}

/// Appends the hex form of `n` to `out`.
fn push_hex_u64(n: u64, out: &mut String)
    ensures
        final(out)@ == old(out)@ + hex_u64(n),
{
    let ghost start = out@;
    let mut i: u64 = 0;
    while i < 16
        invariant
            i <= 16,
            out@ == start + hex_u64(n).subrange(0, i as int),
        decreases 16 - i,
    {
        let d = (n >> (60 - 4 * i)) & 15;
        proof {
            lemma_nibble_bound(n, i as int);
            assert(d == nibble(n, i as int));
        }
        out.append(digit_str(d));
        assert(hex_u64(n).subrange(0, i + 1) =~= hex_u64(n).subrange(0, i as int).push(
            hex_u64(n)[i as int],
        ));
        i += 1;
    }
    assert(hex_u64(n).subrange(0, 16) =~= hex_u64(n));
}

/// Reads the sixteen digits of `s` from character `start` as a column value.
fn read_hex_u64(s: &str, start: usize) -> (r: Option<u64>)
    requires
        start + 16 <= s@.len(),
        start + 16 <= usize::MAX,
    ensures
        match r {
            Some(n) => hex_u64(n) == s@.subrange(start as int, start + 16),
            None => exists|j: int| start <= j < start + 16 && !hex_digits().contains(s@[j]),
        },
{
    let mut acc: u64 = 0;
    let mut i: usize = 0;
    assert(0u64 < (1u64 << 0u64)) by (bit_vector);
    while i < 16
        invariant
            i <= 16,
            start + 16 <= s@.len(),
            start + 16 <= usize::MAX,
            i < 16 ==> acc < (1u64 << ((4 * i) as u64)),
            forall|j: int|
                0 <= j < i ==> #[trigger] s@[start + j] == hex_digits()[((acc >> ((4 * (i - 1
                    - j)) as u64)) & 15u64) as int],
        decreases 16 - i,
    {
        let c = s.get_char(start + i);
        match digit_of(c) {
            None => {
                return None;
            },
            Some(d) => {
                let ghost old_acc = acc;
                proof {
                    lemma_push_digit(acc, d, i as u64);
                }
                acc = (acc << 4) | d;
                proof {
                    assert forall|j: int| 0 <= j < i + 1 implies #[trigger] s@[start + j]
                        == hex_digits()[((acc >> ((4 * (i + 1 - 1 - j)) as u64)) & 15u64) as int] by {
                        if j < i {
                            lemma_shift_compose(acc, (i - 1 - j) as u64);
                        } else {
                            assert(acc >> ((4 * (i + 1 - 1 - j)) as u64) == acc >> 0u64);
                            assert(acc >> 0u64 == acc) by (bit_vector);
                        }
                    }
                }
            },
        }
        i += 1;
    }
    assert forall|j: int| 0 <= j < 16 implies hex_u64(acc)[j] == s@.subrange(
        start as int,
        start + 16,
    )[j] by {
        assert(s@[start + j] == hex_digits()[((acc >> ((4 * (16 - 1 - j)) as u64)) & 15u64) as int]);
        assert((4 * (16 - 1 - j)) as u64 == (60 - 4 * j) as u64);
    }
    assert(hex_u64(acc) =~= s@.subrange(start as int, start + 16));
    Some(acc)
}

/// The token of a key.
pub fn encode(k: &KeyTuple) -> (r: String)
    ensures
        r@ == encode_spec(*k),
{
    let mut out = String::new();
    match k {
        KeyTuple::One(a) => {
            push_hex_u64(*a, &mut out);
        },
        KeyTuple::Two(a, b) => {
            push_hex_u64(*a, &mut out);
            push_hex_u64(*b, &mut out);
        },
        KeyTuple::Three(a, b, c) => {
            push_hex_u64(*a, &mut out);
            push_hex_u64(*b, &mut out);
            push_hex_u64(*c, &mut out);
        },
    }
    assert(out@ =~= encode_spec(*k));
    out
}

/// The key a token encodes; a token that no key encodes to is a decode error.
pub fn decode(s: &str) -> (r: Result<KeyTuple, PaginationError>)
    ensures
        r == decode_spec(s@),
{
    let len = s.unicode_len();
    if len != 16 && len != 32 && len != 48 {
        proof {
            assert forall|k: KeyTuple| encode_spec(k) != s@ by {
                lemma_encode_shape(k);
            }
        }
        return Err(PaginationError::CursorDecodeError);
    }
    let mut values: Vec<u64> = Vec::new();
    let mut at: usize = 0;
    while at < len
        invariant
            len == s@.len(),
            len == 16 || len == 32 || len == 48,
            at <= len,
            at % 16 == 0,
            values@.len() == at / 16,
            forall|t: int| 0 <= t < values@.len() ==> hex_u64(#[trigger] values@[t]) == s@.subrange(16 * t, 16 * t + 16),
        decreases len - at,
    {
        match read_hex_u64(s, at) {
            None => {
                proof {
                    assert forall|k: KeyTuple| encode_spec(k) != s@ by {
                        lemma_encode_shape(k);
                    }
                }
                return Err(PaginationError::CursorDecodeError);
            },
            Some(v) => {
                values.push(v);
            },
        }
        at += 16;
    }
    let k = if len == 16 {
        KeyTuple::One(values[0])
    } else if len == 32 {
        KeyTuple::Two(values[0], values[1])
    } else {
        KeyTuple::Three(values[0], values[1], values[2])
    };
    proof {
        assert(hex_u64(values@[0]) == s@.subrange(0, 16));
        if len >= 32 {
            assert(hex_u64(values@[1]) == s@.subrange(16, 32));
        }
        if len == 48 {
            assert(hex_u64(values@[2]) == s@.subrange(32, 48));
        }
        assert(encode_spec(k) =~= s@);
        let k2 = choose|k2: KeyTuple| encode_spec(k2) == s@;
        lemma_encode_injective(k, k2);
    }
    Ok(k)
}

} // verus!
