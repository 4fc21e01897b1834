//! The numeric and textual views of an identifier's bytes: the big-endian
//! 64-bit value of a byte sequence, and the lowercase hexadecimal rendering,
//! two digits per byte.

use vstd::arithmetic::div_mod::{
    lemma_fundamental_div_mod, lemma_fundamental_div_mod_converse,
};
use vstd::prelude::*;

verus! {

/// The value of the first `n` bytes of `s`, read as one big-endian unsigned
/// integer.
pub open spec fn be_value(s: Seq<u8>, n: int) -> int
    decreases n,
{
    if n <= 0 {
        0
    } else {
        be_value(s, n - 1) * 256 + s[n - 1]
    }
}

/// `256^n`: the number of byte sequences of length `n`.
pub open spec fn pow256(n: int) -> int
    decreases n,
{
    if n <= 0 {
        1
    } else {
        256 * pow256(n - 1)
    }
}

/// `16^n`: the number of hexadecimal digit sequences of length `n`.
pub open spec fn pow16(n: int) -> int
    decreases n,
{
    if n <= 0 {
        1
    } else {
        16 * pow16(n - 1)
    }
}

/// The big-endian value of `n` bytes lies below `256^n`.
pub proof fn lemma_be_value_bound(s: Seq<u8>, n: int)
    ensures
        0 <= be_value(s, n),
        be_value(s, n) < pow256(n),
    decreases n,
{
    if n > 0 {
        lemma_be_value_bound(s, n - 1);
    }
}

/// The big-endian value reads only the first `n` bytes.
pub proof fn lemma_be_value_prefix(s1: Seq<u8>, s2: Seq<u8>, n: int)
    requires
        forall|i: int| 0 <= i < n ==> s1[i] == s2[i],
    ensures
        be_value(s1, n) == be_value(s2, n),
    decreases n,
{
    if n > 0 {
        lemma_be_value_prefix(s1, s2, n - 1);
    }
}

/// Distinct byte sequences have distinct big-endian values: the first `n`
/// bytes are recovered from the value.
pub proof fn lemma_be_value_injective(s1: Seq<u8>, s2: Seq<u8>, n: int)
    requires
        be_value(s1, n) == be_value(s2, n),
    ensures
        forall|i: int| 0 <= i < n ==> s1[i] == s2[i],
    decreases n,
{
    if n > 0 {
        let v = be_value(s1, n);
        lemma_be_value_bound(s1, n - 1);
        lemma_be_value_bound(s2, n - 1);
        lemma_fundamental_div_mod_converse(v, 256, be_value(s1, n - 1), s1[n - 1] as int);
        lemma_fundamental_div_mod_converse(v, 256, be_value(s2, n - 1), s2[n - 1] as int);
        assert(s1[n - 1] == v % 256 && s2[n - 1] == v % 256);
        assert(be_value(s1, n - 1) == v / 256 && be_value(s2, n - 1) == v / 256);
        lemma_be_value_injective(s1, s2, n - 1);
    }
}

/// `16^n` is positive.
pub proof fn lemma_pow16_pos(n: int)
    ensures
        1 <= pow16(n),
    decreases n,
{
    if n > 0 {
        lemma_pow16_pos(n - 1);
    }
}

/// `16^n` grows with `n`.
pub proof fn lemma_pow16_increases(a: int, b: int)
    requires
        0 <= a <= b,
    ensures
        1 <= pow16(a) <= pow16(b),
    decreases b,
{
    lemma_pow16_pos(a);
    if a < b {
        lemma_pow16_increases(a, b - 1);
    }
}

/// The numeric values of `16^15` and `16^16`: sixteen hexadecimal digits fill
/// a 64-bit integer exactly.
pub proof fn lemma_pow16_values()
    ensures
        pow16(15) == 0x1000000000000000,
        pow16(16) == 0x10000000000000000,
{
    assert(pow16(0) == 1);
    assert(pow16(1) == 16);
    assert(pow16(2) == 0x100);
    assert(pow16(3) == 0x1000);
    assert(pow16(4) == 0x10000);
    assert(pow16(5) == 0x100000);
    assert(pow16(6) == 0x1000000);
    assert(pow16(7) == 0x10000000);
    assert(pow16(8) == 0x100000000);
    assert(pow16(9) == 0x1000000000);
    assert(pow16(10) == 0x10000000000);
    assert(pow16(11) == 0x100000000000);
    assert(pow16(12) == 0x1000000000000);
    assert(pow16(13) == 0x10000000000000);
    assert(pow16(14) == 0x100000000000000);
    assert(pow16(15) == 0x1000000000000000);
    assert(pow16(16) == 0x10000000000000000);
}

/// The first four bytes' big-endian value, written out.
pub proof fn lemma_be_value_4(s: Seq<u8>)
    ensures
        be_value(s, 4) == ((s[0] * 256 + s[1]) * 256 + s[2]) * 256 + s[3],
{
    assert(be_value(s, 0) == 0);
    assert(be_value(s, 1) == s[0]);
    assert(be_value(s, 2) == be_value(s, 1) * 256 + s[1]);
    assert(be_value(s, 3) == be_value(s, 2) * 256 + s[2]);
    assert(be_value(s, 4) == be_value(s, 3) * 256 + s[3]);
}

/// All eight bytes' big-endian value, written out.
pub proof fn lemma_be_value_8(s: Seq<u8>)
    ensures
        be_value(s, 8) == ((((((s[0] * 256 + s[1]) * 256 + s[2]) * 256 + s[3]) * 256 + s[4]) * 256
            + s[5]) * 256 + s[6]) * 256 + s[7],
{
    lemma_be_value_4(s);
    assert(be_value(s, 5) == be_value(s, 4) * 256 + s[4]);
    assert(be_value(s, 6) == be_value(s, 5) * 256 + s[5]);
    assert(be_value(s, 7) == be_value(s, 6) * 256 + s[6]);
    assert(be_value(s, 8) == be_value(s, 7) * 256 + s[7]);
}

/// The numeric value of `256^8`: byte sequences of length eight fill a 64-bit
/// integer exactly.
pub proof fn lemma_pow256_8()
    ensures
        pow256(8) == 0x10000000000000000,
{
    assert(pow256(0) == 1);
    assert(pow256(1) == 0x100);
    assert(pow256(2) == 0x10000);
    assert(pow256(3) == 0x1000000);
    assert(pow256(4) == 0x100000000);
    assert(pow256(5) == 0x10000000000);
    assert(pow256(6) == 0x1000000000000);
    assert(pow256(7) == 0x100000000000000);
    assert(pow256(8) == 0x10000000000000000);
}

/// The eight big-endian bytes of a 64-bit value, most significant first.
pub open spec fn u64_bytes(n: u64) -> Seq<u8> {
    seq![
        (n / 0x100000000000000 % 256) as u8,
        (n / 0x1000000000000 % 256) as u8,
        (n / 0x10000000000 % 256) as u8,
        (n / 0x100000000 % 256) as u8,
        (n / 0x1000000 % 256) as u8,
        (n / 0x10000 % 256) as u8,
        (n / 0x100 % 256) as u8,
        (n % 256) as u8,
    ]
}

/// Splitting a 64-bit value into bytes and reading them back as a big-endian
/// value is the identity, for every value.
pub proof fn lemma_be_of_u64_bytes(n: u64)
    ensures
        be_value(u64_bytes(n), 8) == n,
{
    lemma_be_value_8(u64_bytes(n));
    assert((((((((n / 0x100000000000000 % 256) * 256 + n / 0x1000000000000 % 256) * 256 + n
        / 0x10000000000 % 256) * 256 + n / 0x100000000 % 256) * 256 + n / 0x1000000 % 256) * 256
        + n / 0x10000 % 256) * 256 + n / 0x100 % 256) * 256 + n % 256 == n) by (bit_vector);
}

/// Reading eight bytes as a big-endian value and splitting that value again
/// recovers exactly those bytes.
pub proof fn lemma_u64_bytes_of_be(s: Seq<u8>)
    requires
        s.len() == 8,
    ensures
        u64_bytes(be_value(s, 8) as u64) == s,
{
    lemma_be_value_bound(s, 8);
    lemma_pow256_8();
    let n = be_value(s, 8) as u64;
    lemma_be_of_u64_bytes(n);
    lemma_be_value_injective(u64_bytes(n), s, 8);
    assert(u64_bytes(n) =~= s);
}

/// Rendering eight bytes as hexadecimal and parsing the sixteen digits back
/// yields exactly those bytes: the textual view is lossless.
pub proof fn lemma_hex_round_trip(s1: Seq<u8>, s2: Seq<u8>)
    requires
        s1.len() == 8,
        s2.len() == 8,
        be_value(s2, 8) == parse_hex(hex_chars(s1, 8), 16),
    ensures
        s2 == s1,
{
    lemma_hex_chars_parse(s1, 8);
    lemma_be_value_injective(s1, s2, 8);
    assert(s1 =~= s2);
}

/// The lowercase hexadecimal digit for a value in 0-15.
pub open spec fn hex_char(n: int) -> char {
    if n < 10 {
        ((0x30 + n) as u8) as char
    } else {
        ((0x57 + n) as u8) as char
    }
}

/// The value of a hexadecimal digit, upper or lower case; 16 for any other
/// character.
pub open spec fn hex_val(c: char) -> int {
    let x = c as u32;
    if 0x30 <= x <= 0x39 {
        x - 0x30
    } else if 0x41 <= x <= 0x46 {
        x - 0x37
    } else if 0x61 <= x <= 0x66 {
        x - 0x57
    } else {
        16
    }
}

/// A hexadecimal digit of either case.
pub open spec fn is_hex_digit(c: char) -> bool {
    hex_val(c) < 16
}

/// A digit `0`-`9` or a lowercase letter `a`-`f`.
pub open spec fn is_lower_hex_digit(c: char) -> bool {
    (0x30 <= c as u32 <= 0x39) || (0x61 <= c as u32 <= 0x66)
}

/// The lowercase hexadecimal rendering of the first `n` bytes of `s`: two
/// digits per byte, in byte order.
pub open spec fn hex_chars(s: Seq<u8>, n: int) -> Seq<char>
    decreases n,
{
    if n <= 0 {
        Seq::empty()
    } else {
        hex_chars(s, n - 1) + seq![
            hex_char(s[n - 1] as int / 16),
            hex_char(s[n - 1] as int % 16),
        ]
    }
}

/// The value of the first `n` characters of `s`, read as big-endian
/// hexadecimal digits.
pub open spec fn parse_hex(s: Seq<char>, n: int) -> int
    decreases n,
{
    if n <= 0 {
        0
    } else {
        parse_hex(s, n - 1) * 16 + hex_val(s[n - 1])
    }
}

/// Parsing reads only the first `n` characters.
pub proof fn lemma_parse_hex_prefix(s1: Seq<char>, s2: Seq<char>, n: int)
    requires
        forall|i: int| 0 <= i < n ==> s1[i] == s2[i],
    ensures
        parse_hex(s1, n) == parse_hex(s2, n),
    decreases n,
{
    if n > 0 {
        lemma_parse_hex_prefix(s1, s2, n - 1);
    }
}

/// Rendering `n` bytes as hexadecimal and parsing the digits back yields the
/// bytes' big-endian value; the rendering is `2n` lowercase digits.
pub proof fn lemma_hex_chars_parse(s: Seq<u8>, n: int)
    requires
        0 <= n,
    ensures
        hex_chars(s, n).len() == 2 * n,
        forall|i: int| 0 <= i < 2 * n ==> is_lower_hex_digit(#[trigger] hex_chars(s, n)[i]),
        parse_hex(hex_chars(s, n), 2 * n) == be_value(s, n),
    decreases n,
{
    if n > 0 {
        lemma_hex_chars_parse(s, n - 1);
        let w = hex_chars(s, n - 1);
        let b = s[n - 1] as int;
        let full = hex_chars(s, n);
        lemma_fundamental_div_mod(b, 16);
        assert(full[2 * n - 2] == hex_char(b / 16) && full[2 * n - 1] == hex_char(b % 16));
        assert(is_lower_hex_digit(hex_char(b / 16)) && hex_val(hex_char(b / 16)) == b / 16);
        assert(is_lower_hex_digit(hex_char(b % 16)) && hex_val(hex_char(b % 16)) == b % 16);
        lemma_parse_hex_prefix(full, w, 2 * n - 2);
        assert(parse_hex(full, 2 * n) == (parse_hex(full, 2 * n - 1)) * 16 + hex_val(
            full[2 * n - 1],
        ));
        assert(parse_hex(full, 2 * n - 1) == parse_hex(full, 2 * n - 2) * 16 + hex_val(
            full[2 * n - 2],
        ));
    }
}

/// Decide and evaluate a hexadecimal digit of either case.
pub fn hex_digit_val(c: char) -> (r: Option<u8>)
    ensures
        match r {
            Some(v) => is_hex_digit(c) && v == hex_val(c),
            None => !is_hex_digit(c),
        },
{
    let x = c as u32;
    if 0x30 <= x && x <= 0x39 {
        Some((x - 0x30) as u8)
    } else if 0x41 <= x && x <= 0x46 {
        Some((x - 0x37) as u8)
    } else if 0x61 <= x && x <= 0x66 {
        Some((x - 0x57) as u8)
    } else {
        None
    }
}

/// Relies on `String::from_utf8`: bytes below 0x80 are valid UTF-8 and decode
/// to one character per byte, with the same code point.
#[verifier::external_body]
pub(crate) fn ascii_to_string(bytes: Vec<u8>) -> (r: String)
    requires
        forall|i: int| 0 <= i < bytes@.len() ==> bytes@[i] < 0x80,
    ensures
        r@.len() == bytes@.len(),
        forall|i: int| 0 <= i < bytes@.len() ==> r@[i] == (#[trigger] bytes@[i]) as char,
{
    String::from_utf8(bytes).unwrap()
}

} // verus!
