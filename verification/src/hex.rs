//! Lowercase hexadecimal rendering of bytes.

use vstd::prelude::*;

verus! {

/// The sixteen lowercase hexadecimal digits, each at the index of its value.
pub open spec fn hex_digits() -> Seq<char> {
    seq!['0', '1', '2', '3', '4', '5', '6', '7', '8', '9', 'a', 'b', 'c', 'd', 'e', 'f']
}

/// Whether `c` is one of `0` to `9` or `a` to `f`.
pub open spec fn is_lower_hex_digit(c: char) -> bool {
    ('0' <= c <= '9') || ('a' <= c <= 'f')
}

/// The hexadecimal rendering of `bytes`: two digits for each byte, in the
/// order of the bytes, the digit of the high four bits before that of the
/// low four bits.
pub open spec fn hex_encoded(bytes: Seq<u8>) -> Seq<char> {
    Seq::new(
        2 * bytes.len(),
        |i: int|
            if i % 2 == 0 {
                hex_digits()[bytes[i / 2] as int / 16]
            } else {
                hex_digits()[bytes[i / 2] as int % 16]
            },
    )
}

/// A rendering has two characters for each byte, and each of them is a
/// lowercase hexadecimal digit.
pub proof fn lemma_hex_encoded_shape(bytes: Seq<u8>)
    ensures
        hex_encoded(bytes).len() == 2 * bytes.len(),
        forall|i: int|
            0 <= i < hex_encoded(bytes).len() ==> is_lower_hex_digit(
                #[trigger] hex_encoded(bytes)[i],
            ),
{
    assert forall|i: int| 0 <= i < hex_encoded(bytes).len() implies is_lower_hex_digit(
        #[trigger] hex_encoded(bytes)[i],
    ) by {
        let b = bytes[i / 2] as int;
        lemma_hex_digits_are_digits(b / 16);
        lemma_hex_digits_are_digits(b % 16);
    }
}

/// Each of the sixteen digits is a lowercase hexadecimal digit.
pub proof fn lemma_hex_digits_are_digits(value: int)
    requires
        0 <= value < 16,
    ensures
        is_lower_hex_digit(hex_digits()[value]),
{
}

/// Bytes with the same rendering are the same bytes.
pub proof fn lemma_hex_encoded_injective(a: Seq<u8>, b: Seq<u8>)
    requires
        hex_encoded(a) == hex_encoded(b),
    ensures
        a == b,
{
    let ha = hex_encoded(a);
    let hb = hex_encoded(b);
    assert(ha.len() == 2 * a.len());
    assert(hb.len() == 2 * b.len());
    assert forall|k: int| 0 <= k < a.len() implies a[k] == b[k] by {
        let x = a[k] as int;
        let y = b[k] as int;
        assert((2 * k) % 2 == 0 && (2 * k) / 2 == k);
        assert((2 * k + 1) % 2 == 1 && (2 * k + 1) / 2 == k);
        assert(ha[2 * k] == hex_digits()[x / 16]);
        assert(hb[2 * k] == hex_digits()[y / 16]);
        assert(ha[2 * k + 1] == hex_digits()[x % 16]);
        assert(hb[2 * k + 1] == hex_digits()[y % 16]);
        lemma_hex_digits_distinct(x / 16, y / 16);
        lemma_hex_digits_distinct(x % 16, y % 16);
    }
    assert(a =~= b);
}

/// Different values have different digits.
pub proof fn lemma_hex_digits_distinct(v: int, w: int)
    requires
        0 <= v < 16,
        0 <= w < 16,
        hex_digits()[v] == hex_digits()[w],
    ensures
        v == w,
{
}

/// The digit of a value below sixteen.
fn hex_digit(value: u8) -> (digit: char)
    requires
        value < 16,
    ensures
        digit == hex_digits()[value as int],
{
    if value < 10 {
        (0x30u8 + value) as char
    } else {
        (0x61u8 + (value - 10)) as char
    }
}

/// Renders `bytes` in lowercase hexadecimal.
pub fn hex_encode(bytes: &[u8]) -> (out: String)
    ensures
        out@ == hex_encoded(bytes@),
{
    let n = bytes.len();
    let mut out = String::new();
    let mut i: usize = 0;
    while i < n
        invariant
            i <= n == bytes@.len(),
            out@ == hex_encoded(bytes@).take(2 * i),
        decreases n - i,
    {
        let byte = bytes[i];
        out.push(hex_digit(byte / 16));
        out.push(hex_digit(byte % 16));
        i += 1;
        assert(out@ =~= hex_encoded(bytes@).take(2 * i));
    }
    assert(hex_encoded(bytes@).take(2 * n) =~= hex_encoded(bytes@));
    out
}

} // verus!
