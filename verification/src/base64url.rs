//! Base64 over the URL-safe alphabet, without padding (RFC 4648, section 5).
//!
//! The encoding is stated as a function from bytes to text, six bits to a
//! symbol, and the decoding as its inverse on well-formed text.

use vstd::prelude::*;

verus! {

/// The symbol that stands for the six-bit value `v`: `A`-`Z`, `a`-`z`,
/// `0`-`9`, then `-` and `_`.
pub open spec fn symbol(v: int) -> char {
    if v < 26 {
        ('A' as int + v) as char
    } else if v < 52 {
        ('a' as int + v - 26) as char
    } else if v < 62 {
        ('0' as int + v - 52) as char
    } else if v == 62 {
        '-'
    } else {
        '_'
    }
}

/// The six-bit value that `c` stands for, if `c` belongs to the alphabet.
pub open spec fn symbol_value(c: char) -> Option<int> {
    if 'A' <= c <= 'Z' {
        Some(c as int - 'A' as int)
    } else if 'a' <= c <= 'z' {
        Some(c as int - 'a' as int + 26)
    } else if '0' <= c <= '9' {
        Some(c as int - '0' as int + 52)
    } else if c == '-' {
        Some(62)
    } else if c == '_' {
        Some(63)
    } else {
        None
    }
}

/// Byte `i` of `data`, and zero beyond its end.
pub open spec fn byte_or_zero(data: Seq<u8>, i: int) -> int {
    if 0 <= i < data.len() {
        data[i] as int
    } else {
        0
    }
}

/// The `i`-th group of six bits of `data`, read most significant bit first
/// and followed by zero bits. Groups `4q .. 4q + 3` cover bytes
/// `3q .. 3q + 2`.
pub open spec fn sextet(data: Seq<u8>, i: int) -> int {
    let first = 3 * (i / 4);
    if i % 4 == 0 {
        byte_or_zero(data, first) / 4
    } else if i % 4 == 1 {
        (byte_or_zero(data, first) % 4) * 16 + byte_or_zero(data, first + 1) / 16
    } else if i % 4 == 2 {
        (byte_or_zero(data, first + 1) % 16) * 4 + byte_or_zero(data, first + 2) / 64
    } else {
        byte_or_zero(data, first + 2) % 64
    }
}

/// The number of symbols that encode `n` bytes: one per six bits begun.
pub open spec fn encoded_len(n: nat) -> nat {
    ((4 * n + 2) / 3) as nat
}

/// The encoding of `data`.
pub open spec fn encoded(data: Seq<u8>) -> Seq<char> {
    Seq::new(encoded_len(data.len()), |i: int| symbol(sextet(data, i)))
}

/// The value of symbol `i` of `text`, and zero beyond its end or where the
/// character is no symbol.
pub open spec fn value_or_zero(text: Seq<char>, i: int) -> int {
    if 0 <= i < text.len() {
        match symbol_value(text[i]) {
            Some(v) => v,
            None => 0,
        }
    } else {
        0
    }
}

/// The `j`-th byte that the symbols of `text` spell out. Bytes
/// `3q .. 3q + 2` are covered by symbols `4q .. 4q + 3`.
pub open spec fn octet(text: Seq<char>, j: int) -> int {
    let first = 4 * (j / 3);
    if j % 3 == 0 {
        value_or_zero(text, first) * 4 + value_or_zero(text, first + 1) / 16
    } else if j % 3 == 1 {
        (value_or_zero(text, first + 1) % 16) * 16 + value_or_zero(text, first + 2) / 4
    } else {
        (value_or_zero(text, first + 2) % 4) * 64 + value_or_zero(text, first + 3)
    }
}

/// The number of whole bytes in `m` symbols.
pub open spec fn decoded_len(m: nat) -> nat {
    (3 * m / 4) as nat
}

/// Whether the bits of `text` left over after its last whole byte are zero.
pub open spec fn tail_is_zero(text: Seq<char>) -> bool {
    let last = value_or_zero(text, text.len() - 1);
    if text.len() % 4 == 2 {
        last % 16 == 0
    } else if text.len() % 4 == 3 {
        last % 4 == 0
    } else {
        true
    }
}

/// Whether `text` is the encoding of some bytes: symbols of the alphabet
/// only, a length that no count of bytes rules out, and no stray bits.
pub open spec fn well_formed(text: Seq<char>) -> bool {
    &&& forall|i: int| 0 <= i < text.len() ==> (#[trigger] symbol_value(text[i])) is Some
    &&& text.len() % 4 != 1
    &&& tail_is_zero(text)
}

/// The bytes that `text` decodes to, if it is well formed.
pub open spec fn decoded(text: Seq<char>) -> Option<Seq<u8>> {
    if well_formed(text) {
        Some(Seq::new(decoded_len(text.len()), |j: int| octet(text, j) as u8))
    } else {
        None
    }
}

/// Every six-bit value is read back from its symbol.
pub proof fn lemma_symbol_value(v: int)
    requires
        0 <= v < 64,
    ensures
        symbol_value(symbol(v)) == Some(v),
{
}

/// Every group of six bits is a six-bit value.
pub proof fn lemma_sextet_range(data: Seq<u8>, i: int)
    requires
        0 <= i,
    ensures
        0 <= sextet(data, i) < 64,
{
}

/// Each character of an encoding is a symbol of the alphabet, the one for
/// the group of six bits at its place; so none is a comma.
pub proof fn lemma_encoded_alphabet(data: Seq<u8>, i: int)
    requires
        0 <= i < encoded(data).len(),
    ensures
        symbol_value(encoded(data)[i]) == Some(sextet(data, i)),
        encoded(data)[i] != ',',
{
    lemma_sextet_range(data, i);
    lemma_symbol_value(sextet(data, i));
}

/// The four groups of six bits that cover bytes `3q .. 3q + 2`.
proof fn lemma_sextets_of_group(data: Seq<u8>, q: int)
    requires
        0 <= q,
    ensures
        sextet(data, 4 * q) == byte_or_zero(data, 3 * q) / 4,
        sextet(data, 4 * q + 1) == (byte_or_zero(data, 3 * q) % 4) * 16 + byte_or_zero(
            data,
            3 * q + 1,
        ) / 16,
        sextet(data, 4 * q + 2) == (byte_or_zero(data, 3 * q + 1) % 16) * 4 + byte_or_zero(
            data,
            3 * q + 2,
        ) / 64,
        sextet(data, 4 * q + 3) == byte_or_zero(data, 3 * q + 2) % 64,
{
}

/// The three bytes that symbols `4q .. 4q + 3` spell out.
proof fn lemma_octets_of_group(text: Seq<char>, q: int)
    requires
        0 <= q,
    ensures
        octet(text, 3 * q) == value_or_zero(text, 4 * q) * 4 + value_or_zero(text, 4 * q + 1) / 16,
        octet(text, 3 * q + 1) == (value_or_zero(text, 4 * q + 1) % 16) * 16 + value_or_zero(
            text,
            4 * q + 2,
        ) / 4,
        octet(text, 3 * q + 2) == (value_or_zero(text, 4 * q + 2) % 4) * 64 + value_or_zero(
            text,
            4 * q + 3,
        ),
{
}

/// Splitting three bytes into four six-bit values and joining them again
/// gives the three bytes back.
proof fn lemma_split_join(b0: int, b1: int, b2: int)
    requires
        0 <= b0 < 256,
        0 <= b1 < 256,
        0 <= b2 < 256,
    ensures
        (b0 / 4) * 4 + ((b0 % 4) * 16 + b1 / 16) / 16 == b0,
        (((b0 % 4) * 16 + b1 / 16) % 16) * 16 + ((b1 % 16) * 4 + b2 / 64) / 4 == b1,
        (((b1 % 16) * 4 + b2 / 64) % 4) * 64 + b2 % 64 == b2,
{
}

/// Each symbol of an encoding carries the group of six bits at its place.
proof fn lemma_encoded_values(data: Seq<u8>)
    ensures
        forall|i: int|
            0 <= i < encoded(data).len() ==> #[trigger] value_or_zero(encoded(data), i) == sextet(
                data,
                i,
            ),
        forall|i: int|
            0 <= i < encoded(data).len() ==> (#[trigger] symbol_value(encoded(data)[i])) is Some,
{
    assert forall|i: int| 0 <= i < encoded(data).len() implies #[trigger] value_or_zero(
        encoded(data),
        i,
    ) == sextet(data, i) by {
        lemma_encoded_alphabet(data, i);
    }
    assert forall|i: int| 0 <= i < encoded(data).len() implies (#[trigger] symbol_value(
        encoded(data)[i],
    )) is Some by {
        lemma_encoded_alphabet(data, i);
    }
}

/// The bits left over in the last symbol of an encoding are zero.
proof fn lemma_encoded_tail(data: Seq<u8>)
    ensures
        encoded(data).len() % 4 != 1,
        tail_is_zero(encoded(data)),
        decoded_len(encoded(data).len()) == data.len(),
{
    lemma_encoded_values(data);
    lemma_sextets_of_group(data, data.len() as int / 3);
}

/// Byte `j` of what an encoding spells out is byte `j` of what was encoded.
proof fn lemma_octet_of_encoded(data: Seq<u8>, j: int)
    requires
        0 <= j < data.len(),
    ensures
        octet(encoded(data), j) == data[j],
{
    let text = encoded(data);
    let q = j / 3;
    let b0 = byte_or_zero(data, 3 * q);
    let b1 = byte_or_zero(data, 3 * q + 1);
    let b2 = byte_or_zero(data, 3 * q + 2);
    lemma_encoded_values(data);
    lemma_sextets_of_group(data, q);
    lemma_octets_of_group(text, q);
    lemma_split_join(b0, b1, b2);
}

/// Decoding undoes encoding: the encoding of any bytes is well formed, and
/// it decodes to exactly those bytes.
pub proof fn lemma_decode_encode(data: Seq<u8>)
    ensures
        well_formed(encoded(data)),
        decoded(encoded(data)) == Some(data),
{
    let text = encoded(data);
    lemma_encoded_values(data);
    lemma_encoded_tail(data);
    let bytes = Seq::new(decoded_len(text.len()), |j: int| octet(text, j) as u8);
    assert forall|j: int| 0 <= j < data.len() implies bytes[j] == data[j] by {
        lemma_octet_of_encoded(data, j);
    }
}

/// Whether the encoding of `n` bytes has at most `limit` symbols.
pub fn encoded_len_at_most(n: usize, limit: usize) -> (within: bool)
    ensures
        within == (encoded_len(n as nat) <= limit),
{
    n <= limit / 4 * 3 + limit % 4 * 3 / 4
}

/// Calls `base64_url::encode`, which encodes with the URL-safe alphabet and
/// writes no padding. Trusted: the text returned is the encoding stated by
/// [`encoded`]. The call panics where the length of the text overflows or
/// is too long to be allocated, which `requires` leaves out.
#[verifier::external_body]
pub(crate) fn encode(data: &[u8]) -> (text: String)
    requires
        encoded_len(data@.len()) <= isize::MAX,
    ensures
        text@ == encoded(data@),
{
    base64_url::encode(data)
}

} // verus!
