//! Percent-encoding that escapes every byte but ASCII letters and digits.
//!
//! This is broader than what RFC 2397 asks for: space, `-`, `_`, `.` and `~`
//! are escaped too.

use vstd::prelude::*;

verus! {

/// Whether `b` is an ASCII letter or digit, the only bytes left unescaped.
pub open spec fn is_alphanumeric(b: u8) -> bool {
    ||| 0x30 <= b <= 0x39
    ||| 0x41 <= b <= 0x5a
    ||| 0x61 <= b <= 0x7a
}

/// Whether `c` is an ASCII letter or digit.
pub open spec fn is_alphanumeric_char(c: char) -> bool {
    ||| '0' <= c <= '9'
    ||| 'A' <= c <= 'Z'
    ||| 'a' <= c <= 'z'
}

/// The upper-case hexadecimal digit for `v`.
pub open spec fn hex_digit(v: int) -> char {
    if v < 10 {
        ('0' as int + v) as char
    } else {
        ('A' as int + v - 10) as char
    }
}

/// The value of the hexadecimal digit `c`, in either case.
pub open spec fn hex_value(c: char) -> Option<int> {
    if '0' <= c <= '9' {
        Some(c as int - '0' as int)
    } else if 'A' <= c <= 'F' {
        Some(c as int - 'A' as int + 10)
    } else if 'a' <= c <= 'f' {
        Some(c as int - 'a' as int + 10)
    } else {
        None
    }
}

/// The text for one byte: the byte itself where it is a letter or digit,
/// else `%` and its two hexadecimal digits.
pub open spec fn escape(b: u8) -> Seq<char> {
    if is_alphanumeric(b) {
        seq![b as char]
    } else {
        seq!['%', hex_digit(b as int / 16), hex_digit(b as int % 16)]
    }
}

/// The encoding of `data`: the texts of its bytes, in order.
pub open spec fn encoded(data: Seq<u8>) -> Seq<char>
    decreases data.len(),
{
    if data.len() == 0 {
        Seq::empty()
    } else {
        encoded(data.drop_last()) + escape(data.last())
    }
}

/// The bytes that `text` decodes to, if `text` is made of ASCII letters,
/// digits and `%XX` escapes only.
pub open spec fn decoded(text: Seq<char>) -> Option<Seq<u8>>
    decreases text.len(),
{
    if text.len() == 0 {
        Some(Seq::empty())
    } else if text[0] == '%' {
        if text.len() >= 3 && hex_value(text[1]) is Some && hex_value(text[2]) is Some {
            match decoded(text.skip(3)) {
                Some(rest) => Some(
                    seq![(16 * hex_value(text[1])->0 + hex_value(text[2])->0) as u8] + rest,
                ),
                None => None,
            }
        } else {
            None
        }
    } else if is_alphanumeric_char(text[0]) {
        match decoded(text.skip(1)) {
            Some(rest) => Some(seq![text[0] as u8] + rest),
            None => None,
        }
    } else {
        None
    }
}

/// The text for one byte has one character or three, each of them an
/// ASCII letter, a digit or `%`.
pub proof fn lemma_escape_shape(b: u8)
    ensures
        1 <= escape(b).len() <= 3,
        forall|i: int|
            0 <= i < escape(b).len() ==> is_alphanumeric_char(#[trigger] escape(b)[i]) || escape(
                b,
            )[i] == '%',
        decoded(escape(b)) == Some(seq![b]),
{
    let text = escape(b);
    if is_alphanumeric(b) {
        assert(decoded(text.skip(1)) == Some(Seq::<u8>::empty()));
    } else {
        assert(decoded(text.skip(3)) == Some(Seq::<u8>::empty()));
    }
}

/// Encoding goes byte by byte: the encoding of two runs of bytes, one after
/// the other, is the encoding of the first followed by that of the second.
pub proof fn lemma_encoded_concat(a: Seq<u8>, b: Seq<u8>)
    ensures
        encoded(a + b) == encoded(a) + encoded(b),
    decreases b.len(),
{
    if b.len() > 0 {
        lemma_encoded_concat(a, b.drop_last());
        assert((a + b).drop_last() =~= a + b.drop_last());
    }
}

/// The encoding has between one and three characters for each byte, each
/// of them an ASCII letter, a digit or `%`; so it holds no comma.
pub proof fn lemma_encoded_shape(data: Seq<u8>)
    ensures
        data.len() <= encoded(data).len() <= 3 * data.len(),
        forall|i: int|
            0 <= i < encoded(data).len() ==> is_alphanumeric_char(#[trigger] encoded(data)[i])
                || encoded(data)[i] == '%',
        forall|i: int| 0 <= i < encoded(data).len() ==> encoded(data)[i] != ',',
    decreases data.len(),
{
    if data.len() > 0 {
        lemma_encoded_shape(data.drop_last());
        lemma_escape_shape(data.last());
    }
}

/// Decoding reads one byte off the front of an encoding that starts with
/// the text of that byte.
proof fn lemma_decoded_step(b: u8, rest: Seq<char>)
    ensures
        decoded(escape(b) + rest) == match decoded(rest) {
            Some(bytes) => Some(seq![b] + bytes),
            None => None,
        },
{
    let text = escape(b) + rest;
    if is_alphanumeric(b) {
        assert(text.skip(1) =~= rest);
    } else {
        assert(text.skip(3) =~= rest);
    }
}

/// Decoding undoes encoding: the encoding of any bytes is made of letters,
/// digits and `%XX` escapes only, and it decodes to exactly those bytes.
pub proof fn lemma_decode_encode(data: Seq<u8>)
    ensures
        decoded(encoded(data)) == Some(data),
    decreases data.len(),
{
    if data.len() > 0 {
        let head = seq![data[0]];
        let tail = data.skip(1);
        assert(data =~= head + tail);
        lemma_encoded_concat(head, tail);
        assert(encoded(head) =~= escape(data[0])) by {
            assert(encoded(head.drop_last()) =~= Seq::<char>::empty());
        }
        lemma_decode_encode(tail);
        lemma_decoded_step(data[0], encoded(tail));
    }
}

/// Whether the encoding of `data` has at most `limit` characters, found
/// without building it.
pub fn encoded_len_at_most(data: &[u8], limit: usize) -> (within: bool)
    ensures
        within == (encoded(data@).len() <= limit),
{
    let n = data.len();
    let mut count: usize = 0;
    let mut i: usize = 0;
    while i < n
        invariant
            n == data@.len(),
            i <= n,
            count == encoded(data@.take(i as int)).len(),
            count <= limit,
        decreases n - i,
    {
        let b = data[i];
        let digit = 0x30 <= b && b <= 0x39;
        let letter = (0x41 <= b && b <= 0x5a) || (0x61 <= b && b <= 0x7a);
        let width: usize = if digit || letter { 1 } else { 3 };
        proof {
            let next = data@.take(i + 1);
            let rest = data@.skip(i + 1);
            assert(next.drop_last() =~= data@.take(i as int));
            assert(data@ =~= next + rest);
            lemma_encoded_concat(next, rest);
        }
        if width > limit - count {
            return false;
        }
        count = count + width;
        i = i + 1;
    }
    proof {
        assert(data@.take(n as int) =~= data@);
    }
    true
}

/// Calls `percent_encoding::percent_encode` with the set
/// `NON_ALPHANUMERIC` and collects what it yields. Trusted: the text
/// returned is the encoding stated by [`encoded`], with upper-case
/// hexadecimal digits. The text is built in memory, so `requires` leaves
/// out what is too long to be allocated.
#[verifier::external_body]
pub(crate) fn encode(data: &[u8]) -> (text: String)
    requires
        encoded(data@).len() <= isize::MAX,
    ensures
        text@ == encoded(data@),
{
    percent_encoding::percent_encode(data, percent_encoding::NON_ALPHANUMERIC).to_string()
}

} // verus!
