//! The media type of a response, read off its `Content-Type` header.
//!
//! A header value counts only where it is text and parses as a MIME value;
//! everything else gives `application/octet-stream`.

use vstd::prelude::*;
use vstd::utf8::*;

verus! {

/// The media type assumed where the header gives none: the literal
/// `application/octet-stream`.
pub open spec fn default_media_type() -> Seq<char> {
    "application/octet-stream"@
}

/// Whether `b` is a visible ASCII character, a space or a tab.
pub open spec fn is_visible_ascii(b: u8) -> bool {
    32 <= b < 127 || b == 9
}

/// The text of a header value: its bytes as characters, where every byte is
/// visible ASCII, and nothing otherwise. A value that is not valid UTF-8
/// holds a byte above 127 and so has no text.
pub open spec fn header_text(value: Seq<u8>) -> Option<Seq<char>> {
    if forall|i: int| 0 <= i < value.len() ==> is_visible_ascii(#[trigger] value[i]) {
        Some(Seq::new(value.len(), |i: int| value[i] as char))
    } else {
        None
    }
}

/// What the `mime` crate makes of `text`: the normal form of the MIME value
/// that `text` parses as, or nothing where it does not parse.
pub uninterp spec fn mime_text(text: Seq<char>) -> Option<Seq<char>>;

/// The parsed media type, or the default where there is none.
pub open spec fn parsed_or_default(parsed: Option<Seq<char>>) -> Seq<char> {
    match parsed {
        Some(media_type) => media_type,
        None => default_media_type(),
    }
}

/// The media type that a `Content-Type` header stands for, the header given
/// by its raw value, if the response had one.
pub open spec fn media_type_of(content_type: Option<Seq<u8>>) -> Seq<char> {
    match content_type {
        Some(value) => match header_text(value) {
            Some(text) => parsed_or_default(mime_text(text)),
            None => default_media_type(),
        },
        None => default_media_type(),
    }
}

/// The text of a header value spells the value: its UTF-8 encoding is the
/// value, byte for byte.
pub proof fn lemma_header_text_is_utf8(value: Seq<u8>)
    requires
        header_text(value) is Some,
    ensures
        encode_utf8(header_text(value)->0) == value,
        valid_utf8(value),
{
    let text = header_text(value)->0;
    is_ascii_chars_encode_utf8(text);
    encode_utf8_valid_utf8(text);
}

/// The three ways to the default media type: no header, a header value
/// that is not valid UTF-8 or otherwise no text, and a header text that does
/// not parse as a MIME value. Any other header gives what its text parses
/// as.
pub proof fn lemma_media_type_cases(value: Seq<u8>)
    ensures
        media_type_of(None) == default_media_type(),
        !valid_utf8(value) ==> media_type_of(Some(value)) == default_media_type(),
        header_text(value) is None ==> media_type_of(Some(value)) == default_media_type(),
        header_text(value) is Some ==> media_type_of(Some(value)) == parsed_or_default(
            mime_text(header_text(value)->0),
        ),
{
    if header_text(value) is Some {
        lemma_header_text_is_utf8(value);
    }
}

/// Calls `HeaderValue::from_bytes` and then `HeaderValue::to_str` of the
/// `http` crate, as `reqwest` hands it on. Trusted: `to_str` gives the value
/// as text exactly where all its bytes are visible ASCII, spaces or tabs,
/// and `from_bytes` refuses no value that `to_str` would accept.
#[verifier::external_body]
fn read_header_text(value: &[u8]) -> (text: Option<String>)
    ensures
        text.deep_view() == header_text(value@),
{
    match reqwest::header::HeaderValue::from_bytes(value) {
        Ok(header) => match header.to_str() {
            Ok(text) => Some(text.to_owned()),
            Err(_) => None,
        },
        Err(_) => None,
    }
}

/// Calls `str::parse::<mime::Mime>` and prints the MIME value that comes
/// back. Trusted: only that the outcome is a function of `text`, named
/// [`mime_text`]; nothing is claimed about which texts parse or how the
/// normal form is spelled.
#[verifier::external_body]
fn parse_mime(text: &str) -> (parsed: Option<String>)
    ensures
        parsed.deep_view() == mime_text(text@),
{
    match text.parse::<mime::Mime>() {
        Ok(mime) => Some(mime.to_string()),
        Err(_) => None,
    }
}

/// The media type to go by once parsing is done: what was parsed, or
/// `application/octet-stream` where nothing was.
pub fn media_type_or_default(parsed: Option<String>) -> (media_type: String)
    ensures
        media_type@ == parsed_or_default(parsed.deep_view()),
        parsed is None ==> media_type@ == "application/octet-stream"@,
{
    match parsed {
        Some(media_type) => media_type,
        None => "application/octet-stream".to_owned(),
    }
}

/// The media type that a response's `Content-Type` header stands for. There
/// is no failure: a header that is missing, is not text or does not parse
/// gives `application/octet-stream`.
pub fn content_type_to_media_type(content_type: Option<&[u8]>) -> (media_type: String)
    ensures
        media_type@ == media_type_of(
            match content_type {
                Some(value) => Some(value@),
                None => None,
            },
        ),
        content_type is None ==> media_type@ == "application/octet-stream"@,
{
    let parsed = match content_type {
        Some(value) => match read_header_text(value) {
            Some(text) => parse_mime(text.as_str()),
            None => None,
        },
        None => None,
    };
    media_type_or_default(parsed)
}

} // verus!
