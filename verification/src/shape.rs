//! The shape of a rendered data URL, and what can be read back from it.

use crate::base64url;
use crate::data_url::base64_marker;
use crate::data_url::scheme;
use crate::data_url::DataUrl;
use crate::data_url::DataUrlView;
use crate::percent;
use vstd::prelude::*;

verus! {

/// Whether `text` holds no comma.
pub open spec fn comma_free(text: Seq<char>) -> bool {
    forall|i: int| 0 <= i < text.len() ==> text[i] != ','
}

/// The place of the first comma in `text`, or the length of `text` where it
/// holds none.
pub open spec fn first_comma(text: Seq<char>) -> int
    decreases text.len(),
{
    if text.len() == 0 || text[0] == ',' {
        0
    } else {
        1 + first_comma(text.skip(1))
    }
}

/// Whether `text` reads `data:`, then characters other than a comma, then
/// optionally `;base64`, then a comma, then a payload.
pub open spec fn has_data_url_shape(text: Seq<char>) -> bool {
    exists|head: Seq<char>, payload: Seq<char>|
        comma_free(head) && (#[trigger] (scheme() + head + seq![','] + payload) == text || scheme()
            + head + base64_marker() + seq![','] + payload == text)
}

/// `first_comma` finds a comma where there is one, and nothing before it is
/// a comma.
pub proof fn lemma_first_comma(text: Seq<char>)
    ensures
        0 <= first_comma(text) <= text.len(),
        comma_free(text.take(first_comma(text))),
        first_comma(text) < text.len() ==> text[first_comma(text)] == ',',
        forall|i: int| 0 <= i < text.len() && text[i] == ',' ==> first_comma(text) <= i,
    decreases text.len(),
{
    if text.len() == 0 || text[0] == ',' {
    } else {
        let rest = text.skip(1);
        lemma_first_comma(rest);
        let k = first_comma(rest);
        let before = text.take(k + 1);
        assert forall|i: int| 0 <= i < before.len() implies #[trigger] before[i] != ',' by {
            if i > 0 {
                assert(before[i] == rest.take(k)[i - 1]);
            }
        }
        assert forall|i: int| 0 <= i < text.len() && text[i] == ',' implies k + 1 <= i by {
            assert(rest[i - 1] == text[i]);
        }
    }
}

/// Neither payload encoding ever writes a comma.
pub proof fn lemma_payload_comma_free(url: DataUrlView)
    ensures
        comma_free(url.payload()),
{
    if url.base64_encoded {
        assert forall|i: int| 0 <= i < url.payload().len() implies url.payload()[i] != ',' by {
            base64url::lemma_encoded_alphabet(url.data, i);
        }
    } else {
        percent::lemma_encoded_shape(url.data);
    }
}

/// Two data URLs with the same media type, the same payload and the same
/// flag render to the same text: the text depends on nothing else.
pub proof fn lemma_rendering_deterministic(a: DataUrl, b: DataUrl)
    requires
        a.media_type@ == b.media_type@,
        a.data@ == b.data@,
        a.base64_encoded == b.base64_encoded,
    ensures
        a@.rendering() == b@.rendering(),
{
}

/// Every rendering has the shape of a data URL, whatever the media type
/// holds.
pub proof fn lemma_rendering_has_shape(url: DataUrlView)
    ensures
        has_data_url_shape(url.rendering()),
{
    let front = url.media_type + url.encoding_suffix();
    let body = front + seq![','] + url.payload();
    lemma_first_comma(body);
    assert(body[front.len() as int] == ',');
    let head = body.take(first_comma(body));
    let payload = body.skip(first_comma(body) + 1);
    assert(scheme() + head + seq![','] + payload =~= url.rendering());
}

/// Where the media type holds no comma, the rendering holds exactly one:
/// before it stand `data:`, the media type and the suffix, and after it the
/// payload and nothing else.
pub proof fn lemma_rendering_splits(url: DataUrlView)
    requires
        comma_free(url.media_type),
    ensures
        ({
            let text = url.rendering();
            let front = scheme() + url.media_type + url.encoding_suffix();
            &&& first_comma(text) == front.len()
            &&& text.take(first_comma(text)) == front
            &&& text.skip(first_comma(text) + 1) == url.payload()
            &&& comma_free(url.payload())
        }),
{
    let text = url.rendering();
    let front = scheme() + url.media_type + url.encoding_suffix();
    lemma_first_comma(text);
    lemma_payload_comma_free(url);
    assert(text[front.len() as int] == ',');
}

/// The payload of a base64 data URL decodes, by the URL-safe alphabet and
/// without padding, to exactly the data.
pub proof fn lemma_base64_payload_decodes(url: DataUrlView)
    requires
        url.base64_encoded,
    ensures
        base64url::decoded(url.payload()) == Some(url.data),
{
    base64url::lemma_decode_encode(url.data);
}

/// The payload of a data URL without base64 is made of ASCII letters,
/// digits and `%XX` escapes only, and undoing the escapes gives exactly the
/// data.
pub proof fn lemma_percent_payload_decodes(url: DataUrlView)
    requires
        !url.base64_encoded,
    ensures
        percent::decoded(url.payload()) == Some(url.data),
        forall|i: int|
            0 <= i < url.payload().len() ==> percent::is_alphanumeric_char(
                #[trigger] url.payload()[i],
            ) || url.payload()[i] == '%',
{
    percent::lemma_decode_encode(url.data);
    percent::lemma_encoded_shape(url.data);
}

} // verus!
