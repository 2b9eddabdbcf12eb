//! From a received HTTP response to a data URL.

use crate::base64url;
use crate::data_url::DataUrl;
use crate::data_url::DataUrlView;
use crate::media_type::content_type_to_media_type;
use crate::media_type::media_type_of;
use vstd::prelude::*;

verus! {

/// What the conversion reads of an HTTP response that has been received in
/// full: the raw value of its `Content-Type` header, if it has one, and its
/// body.
#[derive(Debug, Clone, PartialEq, Eq)]
pub struct Response {
    /// The bytes of the `Content-Type` header value; `None` without the header.
    pub content_type: Option<Vec<u8>>,
    /// The whole body.
    pub body: Vec<u8>,
}

/// What a [`Response`] stands for.
pub struct ResponseView {
    pub content_type: Option<Seq<u8>>,
    pub body: Seq<u8>,
}

impl View for Response {
    type V = ResponseView;

    open spec fn view(&self) -> ResponseView {
        ResponseView {
            content_type: match self.content_type {
                Some(value) => Some(value@),
                None => None,
            },
            body: self.body@,
        }
    }
}

impl ResponseView {
    /// The data URL that the response converts to: the media type of its
    /// header, its body as the payload, and base64 whatever the media type.
    pub open spec fn data_url(self) -> DataUrlView {
        DataUrlView {
            media_type: media_type_of(self.content_type),
            base64_encoded: true,
            data: self.body,
        }
    }
}

/// What was received can be read back: the payload of the data URL that a
/// response converts to decodes to the body, whatever the header says.
pub proof fn lemma_body_decodes(response: ResponseView)
    ensures
        response.data_url().base64_encoded,
        base64url::decoded(response.data_url().payload()) == Some(response.body),
{
    base64url::lemma_decode_encode(response.body);
}

/// Converts a received response to a data URL. The payload is the body,
/// byte for byte; the encoding is always base64; the media type is that of
/// the `Content-Type` header, or `application/octet-stream` where the header
/// is missing, is not text or does not parse.
pub fn response_to_data_url(response: Response) -> (url: DataUrl)
    ensures
        url@ == response@.data_url(),
        url.base64_encoded,
        url.data == response.body,
        response.content_type is None ==> url.media_type@ == "application/octet-stream"@,
{
    let media_type = match &response.content_type {
        Some(value) => content_type_to_media_type(Some(value.as_slice())),
        None => content_type_to_media_type(None),
    };
    DataUrl::new(media_type, response.body, true)
}

} // verus!
