//! The data URL value, its construction and its rendering as text.

use crate::base64url;
use crate::percent;
use vstd::prelude::*;

verus! {

/// A data URL: a media type, the choice of payload encoding, and the raw
/// payload bytes. The value is plain data; its text is a function of the
/// three fields alone.
#[derive(Debug, Clone, PartialEq, Eq)]
pub struct DataUrl {
    /// The media type, as given; it is not checked against any grammar.
    pub media_type: String,
    /// Whether the payload is rendered as base64 (otherwise percent-encoded).
    pub base64_encoded: bool,
    /// The payload, unencoded.
    pub data: Vec<u8>,
}

/// What a [`DataUrl`] stands for: its three fields as mathematical values.
pub struct DataUrlView {
    pub media_type: Seq<char>,
    pub base64_encoded: bool,
    pub data: Seq<u8>,
}

impl View for DataUrl {
    type V = DataUrlView;

    open spec fn view(&self) -> DataUrlView {
        DataUrlView {
            media_type: self.media_type@,
            base64_encoded: self.base64_encoded,
            data: self.data@,
        }
    }
}

/// The scheme prefix, `data:`.
pub open spec fn scheme() -> Seq<char> {
    seq!['d', 'a', 't', 'a', ':']
}

/// The marker of a base64 payload, `;base64`.
pub open spec fn base64_marker() -> Seq<char> {
    seq![';', 'b', 'a', 's', 'e', '6', '4']
}

impl DataUrlView {
    /// What stands between the media type and the comma: the base64 marker,
    /// or nothing.
    pub open spec fn encoding_suffix(self) -> Seq<char> {
        if self.base64_encoded {
            base64_marker()
        } else {
            Seq::empty()
        }
    }

    /// The payload as text: unpadded URL-safe base64 where the flag is set,
    /// else percent-encoded.
    pub open spec fn payload(self) -> Seq<char> {
        if self.base64_encoded {
            base64url::encoded(self.data)
        } else {
            percent::encoded(self.data)
        }
    }

    /// The text of the data URL: `data:`, the media type, the suffix, a
    /// comma, the payload; no line breaks and nothing after the payload.
    pub open spec fn rendering(self) -> Seq<char> {
        scheme() + self.media_type + self.encoding_suffix() + seq![','] + self.payload()
    }
}

impl DataUrl {
    /// Bundles the three parts into a value, unchanged and unchecked.
    pub fn new(media_type: String, data: Vec<u8>, base64_encoded: bool) -> (url: Self)
        ensures
            url.media_type == media_type,
            url.data == data,
            url.base64_encoded == base64_encoded,
    {
        DataUrl { media_type, base64_encoded, data }
    }

    /// Whether the payload text is short enough to be held in memory, which
    /// is what [`DataUrl::to_string`] asks of its caller.
    pub fn can_render(&self) -> (fits: bool)
        ensures
            fits == (self@.payload().len() <= isize::MAX),
    {
        let limit = isize::MAX as usize;
        if self.base64_encoded {
            base64url::encoded_len_at_most(self.data.len(), limit)
        } else {
            percent::encoded_len_at_most(self.data.as_slice(), limit)
        }
    }

    /// Renders the data URL as text.
    pub fn to_string(&self) -> (text: String)
        requires
            self@.payload().len() <= isize::MAX,
        ensures
            text@ == self@.rendering(),
    {
        let payload = if self.base64_encoded {
            base64url::encode(self.data.as_slice())
        } else {
            percent::encode(self.data.as_slice())
        };
        let mut text = String::new();
        text.append("data:");
        text.append(self.media_type.as_str());
        if self.base64_encoded {
            text.append(";base64");
        }
        text.append(",");
        text.append(payload.as_str());
        proof {
            reveal_strlit("data:");
            reveal_strlit(";base64");
            reveal_strlit(",");
        }
        text
    }
}

} // verus!
