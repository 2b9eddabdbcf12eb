//! Data URLs in the style of RFC 2397: a value type for a media type, an
//! encoding flag and a payload, the text that such a value renders to, and
//! the conversion of a received HTTP response to such a value.
//!
//! The library does no I/O. Whoever talks HTTP hands it the `Content-Type`
//! header and the body as bytes.

pub mod base64url;
pub mod data_url;
pub mod media_type;
pub mod percent;
pub mod response;
pub mod shape;

pub use crate::data_url::DataUrl;
pub use crate::response::response_to_data_url;
pub use crate::response::Response;
