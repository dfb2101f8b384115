//! Generated images: where their bytes come from and how inline data is
//! decoded.
use vstd::prelude::*;

use base64::Engine;

use crate::text::{
    has_prefix, has_suffix, prefix_before, split_once_char, starts_with, strip_prefix,
    strip_suffix, to_string,
};

verus! {

/// A stored generated image.
pub struct SavedGeneratedImage {
    pub asset_id: String,
    pub file_path: String,
    pub mime_type: String,
    pub width: Option<u32>,
    pub height: Option<u32>,
}

/// What the standard base64 alphabet (with padding) decodes `text` to, or the
/// message of the error it reports.
pub uninterp spec fn standard_base64_decoding(text: Seq<char>) -> Result<Seq<u8>, Seq<char>>;

/// `base64::engine::general_purpose::STANDARD.decode`, with the error turned
/// into its message. The contract only ties the outcome to the input text.
#[verifier::external_body]
fn decode_standard_base64(text: &str) -> (r: Result<Vec<u8>, String>)
    ensures
        match r {
            Ok(b) => standard_base64_decoding(text@) == Ok::<Seq<u8>, Seq<char>>(b@),
            Err(e) => standard_base64_decoding(text@) == Err::<Seq<u8>, Seq<char>>(e@),
        },
{
    match base64::engine::general_purpose::STANDARD.decode(text) {
        Ok(bytes) => Ok(bytes),
        Err(error) => Err(error.to_string()),
    }
}

/// Where the bytes of a generated image are to be found.
#[derive(Clone, Copy, Debug, PartialEq, Eq, Structural)]
pub enum ImageSource {
    /// An `http` or `https` URL to download.
    Remote,
    /// A `data:image` URL.
    DataUrl,
    /// Bare base64 text.
    RawBase64,
}

pub open spec fn image_source(data: Seq<char>) -> ImageSource {
    if has_prefix(data, "http://"@) || has_prefix(data, "https://"@) {
        ImageSource::Remote
    } else if has_prefix(data, "data:image"@) {
        ImageSource::DataUrl
    } else {
        ImageSource::RawBase64
    }
}

pub fn classify_image_data(image_data: &str) -> (r: ImageSource)
    ensures
        r == image_source(image_data@),
{
    if starts_with(image_data, "http://") || starts_with(image_data, "https://") {
        ImageSource::Remote
    } else if starts_with(image_data, "data:image") {
        ImageSource::DataUrl
    } else {
        ImageSource::RawBase64
    }
}

/// Decoding bare base64 text, with the error message prefixed.
pub open spec fn raw_base64_result(text: Seq<char>) -> Result<Seq<u8>, Seq<char>> {
    match standard_base64_decoding(text) {
        Ok(b) => Ok(b),
        Err(e) => Err("Failed to decode base64: "@ + e),
    }
}

pub fn decode_raw_base64(base64_data: &str) -> (r: Result<Vec<u8>, String>)
    ensures
        match r {
            Ok(b) => raw_base64_result(base64_data@) == Ok::<Seq<u8>, Seq<char>>(b@),
            Err(e) => raw_base64_result(base64_data@) == Err::<Seq<u8>, Seq<char>>(e@),
        },
{
    match decode_standard_base64(base64_data) {
        Ok(b) => Ok(b),
        Err(e) => {
            let mut m = to_string("Failed to decode base64: ");
            m.append(e.as_str());
            Err(m)
        },
    }
}

/// The second comma-separated field of a data URL: what follows the first
/// comma, up to the next one.
pub open spec fn data_url_payload(s: Seq<char>) -> Seq<char> {
    prefix_before(s.skip(prefix_before(s, ',').len() + 1int), ',')
}

/// The payload of a data URL decoded; an error when it has no comma.
pub open spec fn data_url_bytes(s: Seq<char>) -> Result<Seq<u8>, Seq<char>> {
    if !s.contains(',') {
        Err("Invalid data URL format"@)
    } else {
        raw_base64_result(data_url_payload(s))
    }
}

pub fn decode_data_url(data_url: &str) -> (r: Result<Vec<u8>, String>)
    ensures
        match r {
            Ok(b) => data_url_bytes(data_url@) == Ok::<Seq<u8>, Seq<char>>(b@),
            Err(e) => data_url_bytes(data_url@) == Err::<Seq<u8>, Seq<char>>(e@),
        },
{
    match split_once_char(data_url, ',') {
        None => Err(to_string("Invalid data URL format")),
        Some((_, rest)) => {
            let field = match split_once_char(rest.as_str(), ',') {
                Some((f, _)) => f,
                None => {
                    proof {
                        crate::text::lemma_prefix_before(rest@, ',', rest@.len() as int);
                        assert(rest@.take(rest@.len() as int) =~= rest@);
                    }
                    rest
                },
            };
            decode_raw_base64(field.as_str())
        },
    }
}

/// A `data:<type>;base64,<payload>` URL split into its type and decoded
/// payload.
pub open spec fn typed_data_url(s: Seq<char>) -> Result<(Seq<char>, Seq<u8>), Seq<char>> {
    if !s.contains(',') {
        Err("Invalid data URL format"@)
    } else {
        let prefix = prefix_before(s, ',');
        let payload = s.skip(prefix.len() + 1int);
        if !has_prefix(prefix, "data:"@) || !has_suffix(prefix.skip(5), ";base64"@) {
            Err("Invalid data URL prefix"@)
        } else {
            match standard_base64_decoding(payload) {
                Ok(b) => Ok((prefix.skip(5).take(prefix.len() - 5 - 7), b)),
                Err(e) => Err("Failed to decode base64 image: "@ + e),
            }
        }
    }
}

pub fn decode_typed_data_url(data_url: &str) -> (r: Result<(String, Vec<u8>), String>)
    ensures
        match r {
            Ok((m, b)) => typed_data_url(data_url@) == Ok::<(Seq<char>, Seq<u8>), Seq<char>>(
                (m@, b@),
            ),
            Err(e) => typed_data_url(data_url@) == Err::<(Seq<char>, Seq<u8>), Seq<char>>(e@),
        },
{
    let (prefix, payload) = match split_once_char(data_url, ',') {
        Some(p) => p,
        None => {
            return Err(to_string("Invalid data URL format"));
        },
    };
    let after = match strip_prefix(prefix.as_str(), "data:") {
        Some(t) => t,
        None => {
            return Err(to_string("Invalid data URL prefix"));
        },
    };
    proof {
        reveal_strlit("data:");
        assert("data:"@.len() == 5);
    }
    let mime = match strip_suffix(after.as_str(), ";base64") {
        Some(t) => t,
        None => {
            return Err(to_string("Invalid data URL prefix"));
        },
    };
    proof {
        reveal_strlit(";base64");
        assert(";base64"@.len() == 7);
    }
    match decode_standard_base64(payload.as_str()) {
        Ok(bytes) => Ok((mime, bytes)),
        Err(e) => {
            let mut m = to_string("Failed to decode base64 image: ");
            m.append(e.as_str());
            Err(m)
        },
    }
}

} // verus!
