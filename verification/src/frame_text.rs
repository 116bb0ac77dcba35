//! Frames as text: the standard base64 form in which the Flutter and C
//! bridges hand frame bytes to the Dart side and take them back.
use crate::protocol::{encoding_for_code, FrameEncoding};
use crate::screen::encoder::{decode_frame, decoded_pixels, le_u32_value, DecodedFrame};
use vstd::prelude::*;

verus! {

#[verifier::external_type_specification]
#[verifier::external_body]
pub struct ExBase64DecodeError(base64::DecodeError);

/// The text the `base64` crate's standard engine (RFC 4648 alphabet, `=`
/// padding) makes of `data`.
pub uninterp spec fn base64_text(data: Seq<u8>) -> Seq<char>;

/// The bytes the `base64` crate's standard engine decodes from `text`, or
/// `None` where it refuses the text.
pub uninterp spec fn base64_bytes(text: Seq<char>) -> Option<Seq<u8>>;

/// Length of the padded base64 text of `n` bytes: four characters for each
/// started group of three bytes.
pub open spec fn base64_len(n: int) -> int {
    4 * ((n + 2) / 3)
}

/// Encodes with `base64::Engine::encode` on `general_purpose::STANDARD`. The
/// text is named `base64_text`; its length is `encoded_len` of the input
/// with padding, which `requires` keeps within `usize` (beyond it the crate
/// panics), and the same engine decodes it back to the input, since a padded
/// canonical encoding is what its decoder accepts.
#[verifier::external_body]
fn standard_encode(data: &[u8]) -> (text: String)
    requires
        base64_len(data@.len() as int) <= usize::MAX,
    ensures
        text@ == base64_text(data@),
        text@.len() == base64_len(data@.len() as int),
        base64_bytes(text@) == Some(data@),
{
    base64::Engine::encode(&base64::engine::general_purpose::STANDARD, data)
}

/// Decodes with `base64::Engine::decode` on `general_purpose::STANDARD`. The
/// bytes are named `base64_bytes`; nothing more is claimed of which texts it
/// refuses.
#[verifier::external_body]
fn standard_decode(text: &str) -> (r: Result<Vec<u8>, base64::DecodeError>)
    ensures
        match r {
            Ok(v) => base64_bytes(text@) == Some(v@),
            Err(_) => base64_bytes(text@) is None,
        },
{
    base64::Engine::decode(&base64::engine::general_purpose::STANDARD, text)
}

/// Why a frame received as text could not be read.
pub enum FrameTextError {
    /// The text is not standard base64.
    Base64(base64::DecodeError),
    /// The bytes are not a frame of the announced encoding.
    Frame(crate::screen::encoder::FrameDecodeError),
}

/// The text form of frame bytes: standard base64 with padding, which
/// `text_to_bytes` reads back to the same bytes.
pub fn bytes_to_text(data: &[u8]) -> (text: String)
    requires
        base64_len(data@.len() as int) <= usize::MAX,
    ensures
        text@ == base64_text(data@),
        text@.len() == base64_len(data@.len() as int),
        base64_bytes(text@) == Some(data@),
{
    standard_encode(data)
}

/// The bytes of a frame's text form; text that is not standard base64 is
/// refused.
pub fn text_to_bytes(text: &str) -> (r: Result<Vec<u8>, FrameTextError>)
    ensures
        match base64_bytes(text@) {
            Some(b) => r matches Ok(v) && v@ == b,
            None => r matches Err(FrameTextError::Base64(_)),
        },
{
    match standard_decode(text) {
        Ok(v) => Ok(v),
        Err(e) => Err(FrameTextError::Base64(e)),
    }
}

/// Decodes a frame received as text: the base64 is read, then the bytes are
/// decoded with the encoding that `encoding_type` selects (an unknown code
/// selects JPEG). For H.264 the payload is split for the H.264 decoder.
pub fn decode_frame_text(text: &str, width: u32, height: u32, encoding_type: u8) -> (r: Result<
    DecodedFrame,
    FrameTextError,
>)
    requires
        encoding_for_code(encoding_type) == FrameEncoding::Lz4 ==> width * height * 4 <= u32::MAX,
    ensures
        base64_bytes(text@) is None ==> r matches Err(FrameTextError::Base64(_)),
        encoding_for_code(encoding_type) != FrameEncoding::H264 ==> (base64_bytes(text@) matches Some(d)
            ==> match decoded_pixels(d, encoding_for_code(encoding_type), width, height) {
            Some(p) => r matches Ok(DecodedFrame::Pixels(v)) && v@ == p,
            None => r matches Err(FrameTextError::Frame(_)),
        }),
        encoding_for_code(encoding_type) == FrameEncoding::H264 ==> (base64_bytes(text@) matches Some(d)
            ==> if d.len() < 8 {
            r matches Err(FrameTextError::Frame(crate::screen::encoder::FrameDecodeError::H264TooShort))
        } else {
            r matches Ok(DecodedFrame::H264Pending(p)) && {
                &&& p.width == le_u32_value(d[0], d[1], d[2], d[3])
                &&& p.height == le_u32_value(d[4], d[5], d[6], d[7])
                &&& p.nal@ == d.subrange(8, d.len() as int)
            }
        }),
{
    let encoding = FrameEncoding::from_code(encoding_type);
    let data = match text_to_bytes(text) {
        Ok(v) => v,
        Err(e) => return Err(e),
    };
    match decode_frame(data.as_slice(), encoding, width, height) {
        Ok(f) => Ok(f),
        Err(e) => Err(FrameTextError::Frame(e)),
    }
}

} // verus!
