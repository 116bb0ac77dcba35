//! Frame encoding and decoding: raw RGBA, JPEG, LZ4 and the framing of
//! H.264 bitstreams.
use crate::protocol::{append_bytes, FrameEncoding};
use crate::screen::capture::CapturedFrame;
use vstd::prelude::*;
use vstd::slice::{slice_subrange, slice_to_vec};

verus! {

#[verifier::external_type_specification]
#[verifier::external_body]
pub struct ExImageError(image::ImageError);

#[verifier::external_type_specification]
#[verifier::external_body]
pub struct ExDecompressError(lz4_flex::block::DecompressError);

// ─── Results of the outside codecs ─────────────────────────────────

/// The JPEG bytes the `image` crate makes of `rgba` pixels of the given
/// dimensions, or `None` where its encoder fails.
pub uninterp spec fn jpeg_encoding(width: u32, height: u32, rgba: Seq<u8>) -> Option<Seq<u8>>;

/// The RGBA pixels the `image` crate decodes from `data`, or `None` where it
/// fails.
pub uninterp spec fn jpeg_decoding(data: Seq<u8>) -> Option<Seq<u8>>;

/// The LZ4 block `lz4_flex` makes of `data`, its uncompressed size prepended.
pub uninterp spec fn lz4_compressed(data: Seq<u8>) -> Seq<u8>;

/// What `lz4_flex` decompresses from a size-prepended block, or `None` where
/// it fails.
pub uninterp spec fn lz4_decompressed(data: Seq<u8>) -> Option<Seq<u8>>;

/// Little-endian bytes of a 32-bit value `x` (0 <= x < 2^32).
pub open spec fn le_u32_bytes(x: int) -> Seq<u8> {
    seq![
        (x % 0x100) as u8,
        ((x / 0x100) % 0x100) as u8,
        ((x / 0x10000) % 0x100) as u8,
        ((x / 0x1000000) % 0x100) as u8,
    ]
}

/// The value of four little-endian bytes.
pub open spec fn le_u32_value(b0: u8, b1: u8, b2: u8, b3: u8) -> int {
    b0 + b1 * 0x100 + b2 * 0x10000 + b3 * 0x1000000
}

/// Encodes RGBA pixels as JPEG: `image::RgbaImage::from_raw` over the pixels,
/// then `ImageBuffer::write_to` an in-memory `Cursor` with
/// `ImageFormat::Jpeg`. The result is named `jpeg_encoding`; nothing more is
/// claimed of it than that it depends on the dimensions and pixels alone.
/// `from_raw` accepts the pixels exactly when `4 * width * height` fits a
/// `usize` and is at most their length, which `requires` holds.
#[verifier::external_body]
fn jpeg_encode_rgba(width: u32, height: u32, rgba: Vec<u8>) -> (r: Result<Vec<u8>, image::ImageError>)
    requires
        4 * width * height <= rgba@.len(),
    ensures
        match r {
            Ok(v) => jpeg_encoding(width, height, rgba@) == Some(v@),
            Err(_) => jpeg_encoding(width, height, rgba@) is None,
        },
{
    let img = image::RgbaImage::from_raw(width, height, rgba).unwrap();
    let mut buf = std::io::Cursor::new(Vec::new());
    img.write_to(&mut buf, image::ImageFormat::Jpeg)?;
    Ok(buf.into_inner())
}

/// Decodes an image with `image::load_from_memory` (format guessed from the
/// bytes), then `to_rgba8` and `into_raw`. The pixels are named
/// `jpeg_decoding`; nothing more is claimed of them.
#[verifier::external_body]
fn jpeg_decode_rgba(data: &[u8]) -> (r: Result<Vec<u8>, image::ImageError>)
    ensures
        match r {
            Ok(v) => jpeg_decoding(data@) == Some(v@),
            Err(_) => jpeg_decoding(data@) is None,
        },
{
    let img = image::load_from_memory(data)?;
    Ok(img.to_rgba8().into_raw())
}

/// Compresses with `lz4_flex::compress_prepend_size`, which writes the input
/// length as a little-endian `u32` (truncated) and then the LZ4 block. The
/// block is named `lz4_compressed`. Input of at most `u32::MAX` bytes is
/// restored by `decompress_size_prepended`, as that pair of functions is
/// documented to do.
#[verifier::external_body]
fn lz4_compress_prepend_size(data: &[u8]) -> (r: Vec<u8>)
    ensures
        r@ == lz4_compressed(data@),
        r@.len() >= 4,
        r@.subrange(0, 4) == le_u32_bytes((data@.len() as u32) as int),
        data@.len() <= u32::MAX ==> lz4_decompressed(r@) == Some(data@),
{
    lz4_flex::compress_prepend_size(data)
}

/// Decompresses with `lz4_flex::decompress_size_prepended` (its bounds-checked
/// decoder, the crate's default). The result is named `lz4_decompressed`.
/// Input shorter than the 4-byte size prefix is refused. Left unsaid: the
/// decoder first allocates as many bytes as the prefix announces (up to
/// 4 GiB), which the machine may not have.
#[verifier::external_body]
fn lz4_decompress_size_prepended(data: &[u8]) -> (r: Result<Vec<u8>, lz4_flex::block::DecompressError>)
    ensures
        match r {
            Ok(v) => lz4_decompressed(data@) == Some(v@),
            Err(_) => lz4_decompressed(data@) is None,
        },
        data@.len() < 4 ==> r is Err,
{
    lz4_flex::decompress_size_prepended(data)
}

// ─── Encoding ──────────────────────────────────────────────────────

/// Why a frame could not be encoded.
pub enum EncodeError {
    /// The pixel buffer is shorter than `width * height * 4` bytes.
    InvalidFrameBuffer,
    /// The JPEG encoder failed.
    Image(image::ImageError),
}

/// Why a frame could not be decoded.
pub enum FrameDecodeError {
    /// The JPEG decoder failed.
    Image(image::ImageError),
    /// The LZ4 block is malformed.
    Lz4(lz4_flex::block::DecompressError),
    /// The LZ4 block decompressed to a size other than `width * height * 4`.
    Lz4SizeMismatch { expected: usize, actual: usize },
    /// An H.264 payload shorter than its 8-byte dimension header.
    H264TooShort,
}

/// The even dimensions an H.264 encoder works at: each side rounded up to an
/// even number, the extra row or column padded from the last one.
#[derive(Clone, Copy, Debug, PartialEq, Eq, Structural)]
pub struct H264Layout {
    pub enc_width: u64,
    pub enc_height: u64,
}

/// `x` rounded up to an even number.
pub open spec fn round_up_even(x: int) -> int {
    if x % 2 == 0 {
        x
    } else {
        x + 1
    }
}

/// The layout an H.264 encoder uses for a `width` x `height` frame.
pub open spec fn h264_layout_of(width: u32, height: u32) -> H264Layout {
    H264Layout {
        enc_width: round_up_even(width as int) as u64,
        enc_height: round_up_even(height as int) as u64,
    }
}

/// An encoded frame, or, for H.264, the layout the software encoder is to
/// work at (its colour conversion and bitstream come from the H.264 codec;
/// `frame_h264_output` then frames its output).
pub enum EncodedFrame {
    Bytes(Vec<u8>),
    H264Pending(H264Layout),
}

/// The bytes encoding `data` (a `width` x `height` RGBA frame) produces with
/// `encoding`, or `None` where encoding fails. H.264 is not described here.
pub open spec fn encoded_bytes(data: Seq<u8>, width: u32, height: u32, encoding: FrameEncoding) -> Option<Seq<u8>> {
    match encoding {
        FrameEncoding::RawRgba => Some(data),
        FrameEncoding::Jpeg => if 4 * width * height <= data.len() {
            jpeg_encoding(width, height, data)
        } else {
            None
        },
        FrameEncoding::Lz4 => Some(lz4_compressed(data)),
        FrameEncoding::H264 => None,
    }
}

/// The H.264 layout for a frame of the given dimensions.
pub fn h264_layout(width: u32, height: u32) -> (layout: H264Layout)
    ensures
        layout == h264_layout_of(width, height),
{
    let w: u64 = width as u64;
    let h: u64 = height as u64;
    let enc_width: u64 = if w % 2 == 0 { w } else { w + 1 };
    let enc_height: u64 = if h % 2 == 0 { h } else { h + 1 };
    H264Layout { enc_width, enc_height }
}

/// Whether the H.264 encoder must be made anew for a frame of `layout`: when
/// there is none yet (`current` is `None`), or the one there works at other
/// dimensions than the layout's (compared as 32-bit values).
pub fn needs_new_h264_encoder(current: Option<(u32, u32)>, layout: H264Layout) -> (fresh: bool)
    ensures
        fresh == match current {
            None => true,
            Some((w, h)) => w != layout.enc_width as u32 || h != layout.enc_height as u32,
        },
{
    match current {
        None => true,
        Some((w, h)) => {
            let ew: u32 = #[verifier::truncate] (layout.enc_width as u32);
            let eh: u32 = #[verifier::truncate] (layout.enc_height as u32);
            w != ew || h != eh
        },
    }
}

/// Encodes a captured frame for transport. Raw frames are copied, JPEG and
/// LZ4 go through their codecs; H.264 yields the layout the software encoder
/// is to use.
pub fn encode_frame(frame: &CapturedFrame, encoding: FrameEncoding) -> (r: Result<EncodedFrame, EncodeError>)
    ensures
        encoding == FrameEncoding::H264 ==> (r matches Ok(EncodedFrame::H264Pending(l)) && l
            == h264_layout_of(frame.width, frame.height)),
        encoding != FrameEncoding::H264 ==> match encoded_bytes(frame.data@, frame.width, frame.height, encoding) {
            Some(b) => r matches Ok(EncodedFrame::Bytes(v)) && v@ == b,
            None => r is Err,
        },
        encoding == FrameEncoding::Jpeg && 4 * frame.width * frame.height > frame.data@.len()
            ==> r matches Err(EncodeError::InvalidFrameBuffer),
        encoding == FrameEncoding::Jpeg && 4 * frame.width * frame.height <= frame.data@.len()
            && jpeg_encoding(frame.width, frame.height, frame.data@) is None ==> r matches Err(EncodeError::Image(_)),
        encoding == FrameEncoding::Lz4 ==> (r matches Ok(EncodedFrame::Bytes(v)) && {
            &&& v@.len() >= 4
            &&& v@.subrange(0, 4) == le_u32_bytes((frame.data@.len() as u32) as int)
            &&& frame.data@.len() <= u32::MAX ==> lz4_decompressed(v@) == Some(frame.data@)
        }),
        encoding == FrameEncoding::RawRgba ==> (r matches Ok(EncodedFrame::Bytes(v))
            && decoded_pixels(v@, encoding, frame.width, frame.height) == Some(frame.data@)),
        encoding == FrameEncoding::Lz4 && frame.data@.len() == frame.width * frame.height * 4
            && frame.width * frame.height * 4 <= u32::MAX ==> (r matches Ok(EncodedFrame::Bytes(v))
            && decoded_pixels(v@, encoding, frame.width, frame.height) == Some(frame.data@)),
{
    match encoding {
        FrameEncoding::RawRgba => Ok(EncodedFrame::Bytes(slice_to_vec(frame.data.as_slice()))),
        FrameEncoding::Jpeg => {
            let w: u128 = frame.width as u128;
            let h: u128 = frame.height as u128;
            assert(w * h <= 0xFFFF_FFFF * 0xFFFF_FFFF) by (nonlinear_arith)
                requires
                    w <= 0xFFFF_FFFF,
                    h <= 0xFFFF_FFFF,
            ;
            let needed: u128 = 4 * (w * h);
            assert(needed == 4 * frame.width * frame.height) by (nonlinear_arith)
                requires
                    needed == 4 * (w * h),
                    w == frame.width,
                    h == frame.height,
            ;
            if needed > frame.data.len() as u128 {
                return Err(EncodeError::InvalidFrameBuffer);
            }
            match jpeg_encode_rgba(frame.width, frame.height, slice_to_vec(frame.data.as_slice())) {
                Ok(v) => Ok(EncodedFrame::Bytes(v)),
                Err(e) => Err(EncodeError::Image(e)),
            }
        },
        FrameEncoding::Lz4 => Ok(EncodedFrame::Bytes(lz4_compress_prepend_size(frame.data.as_slice()))),
        FrameEncoding::H264 => Ok(EncodedFrame::H264Pending(h264_layout(frame.width, frame.height))),
    }
}

/// Appends the little-endian bytes of `x` to `buf`.
fn push_le_u32(buf: &mut Vec<u8>, x: u32)
    ensures
        final(buf)@ == old(buf)@ + le_u32_bytes(x as int),
{
    buf.push((x % 0x100) as u8);
    buf.push((x / 0x100 % 0x100) as u8);
    buf.push((x / 0x10000 % 0x100) as u8);
    buf.push((x / 0x1000000 % 0x100) as u8);
    assert(final(buf)@ =~= old(buf)@ + le_u32_bytes(x as int));
}

/// The framed output of the H.264 encoder: encoded width and height as
/// little-endian `u32` (truncated), then the bitstream.
pub open spec fn h264_output(layout: H264Layout, bitstream: Seq<u8>) -> Seq<u8> {
    le_u32_bytes((layout.enc_width as u32) as int) + le_u32_bytes((layout.enc_height as u32) as int)
        + bitstream
}

/// Frames an H.264 bitstream with the dimensions it was encoded at.
pub fn frame_h264_output(layout: H264Layout, bitstream: &[u8]) -> (out: Vec<u8>)
    ensures
        out@ == h264_output(layout, bitstream@),
{
    let mut out: Vec<u8> = Vec::new();
    push_le_u32(&mut out, layout.enc_width as u32);
    push_le_u32(&mut out, layout.enc_height as u32);
    append_bytes(&mut out, bitstream);
    out
}

// ─── Decoding ──────────────────────────────────────────────────────

/// An H.264 payload split into the dimensions it announces and its NAL units.
pub struct H264Payload {
    pub width: u32,
    pub height: u32,
    pub nal: Vec<u8>,
}

/// A decoded frame, or, for H.264, the payload the H.264 decoder is to turn
/// into pixels.
pub enum DecodedFrame {
    Pixels(Vec<u8>),
    H264Pending(H264Payload),
}

/// The pixels decoding `data` yields with `encoding` for a `width` x `height`
/// frame, or `None` where decoding fails. H.264 is not described here.
pub open spec fn decoded_pixels(data: Seq<u8>, encoding: FrameEncoding, width: u32, height: u32) -> Option<Seq<u8>> {
    match encoding {
        FrameEncoding::RawRgba => Some(data),
        FrameEncoding::Jpeg => jpeg_decoding(data),
        FrameEncoding::Lz4 => match lz4_decompressed(data) {
            Some(d) => if d.len() == width * height * 4 {
                Some(d)
            } else {
                None
            },
            None => None,
        },
        FrameEncoding::H264 => None,
    }
}

/// Checks that LZ4 output has the size of a `width` x `height` RGBA frame.
pub fn check_lz4_size(decompressed: Vec<u8>, width: u32, height: u32) -> (r: Result<Vec<u8>, FrameDecodeError>)
    requires
        width * height * 4 <= u32::MAX,
    ensures
        decompressed@.len() == width * height * 4 ==> (r matches Ok(v) && v@ == decompressed@),
        decompressed@.len() != width * height * 4 ==> (r matches Err(FrameDecodeError::Lz4SizeMismatch { expected, actual })
            && expected == width * height * 4 && actual == decompressed@.len()),
{
    let expected: usize = (width * height * 4) as usize;
    if decompressed.len() != expected {
        return Err(FrameDecodeError::Lz4SizeMismatch { expected, actual: decompressed.len() });
    }
    Ok(decompressed)
}

/// Splits an H.264 payload into its 8-byte dimension header (little-endian
/// width and height) and its NAL units; payloads shorter than the header are
/// refused.
pub fn split_h264_payload(data: &[u8]) -> (r: Result<H264Payload, FrameDecodeError>)
    ensures
        data@.len() < 8 ==> r matches Err(FrameDecodeError::H264TooShort),
        data@.len() >= 8 ==> (r matches Ok(p) && {
            &&& p.width == le_u32_value(data@[0], data@[1], data@[2], data@[3])
            &&& p.height == le_u32_value(data@[4], data@[5], data@[6], data@[7])
            &&& p.nal@ == data@.subrange(8, data@.len() as int)
        }),
{
    if data.len() < 8 {
        return Err(FrameDecodeError::H264TooShort);
    }
    let width: u32 = data[0] as u32 + data[1] as u32 * 0x100 + data[2] as u32 * 0x10000
        + data[3] as u32 * 0x1000000;
    let height: u32 = data[4] as u32 + data[5] as u32 * 0x100 + data[6] as u32 * 0x10000
        + data[7] as u32 * 0x1000000;
    let nal = slice_to_vec(slice_subrange(data, 8, data.len()));
    Ok(H264Payload { width, height, nal })
}

/// Decodes a received frame for display. Raw data is copied, JPEG and LZ4 go
/// through their codecs (LZ4 output must be exactly `width * height * 4`
/// bytes); for H.264 the payload is split for the H.264 decoder.
pub fn decode_frame(data: &[u8], encoding: FrameEncoding, width: u32, height: u32) -> (r: Result<DecodedFrame, FrameDecodeError>)
    requires
        encoding == FrameEncoding::Lz4 ==> width * height * 4 <= u32::MAX,
    ensures
        encoding != FrameEncoding::H264 ==> match decoded_pixels(data@, encoding, width, height) {
            Some(p) => r matches Ok(DecodedFrame::Pixels(v)) && v@ == p,
            None => r is Err,
        },
        encoding == FrameEncoding::Lz4 ==> match lz4_decompressed(data@) {
            None => r matches Err(FrameDecodeError::Lz4(_)),
            Some(d) => d.len() != width * height * 4 ==> (r matches Err(FrameDecodeError::Lz4SizeMismatch { expected, actual })
                && expected == width * height * 4 && actual == d.len()),
        },
        encoding == FrameEncoding::Jpeg && jpeg_decoding(data@) is None ==> r matches Err(FrameDecodeError::Image(_)),
        encoding == FrameEncoding::H264 && data@.len() < 8 ==> r matches Err(FrameDecodeError::H264TooShort),
        encoding == FrameEncoding::H264 && data@.len() >= 8 ==> (r matches Ok(DecodedFrame::H264Pending(p)) && {
            &&& p.width == le_u32_value(data@[0], data@[1], data@[2], data@[3])
            &&& p.height == le_u32_value(data@[4], data@[5], data@[6], data@[7])
            &&& p.nal@ == data@.subrange(8, data@.len() as int)
        }),
{
    match encoding {
        FrameEncoding::RawRgba => Ok(DecodedFrame::Pixels(slice_to_vec(data))),
        FrameEncoding::Jpeg => match jpeg_decode_rgba(data) {
            Ok(v) => Ok(DecodedFrame::Pixels(v)),
            Err(e) => Err(FrameDecodeError::Image(e)),
        },
        FrameEncoding::Lz4 => match lz4_decompress_size_prepended(data) {
            Ok(d) => match check_lz4_size(d, width, height) {
                Ok(v) => Ok(DecodedFrame::Pixels(v)),
                Err(e) => Err(e),
            },
            Err(e) => Err(FrameDecodeError::Lz4(e)),
        },
        FrameEncoding::H264 => match split_h264_payload(data) {
            Ok(p) => Ok(DecodedFrame::H264Pending(p)),
            Err(e) => Err(e),
        },
    }
}


proof fn lemma_le_u32_roundtrip(x: int)
    requires
        0 <= x < 0x100000000,
    ensures
        ({
            let b = le_u32_bytes(x);
            le_u32_value(b[0], b[1], b[2], b[3]) == x
        }),
{
    let b = le_u32_bytes(x);
    let a0 = x % 0x100;
    let a1 = (x / 0x100) % 0x100;
    let a2 = (x / 0x10000) % 0x100;
    let a3 = (x / 0x1000000) % 0x100;
    assert(0 <= a0 < 0x100 && 0 <= a1 < 0x100 && 0 <= a2 < 0x100 && 0 <= a3 < 0x100) by (nonlinear_arith)
        requires
            a0 == x % 0x100,
            a1 == (x / 0x100) % 0x100,
            a2 == (x / 0x10000) % 0x100,
            a3 == (x / 0x1000000) % 0x100,
    ;
    assert(b[0] == a0 && b[1] == a1 && b[2] == a2 && b[3] == a3);
    assert(a0 + a1 * 0x100 + a2 * 0x10000 + a3 * 0x1000000 == x) by (nonlinear_arith)
        requires
            0 <= x < 0x100000000,
            a0 == x % 0x100,
            a1 == (x / 0x100) % 0x100,
            a2 == (x / 0x10000) % 0x100,
            a3 == (x / 0x1000000) % 0x100,
    ;
}

/// Law: splitting framed H.264 output gives back the encoded dimensions
/// (as the 32-bit values written) and the bitstream unchanged.
pub proof fn lemma_h264_output_roundtrip(layout: H264Layout, bitstream: Seq<u8>)
    ensures
        ({
            let o = h264_output(layout, bitstream);
            &&& o.len() >= 8
            &&& le_u32_value(o[0], o[1], o[2], o[3]) == layout.enc_width as u32
            &&& le_u32_value(o[4], o[5], o[6], o[7]) == layout.enc_height as u32
            &&& o.subrange(8, o.len() as int) == bitstream
        }),
{
    let o = h264_output(layout, bitstream);
    let w = (layout.enc_width as u32) as int;
    let h = (layout.enc_height as u32) as int;
    lemma_le_u32_roundtrip(w);
    lemma_le_u32_roundtrip(h);
    let bw = le_u32_bytes(w);
    let bh = le_u32_bytes(h);
    assert(o[0] == bw[0] && o[1] == bw[1] && o[2] == bw[2] && o[3] == bw[3]);
    assert(o[4] == bh[0] && o[5] == bh[1] && o[6] == bh[2] && o[7] == bh[3]);
    assert(o.subrange(8, o.len() as int) =~= bitstream);
}

/// Law: the H.264 layout pads each side to the next even number, by at most
/// one pixel.
pub proof fn lemma_h264_layout_even(width: u32, height: u32)
    ensures
        h264_layout_of(width, height).enc_width % 2 == 0,
        h264_layout_of(width, height).enc_height % 2 == 0,
        width <= h264_layout_of(width, height).enc_width <= width + 1,
        height <= h264_layout_of(width, height).enc_height <= height + 1,
{
}

} // verus!
