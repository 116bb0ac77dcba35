use iris_core::frame_text::{bytes_to_text, decode_frame_text, text_to_bytes, FrameTextError};
use iris_core::protocol::FrameEncoding;
use iris_core::screen::capture::CapturedFrame;
use iris_core::screen::encoder::{encode_frame, DecodedFrame, EncodedFrame, FrameDecodeError};

#[test]
fn bytes_to_text_is_padded_standard_base64() {
    assert_eq!(bytes_to_text(b"hello"), "aGVsbG8=");
    assert_eq!(bytes_to_text(b""), "");
    assert_eq!(bytes_to_text(&[0xfb, 0xff]), "+/8=");
    assert_eq!(bytes_to_text(b"abc").len(), 4);
    assert_eq!(bytes_to_text(b"abcd").len(), 8);
}

#[test]
fn text_round_trips_to_the_same_bytes() {
    let data: Vec<u8> = (0..=255u8).collect();
    let text = bytes_to_text(&data);
    match text_to_bytes(&text) {
        Ok(back) => assert_eq!(back, data),
        Err(_) => panic!("own text refused"),
    }
}

#[test]
fn text_that_is_not_base64_is_refused() {
    assert!(matches!(text_to_bytes("not base64!"), Err(FrameTextError::Base64(_))));
    assert!(matches!(text_to_bytes("abc"), Err(FrameTextError::Base64(_))));
}

#[test]
fn raw_frame_text_decodes_to_its_bytes() {
    let text = bytes_to_text(&[1, 2, 3, 4]);
    match decode_frame_text(&text, 1, 1, 0) {
        Ok(DecodedFrame::Pixels(p)) => assert_eq!(p, vec![1, 2, 3, 4]),
        _ => panic!("expected pixels"),
    }
}

#[test]
fn lz4_frame_survives_encoding_text_and_decoding() {
    let data: Vec<u8> = (0..64u32).map(|i| (i * 7 % 256) as u8).collect();
    let frame = CapturedFrame { width: 4, height: 4, data: data.clone(), timestamp_ms: 0 };
    let encoded = match encode_frame(&frame, FrameEncoding::Lz4) {
        Ok(EncodedFrame::Bytes(v)) => v,
        _ => panic!("expected bytes"),
    };
    let text = bytes_to_text(&encoded);
    match decode_frame_text(&text, 4, 4, 2) {
        Ok(DecodedFrame::Pixels(p)) => assert_eq!(p, data),
        _ => panic!("expected pixels"),
    }
}

#[test]
fn bad_text_is_refused_before_decoding() {
    assert!(matches!(decode_frame_text("%%%", 1, 1, 0), Err(FrameTextError::Base64(_))));
}

#[test]
fn short_h264_text_is_refused() {
    let text = bytes_to_text(&[1, 2, 3]);
    assert!(matches!(
        decode_frame_text(&text, 1, 1, 3),
        Err(FrameTextError::Frame(FrameDecodeError::H264TooShort))
    ));
}

#[test]
fn h264_text_is_split_for_the_decoder() {
    let text = bytes_to_text(&[2, 0, 0, 0, 4, 0, 0, 0, 9, 8]);
    match decode_frame_text(&text, 2, 4, 3) {
        Ok(DecodedFrame::H264Pending(p)) => {
            assert_eq!((p.width, p.height), (2, 4));
            assert_eq!(p.nal, vec![9, 8]);
        }
        _ => panic!("expected an H.264 payload"),
    }
}

#[test]
fn unknown_code_decodes_as_jpeg() {
    let text = bytes_to_text(&[1, 2, 3, 4]);
    assert!(matches!(
        decode_frame_text(&text, 1, 1, 9),
        Err(FrameTextError::Frame(FrameDecodeError::Image(_)))
    ));
}
