use iris_core::protocol::FrameEncoding;
use iris_core::screen::capture::{
    create_capture, AndroidCapture, CaptureError, CapturePlatform, CapturedFrame, FallbackCapture,
    PlatformCapture, ScreenCapture, WindowsCapture,
};
use iris_core::screen::encoder::{
    check_lz4_size, decode_frame, encode_frame, frame_h264_output, h264_layout, needs_new_h264_encoder,
    split_h264_payload,
    FrameDecodeError, DecodedFrame, EncodeError, EncodedFrame, H264Layout,
};

fn frame(width: u32, height: u32) -> CapturedFrame {
    let data: Vec<u8> = (0..(width * height * 4) as usize).map(|i| (i % 256) as u8).collect();
    CapturedFrame { width, height, data, timestamp_ms: 0 }
}

fn bytes(e: Result<EncodedFrame, EncodeError>) -> Vec<u8> {
    match e {
        Ok(EncodedFrame::Bytes(v)) => v,
        _ => panic!("expected encoded bytes"),
    }
}

fn pixels(d: Result<DecodedFrame, FrameDecodeError>) -> Vec<u8> {
    match d {
        Ok(DecodedFrame::Pixels(v)) => v,
        _ => panic!("expected pixels"),
    }
}

#[test]
fn raw_roundtrip() {
    let f = frame(3, 2);
    let encoded = bytes(encode_frame(&f, FrameEncoding::RawRgba));
    assert_eq!(encoded, f.data);
    assert_eq!(pixels(decode_frame(&encoded, FrameEncoding::RawRgba, 3, 2)), f.data);
}

#[test]
fn lz4_roundtrip_and_size_prefix() {
    let f = frame(16, 8);
    let encoded = bytes(encode_frame(&f, FrameEncoding::Lz4));
    assert_ne!(encoded, f.data);
    assert_eq!(&encoded[..4], &(512u32).to_le_bytes());
    assert_eq!(pixels(decode_frame(&encoded, FrameEncoding::Lz4, 16, 8)), f.data);
}

#[test]
fn lz4_size_mismatch() {
    let f = frame(4, 4);
    let encoded = bytes(encode_frame(&f, FrameEncoding::Lz4));
    match decode_frame(&encoded, FrameEncoding::Lz4, 4, 5) {
        Err(FrameDecodeError::Lz4SizeMismatch { expected, actual }) => {
            assert_eq!(expected, 80);
            assert_eq!(actual, 64);
        }
        _ => panic!("expected a size mismatch"),
    }
    assert!(matches!(check_lz4_size(vec![0; 8], 1, 2), Ok(v) if v.len() == 8));
    assert!(matches!(
        check_lz4_size(vec![0; 7], 1, 2),
        Err(FrameDecodeError::Lz4SizeMismatch { expected: 8, actual: 7 })
    ));
}

#[test]
fn lz4_malformed_input() {
    assert!(matches!(decode_frame(&[1, 2], FrameEncoding::Lz4, 1, 1), Err(FrameDecodeError::Lz4(_))));
    assert!(matches!(
        decode_frame(&[4, 0, 0, 0, 0xff], FrameEncoding::Lz4, 1, 1),
        Err(FrameDecodeError::Lz4(_))
    ));
}

#[test]
fn jpeg_encode_then_decode() {
    let f = frame(8, 8);
    let encoded = bytes(encode_frame(&f, FrameEncoding::Jpeg));
    assert_eq!(&encoded[..2], &[0xff, 0xd8]);
    let decoded = pixels(decode_frame(&encoded, FrameEncoding::Jpeg, 8, 8));
    assert_eq!(decoded.len(), 8 * 8 * 4);
}

#[test]
fn jpeg_short_buffer_is_refused() {
    let mut f = frame(4, 4);
    f.data.truncate(63);
    assert!(matches!(encode_frame(&f, FrameEncoding::Jpeg), Err(EncodeError::InvalidFrameBuffer)));
}

#[test]
fn jpeg_garbage_is_refused() {
    assert!(matches!(
        decode_frame(&[1, 2, 3, 4, 5], FrameEncoding::Jpeg, 1, 1),
        Err(FrameDecodeError::Image(_))
    ));
}

#[test]
fn h264_layout_pads_to_even() {
    assert_eq!(h264_layout(3, 5), H264Layout { enc_width: 4, enc_height: 6 });
    assert_eq!(h264_layout(1920, 1080), H264Layout { enc_width: 1920, enc_height: 1080 });
    assert_eq!(h264_layout(u32::MAX, 0), H264Layout { enc_width: 1u64 << 32, enc_height: 0 });
    match encode_frame(&frame(5, 3), FrameEncoding::H264) {
        Ok(EncodedFrame::H264Pending(l)) => assert_eq!(l, H264Layout { enc_width: 6, enc_height: 4 }),
        _ => panic!("expected an H.264 layout"),
    }
}

#[test]
fn h264_output_roundtrip() {
    let layout = H264Layout { enc_width: 640, enc_height: 480 };
    let out = frame_h264_output(layout, &[0, 0, 0, 1, 0x67]);
    assert_eq!(out, vec![0x80, 2, 0, 0, 0xe0, 1, 0, 0, 0, 0, 0, 1, 0x67]);
    let p = split_h264_payload(&out).ok().unwrap();
    assert_eq!((p.width, p.height), (640, 480));
    assert_eq!(p.nal, vec![0, 0, 0, 1, 0x67]);
    match decode_frame(&out, FrameEncoding::H264, 640, 480) {
        Ok(DecodedFrame::H264Pending(q)) => assert_eq!(q.nal, vec![0, 0, 0, 1, 0x67]),
        _ => panic!("expected an H.264 payload"),
    }
}

#[test]
fn h264_short_payload() {
    assert!(matches!(split_h264_payload(&[1, 2, 3]), Err(FrameDecodeError::H264TooShort)));
    assert!(matches!(
        decode_frame(&[0; 7], FrameEncoding::H264, 1, 1),
        Err(FrameDecodeError::H264TooShort)
    ));
}

#[test]
fn windows_capture_stub() {
    let mut c = WindowsCapture::new().ok().unwrap();
    assert_eq!(c.display_dimensions(), (1920, 1080));
    let f = c.capture_frame().ok().unwrap();
    assert_eq!((f.width, f.height), (1920, 1080));
    assert_eq!(f.data.len(), 1920 * 1080 * 4);
    assert!(f.data.iter().all(|b| *b == 0));
    let g = c.capture_frame().ok().unwrap();
    assert_eq!((g.width, g.height), (1920, 1080));
    assert_eq!(c.display_dimensions(), (1920, 1080));
}

#[test]
fn android_and_fallback_capture() {
    let mut a = AndroidCapture::new().ok().unwrap();
    assert_eq!(a.capture_frame(), Err(CaptureError::ManagedByFlutter));
    assert_eq!(a.display_dimensions(), (0, 0));
    let mut f = FallbackCapture::new().ok().unwrap();
    assert_eq!(f.capture_frame(), Err(CaptureError::NotImplemented));
    assert_eq!(f.display_dimensions(), (1920, 1080));
    assert_eq!(
        CaptureError::ManagedByFlutter.message(),
        "Android capture is managed by Flutter platform code"
    );
    assert_eq!(CaptureError::NotImplemented.message(), "Screen capture not implemented on this platform");
}

#[test]
fn capture_per_platform() {
    assert!(matches!(create_capture(CapturePlatform::Windows), Ok(PlatformCapture::Windows(_))));
    assert!(matches!(create_capture(CapturePlatform::Android), Ok(PlatformCapture::Android(_))));
    let mut other = create_capture(CapturePlatform::Other).ok().unwrap();
    assert!(matches!(other, PlatformCapture::Fallback(_)));
    assert_eq!(other.capture_frame(), Err(CaptureError::NotImplemented));
    assert_eq!(other.display_dimensions(), (1920, 1080));
}

#[test]
fn h264_encoder_is_made_anew_only_when_the_layout_changes() {
    let layout = H264Layout { enc_width: 1920, enc_height: 1080 };
    assert!(needs_new_h264_encoder(None, layout));
    assert!(!needs_new_h264_encoder(Some((1920, 1080)), layout));
    assert!(needs_new_h264_encoder(Some((1920, 1082)), layout));
    assert!(needs_new_h264_encoder(Some((1280, 1080)), layout));
}
