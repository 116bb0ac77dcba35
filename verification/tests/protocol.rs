use iris_core::protocol::{
    decode_tcp_length, decode_udp_packet, encode_tcp_frame, encode_udp_packet, hello_message,
    local_capabilities, FrameEncoding, FrameLengthError, TcpMessage, MAGIC, MAX_TCP_PAYLOAD,
    MDNS_SERVICE_NAME, MDNS_SERVICE_TYPE, PROTOCOL_VERSION, TCP_PORT, UDP_PORT,
};

#[test]
fn constants_match_protocol() {
    assert_eq!(&MAGIC, b"IRIS");
    assert_eq!(PROTOCOL_VERSION, 1);
    assert_eq!(UDP_PORT, 21000);
    assert_eq!(TCP_PORT, 21001);
    assert_eq!(MAX_TCP_PAYLOAD, 100 * 1024 * 1024);
    assert_eq!(MDNS_SERVICE_TYPE, "_iris._udp.local.");
    assert_eq!(MDNS_SERVICE_NAME, "IRIS Screen Share");
}

#[test]
fn udp_packet_layout() {
    let packet = encode_udp_packet(&[1, 2, 3]);
    assert_eq!(packet, vec![b'I', b'R', b'I', b'S', 0, 0, 1, 0, 0, 0, 3, 1, 2, 3]);
}

#[test]
fn udp_packet_roundtrip() {
    let payload: Vec<u8> = (0..2000u32).map(|i| (i % 251) as u8).collect();
    let packet = encode_udp_packet(&payload);
    assert_eq!(decode_udp_packet(&packet), Some(payload));
    let empty = encode_udp_packet(&[]);
    assert_eq!(empty.len(), 11);
    assert_eq!(decode_udp_packet(&empty), Some(vec![]));
}

#[test]
fn udp_decode_refuses_malformed_packets() {
    assert_eq!(decode_udp_packet(&[b'I', b'R', b'I', b'S', 0, 0, 1, 0, 0, 0]), None);
    let mut packet = encode_udp_packet(&[5, 6]);
    packet[0] = b'X';
    assert_eq!(decode_udp_packet(&packet), None);
    let packet = encode_udp_packet(&[5, 6, 7]);
    assert_eq!(decode_udp_packet(&packet[..packet.len() - 1]), None);
}

#[test]
fn udp_decode_ignores_trailing_bytes_and_header_fields() {
    let mut packet = encode_udp_packet(&[5, 6]);
    packet[4] = 9;
    packet[5] = 7;
    packet.extend_from_slice(&[42, 43]);
    assert_eq!(decode_udp_packet(&packet), Some(vec![5, 6]));
}

#[test]
fn tcp_frame_layout_and_length() {
    let frame = encode_tcp_frame(b"abc");
    assert_eq!(frame, vec![0, 0, 0, 3, b'a', b'b', b'c']);
    let prefix = [frame[0], frame[1], frame[2], frame[3]];
    assert!(matches!(decode_tcp_length(prefix), Ok(3)));
    let big = vec![7u8; 70000];
    let frame = encode_tcp_frame(&big);
    assert_eq!(&frame[..4], &[0, 1, 0x11, 0x70]);
    assert!(matches!(decode_tcp_length([frame[0], frame[1], frame[2], frame[3]]), Ok(70000)));
}

#[test]
fn tcp_length_limit() {
    assert!(matches!(decode_tcp_length([0x06, 0x40, 0x00, 0x00]), Ok(104857600)));
    match decode_tcp_length([0x06, 0x40, 0x00, 0x01]) {
        Err(FrameLengthError::MessageTooLarge(n)) => assert_eq!(n, 104857601),
        Ok(_) => panic!("accepted an oversized message"),
    }
    assert!(matches!(
        decode_tcp_length([0xff, 0xff, 0xff, 0xff]),
        Err(FrameLengthError::MessageTooLarge(0xffff_ffff))
    ));
}

#[test]
fn encoding_codes() {
    let all = [FrameEncoding::RawRgba, FrameEncoding::Jpeg, FrameEncoding::Lz4, FrameEncoding::H264];
    for (i, e) in all.iter().enumerate() {
        assert_eq!(e.code() as usize, i);
        assert_eq!(FrameEncoding::from_code(e.code()), *e);
    }
    assert_eq!(FrameEncoding::from_code(4), FrameEncoding::Jpeg);
    assert_eq!(FrameEncoding::from_code(255), FrameEncoding::Jpeg);
}

#[test]
fn hello_carries_local_capabilities() {
    let m = hello_message("desk".to_string(), "linux".to_string(), "0.1.0".to_string());
    match m {
        TcpMessage::Hello(h) => {
            assert_eq!(h.device_name, "desk");
            assert_eq!(h.platform, "linux");
            assert_eq!(h.version, "0.1.0");
            assert_eq!(h.capabilities, local_capabilities());
            assert!(h.capabilities.screen_share && h.capabilities.file_transfer);
            assert_eq!(h.capabilities.max_resolution, (1920, 1080));
        }
        _ => panic!("not a hello"),
    }
}
