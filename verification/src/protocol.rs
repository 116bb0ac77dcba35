//! Message definitions for UDP streaming and TCP control/file transfer,
//! and the byte framing that carries them.
use vstd::prelude::*;
use vstd::slice::{slice_subrange, slice_to_vec};

verus! {

/// First four bytes of every UDP packet: the ASCII text `IRIS`.
pub const MAGIC: [u8; 4] = [0x49, 0x52, 0x49, 0x53];

pub const PROTOCOL_VERSION: u16 = 1;

/// Default UDP port (screen streaming).
pub const UDP_PORT: u16 = 21000;

/// Default TCP port (control and file transfer).
pub const TCP_PORT: u16 = 21001;

/// mDNS service type under which IRIS instances advertise and browse.
pub const MDNS_SERVICE_TYPE: &'static str = "_iris._udp.local.";

/// Human-readable name of the IRIS mDNS service.
pub const MDNS_SERVICE_NAME: &'static str = "IRIS Screen Share";

/// Length of the fixed UDP packet header: magic, kind, version, payload length.
pub const UDP_HEADER_LEN: usize = 11;

/// Largest TCP message payload a receiver accepts (100 MiB).
pub const MAX_TCP_PAYLOAD: u32 = 104857600;

// ─── UDP messages (screen streaming) ───────────────────────────────

/// How a frame's pixels are encoded.
#[derive(Clone, Copy, Debug, PartialEq, Eq, Structural)]
pub enum FrameEncoding {
    /// Raw RGBA pixels, no compression (wire code 0).
    RawRgba,
    /// JPEG-compressed frame (wire code 1).
    Jpeg,
    /// LZ4-compressed raw pixels (wire code 2).
    Lz4,
    /// H.264 software encoding (wire code 3).
    H264,
}

/// The wire code of an encoding.
pub open spec fn encoding_code(e: FrameEncoding) -> u8 {
    match e {
        FrameEncoding::RawRgba => 0,
        FrameEncoding::Jpeg => 1,
        FrameEncoding::Lz4 => 2,
        FrameEncoding::H264 => 3,
    }
}

/// The encoding a wire code selects; unknown codes select JPEG.
pub open spec fn encoding_for_code(code: u8) -> FrameEncoding {
    if code == 0 {
        FrameEncoding::RawRgba
    } else if code == 1 {
        FrameEncoding::Jpeg
    } else if code == 2 {
        FrameEncoding::Lz4
    } else if code == 3 {
        FrameEncoding::H264
    } else {
        FrameEncoding::Jpeg
    }
}

impl FrameEncoding {
    /// The encoding's wire code (0 raw, 1 JPEG, 2 LZ4, 3 H.264).
    pub fn code(self) -> (c: u8)
        ensures
            c == encoding_code(self),
    {
        match self {
            FrameEncoding::RawRgba => 0,
            FrameEncoding::Jpeg => 1,
            FrameEncoding::Lz4 => 2,
            FrameEncoding::H264 => 3,
        }
    }

    /// The encoding a wire code selects; an unknown code selects JPEG.
    pub fn from_code(code: u8) -> (e: FrameEncoding)
        ensures
            e == encoding_for_code(code),
    {
        if code == 0 {
            FrameEncoding::RawRgba
        } else if code == 1 {
            FrameEncoding::Jpeg
        } else if code == 2 {
            FrameEncoding::Lz4
        } else if code == 3 {
            FrameEncoding::H264
        } else {
            FrameEncoding::Jpeg
        }
    }
}

/// Law: every encoding is selected again by its own wire code.
pub proof fn lemma_encoding_code_roundtrip(e: FrameEncoding)
    ensures
        encoding_for_code(encoding_code(e)) == e,
{
}

/// Stream control actions.
#[derive(Clone, Copy, Debug, PartialEq, Eq, Structural)]
pub enum StreamAction {
    Pause,
    Resume,
    Stop,
}

/// One chunk of an encoded screen frame.
#[derive(Clone, Debug, PartialEq, Eq)]
pub struct FrameChunk {
    /// Monotonically increasing frame id.
    pub frame_id: u64,
    /// Total number of chunks in this frame.
    pub total_chunks: u32,
    /// Index of this chunk, from 0.
    pub chunk_index: u32,
    /// Screen width in pixels.
    pub width: u32,
    /// Screen height in pixels.
    pub height: u32,
    /// How the frame is encoded.
    pub encoding: FrameEncoding,
    /// This chunk's bytes of the encoded frame.
    pub data: Vec<u8>,
}

/// The abstract value of a frame chunk.
pub struct ChunkView {
    pub frame_id: u64,
    pub total_chunks: u32,
    pub chunk_index: u32,
    pub width: u32,
    pub height: u32,
    pub encoding: FrameEncoding,
    pub data: Seq<u8>,
}

impl View for FrameChunk {
    type V = ChunkView;

    open spec fn view(&self) -> ChunkView {
        ChunkView {
            frame_id: self.frame_id,
            total_chunks: self.total_chunks,
            chunk_index: self.chunk_index,
            width: self.width,
            height: self.height,
            encoding: self.encoding,
            data: self.data@,
        }
    }
}

/// UDP packet contents for screen streaming.
#[derive(Clone, Debug, PartialEq, Eq)]
pub enum UdpMessage {
    /// A chunk of an encoded screen frame.
    FrameChunk(FrameChunk),
    /// Request a keyframe (for viewers joining mid-stream).
    KeyFrameRequest,
    /// Acknowledge received chunks (lightweight flow control).
    Ack { frame_id: u64, chunk_count: u32 },
    /// Pause, resume or stop the stream.
    StreamControl { action: StreamAction },
}

// ─── TCP messages (control and file transfer) ──────────────────────

/// What a device can do.
#[derive(Clone, Copy, Debug, PartialEq, Eq)]
pub struct Capabilities {
    pub screen_share: bool,
    pub file_transfer: bool,
    pub max_resolution: (u32, u32),
}

/// Handshake information.
#[derive(Clone, Debug, PartialEq, Eq)]
pub struct HelloInfo {
    pub device_name: String,
    pub platform: String,
    pub version: String,
    pub capabilities: Capabilities,
}

/// A device on the local network.
#[derive(Clone, Debug, PartialEq, Eq)]
pub struct DeviceInfo {
    pub device_id: String,
    pub device_name: String,
    pub platform: String,
    pub ip_addresses: Vec<String>,
    pub capabilities: Capabilities,
}

/// The abstract value of a device description.
pub struct DeviceView {
    pub device_id: Seq<char>,
    pub device_name: Seq<char>,
    pub platform: Seq<char>,
    pub ip_addresses: Seq<Seq<char>>,
    pub capabilities: Capabilities,
}

impl View for DeviceInfo {
    type V = DeviceView;

    open spec fn view(&self) -> DeviceView {
        DeviceView {
            device_id: self.device_id@,
            device_name: self.device_name@,
            platform: self.platform@,
            ip_addresses: self.ip_addresses@.map_values(|a: String| a@),
            capabilities: self.capabilities,
        }
    }
}

/// Copies a list of strings.
pub fn copy_strings(v: &Vec<String>) -> (out: Vec<String>)
    ensures
        out@.map_values(|a: String| a@) == v@.map_values(|a: String| a@),
{
    let mut out: Vec<String> = Vec::new();
    let mut i: usize = 0;
    while i < v.len()
        invariant
            i <= v@.len(),
            out@.len() == i,
            forall|k: int| 0 <= k < i ==> (#[trigger] out@[k])@ == v@[k]@,
        decreases v@.len() - i,
    {
        out.push(v[i].clone());
        i = i + 1;
    }
    assert(out@.map_values(|a: String| a@) =~= v@.map_values(|a: String| a@));
    out
}

impl DeviceInfo {
    /// A copy of this device description.
    pub fn duplicate(&self) -> (d: DeviceInfo)
        ensures
            d@ == self@,
    {
        DeviceInfo {
            device_id: self.device_id.clone(),
            device_name: self.device_name.clone(),
            platform: self.platform.clone(),
            ip_addresses: copy_strings(&self.ip_addresses),
            capabilities: self.capabilities,
        }
    }
}

/// A file offered for transfer.
#[derive(Clone, Debug, PartialEq, Eq)]
pub struct FileInfo {
    pub file_id: u64,
    pub name: String,
    pub size: u64,
    pub mime_type: String,
}

/// TCP message envelope.
#[derive(Clone, Debug, PartialEq, Eq)]
pub enum TcpMessage {
    Hello(HelloInfo),
    HelloAck { session_id: u64 },
    DeviceAnnounce(DeviceInfo),
    DeviceQuery,
    DeviceList(Vec<DeviceInfo>),
    StartScreenShare { quality: u8, max_fps: u8 },
    StopScreenShare,
    ScreenShareStarted { udp_port: u16, session_id: u64 },
    FileListRequest,
    FileListResponse(Vec<FileInfo>),
    FileTransferRequest { file_id: u64 },
    FileTransferAccept { file_id: u64, chunk_size: u32 },
    FileTransferReject { file_id: u64, reason: String },
    FileChunk { file_id: u64, offset: u64, data: Vec<u8> },
    FileTransferComplete { file_id: u64 },
    Error { code: u32, message: String },
    Ping,
    Pong,
}

/// The capabilities this implementation announces: screen sharing and file
/// transfer, up to 1920x1080.
pub fn local_capabilities() -> (c: Capabilities)
    ensures
        c == (Capabilities { screen_share: true, file_transfer: true, max_resolution: (1920u32, 1080u32) }),
{
    Capabilities { screen_share: true, file_transfer: true, max_resolution: (1920, 1080) }
}

/// The handshake a device sends after connecting: its name, platform,
/// software version and `local_capabilities`.
pub fn hello_message(device_name: String, platform: String, version: String) -> (m: TcpMessage)
    ensures
        m matches TcpMessage::Hello(h) && h.device_name == device_name && h.platform == platform
            && h.version == version && h.capabilities == (Capabilities {
            screen_share: true,
            file_transfer: true,
            max_resolution: (1920u32, 1080u32),
        }),
{
    TcpMessage::Hello(HelloInfo { device_name, platform, version, capabilities: local_capabilities() })
}

// ─── Framing ───────────────────────────────────────────────────────

/// The magic bytes as a sequence.
pub open spec fn magic_seq() -> Seq<u8> {
    seq![0x49u8, 0x52u8, 0x49u8, 0x53u8]
}

/// Big-endian bytes of a 32-bit value `x` (0 <= x < 2^32).
pub open spec fn be_u32_bytes(x: int) -> Seq<u8> {
    seq![
        ((x / 0x1000000) % 0x100) as u8,
        ((x / 0x10000) % 0x100) as u8,
        ((x / 0x100) % 0x100) as u8,
        (x % 0x100) as u8,
    ]
}

/// Big-endian bytes of a 16-bit value `x` (0 <= x < 2^16).
pub open spec fn be_u16_bytes(x: int) -> Seq<u8> {
    seq![((x / 0x100) % 0x100) as u8, (x % 0x100) as u8]
}

/// The value of four big-endian bytes.
pub open spec fn be_u32_value(b0: u8, b1: u8, b2: u8, b3: u8) -> int {
    b0 * 0x1000000 + b1 * 0x10000 + b2 * 0x100 + b3
}

/// A UDP packet carrying `payload`: magic, packet kind 0, protocol version
/// (big endian), payload length truncated to 32 bits (big endian), payload.
pub open spec fn udp_packet(payload: Seq<u8>) -> Seq<u8> {
    magic_seq() + seq![0u8] + be_u16_bytes(PROTOCOL_VERSION as int)
        + be_u32_bytes((payload.len() as u32) as int) + payload
}

/// The payload a UDP packet carries, if it is well formed: at least the
/// header, the magic bytes in front, and as many bytes after the header as
/// the length field says (trailing bytes are ignored).
pub open spec fn udp_payload(data: Seq<u8>) -> Option<Seq<u8>> {
    if data.len() < 11 {
        None
    } else if data.subrange(0, 4) != magic_seq() {
        None
    } else {
        let n = be_u32_value(data[7], data[8], data[9], data[10]);
        if 11 + n <= data.len() {
            Some(data.subrange(11, 11 + n))
        } else {
            None
        }
    }
}

/// A TCP message frame: payload length truncated to 32 bits (big endian),
/// then the payload.
pub open spec fn tcp_frame(payload: Seq<u8>) -> Seq<u8> {
    be_u32_bytes((payload.len() as u32) as int) + payload
}

/// Four big-endian bytes decode back to the value they encode.
pub proof fn lemma_be_u32_roundtrip(x: int)
    requires
        0 <= x < 0x100000000,
    ensures
        ({
            let b = be_u32_bytes(x);
            be_u32_value(b[0], b[1], b[2], b[3]) == x
        }),
{
    let b = be_u32_bytes(x);
    let a0 = (x / 0x1000000) % 0x100;
    let a1 = (x / 0x10000) % 0x100;
    let a2 = (x / 0x100) % 0x100;
    let a3 = x % 0x100;
    assert(0 <= a0 < 0x100 && 0 <= a1 < 0x100 && 0 <= a2 < 0x100 && 0 <= a3 < 0x100) by (nonlinear_arith)
        requires a0 == (x / 0x1000000) % 0x100, a1 == (x / 0x10000) % 0x100,
            a2 == (x / 0x100) % 0x100, a3 == x % 0x100;
    assert(b[0] == a0 && b[1] == a1 && b[2] == a2 && b[3] == a3);
    assert(a0 * 0x1000000 + a1 * 0x10000 + a2 * 0x100 + a3 == x) by (nonlinear_arith)
        requires
            0 <= x < 0x100000000,
            a0 == (x / 0x1000000) % 0x100,
            a1 == (x / 0x10000) % 0x100,
            a2 == (x / 0x100) % 0x100,
            a3 == x % 0x100,
    ;
}

/// Appends the big-endian bytes of `x` to `buf`.
fn push_be_u32(buf: &mut Vec<u8>, x: u32)
    ensures
        final(buf)@ == old(buf)@ + be_u32_bytes(x as int),
{
    buf.push((x / 0x1000000 % 0x100) as u8);
    buf.push((x / 0x10000 % 0x100) as u8);
    buf.push((x / 0x100 % 0x100) as u8);
    buf.push((x % 0x100) as u8);
    assert(final(buf)@ =~= old(buf)@ + be_u32_bytes(x as int));
}

/// Appends the bytes of `data` to `buf`.
pub(crate) fn append_bytes(buf: &mut Vec<u8>, data: &[u8])
    ensures
        final(buf)@ == old(buf)@ + data@,
{
    let ghost head = buf@;
    let mut i: usize = 0;
    while i < data.len()
        invariant
            0 <= i <= data@.len(),
            buf@ == head + data@.subrange(0, i as int),
        decreases data@.len() - i,
    {
        buf.push(data[i]);
        i = i + 1;
        assert(buf@ =~= head + data@.subrange(0, i as int));
    }
    assert(data@.subrange(0, data@.len() as int) =~= data@);
}

/// Frames a payload as a UDP packet: magic, kind 0, version, length, payload.
/// A payload of 2^32 bytes or more has its length field truncated, as the
/// protocol's 32-bit length field cannot hold it.
pub fn encode_udp_packet(payload: &[u8]) -> (packet: Vec<u8>)
    ensures
        packet@ == udp_packet(payload@),
{
    let mut buf: Vec<u8> = Vec::with_capacity(1024);
    buf.push(MAGIC[0]);
    buf.push(MAGIC[1]);
    buf.push(MAGIC[2]);
    buf.push(MAGIC[3]);
    buf.push(0u8);
    buf.push((PROTOCOL_VERSION / 0x100) as u8);
    buf.push((PROTOCOL_VERSION % 0x100) as u8);
    let n: u32 = payload.len() as u32;
    push_be_u32(&mut buf, n);
    let ghost head = buf@;
    append_bytes(&mut buf, payload);
    assert(head =~= magic_seq() + seq![0u8] + be_u16_bytes(PROTOCOL_VERSION as int)
        + be_u32_bytes((payload@.len() as u32) as int));
    buf
}


/// Extracts the payload of a UDP packet. Returns `None` when the packet is
/// shorter than the header, does not start with the magic bytes, or is
/// shorter than its length field says.
pub fn decode_udp_packet(data: &[u8]) -> (payload: Option<Vec<u8>>)
    ensures
        match payload {
            Some(p) => udp_payload(data@) == Some(p@),
            None => udp_payload(data@) is None,
        },
{
    if data.len() < UDP_HEADER_LEN {
        return None;
    }
    if data[0] != MAGIC[0] || data[1] != MAGIC[1] || data[2] != MAGIC[2] || data[3] != MAGIC[3] {
        assert(data@.subrange(0, 4) != magic_seq()) by {
            if data@.subrange(0, 4) == magic_seq() {
                assert(data@.subrange(0, 4)[0] == data@[0]);
                assert(data@.subrange(0, 4)[1] == data@[1]);
                assert(data@.subrange(0, 4)[2] == data@[2]);
                assert(data@.subrange(0, 4)[3] == data@[3]);
            }
        }
        return None;
    }
    assert(data@.subrange(0, 4) =~= magic_seq());
    let n: u32 = data[7] as u32 * 0x1000000 + data[8] as u32 * 0x10000 + data[9] as u32 * 0x100
        + data[10] as u32;
    let n: usize = n as usize;
    if n <= data.len() - UDP_HEADER_LEN {
        Some(slice_to_vec(slice_subrange(data, UDP_HEADER_LEN, UDP_HEADER_LEN + n)))
    } else {
        None
    }
}

/// Frames a TCP message payload: its length as four big-endian bytes, then
/// the payload. A payload of 2^32 bytes or more has its length truncated.
pub fn encode_tcp_frame(payload: &[u8]) -> (frame: Vec<u8>)
    ensures
        frame@ == tcp_frame(payload@),
{
    let mut buf: Vec<u8> = Vec::new();
    push_be_u32(&mut buf, payload.len() as u32);
    let ghost head = buf@;
    append_bytes(&mut buf, payload);
    buf
}

/// Why a TCP length prefix was refused.
pub enum FrameLengthError {
    /// The announced payload is larger than `MAX_TCP_PAYLOAD`.
    MessageTooLarge(u32),
}

/// Reads the four-byte big-endian length prefix of a TCP frame. Lengths above
/// 100 MiB are refused.
pub fn decode_tcp_length(prefix: [u8; 4]) -> (len: Result<usize, FrameLengthError>)
    ensures
        ({
            let v = be_u32_value(prefix@[0], prefix@[1], prefix@[2], prefix@[3]);
            match len {
                Ok(n) => v <= MAX_TCP_PAYLOAD && n == v,
                Err(FrameLengthError::MessageTooLarge(m)) => v > MAX_TCP_PAYLOAD && m == v,
            }
        }),
{
    let v: u32 = prefix[0] as u32 * 0x1000000 + prefix[1] as u32 * 0x10000 + prefix[2] as u32
        * 0x100 + prefix[3] as u32;
    if v > MAX_TCP_PAYLOAD {
        Err(FrameLengthError::MessageTooLarge(v))
    } else {
        Ok(v as usize)
    }
}

/// Law: a framed UDP payload is read back unchanged, for every payload whose
/// length fits the 32-bit length field.
pub proof fn lemma_udp_packet_roundtrip(payload: Seq<u8>)
    requires
        payload.len() < 0x100000000,
    ensures
        udp_payload(udp_packet(payload)) == Some(payload),
{
    let pk = udp_packet(payload);
    let n = payload.len() as int;
    assert((payload.len() as u32) as int == n);
    lemma_be_u32_roundtrip(n);
    assert(pk.len() == 11 + n);
    assert(pk.subrange(0, 4) =~= magic_seq());
    let b = be_u32_bytes(n);
    assert(pk[7] == b[0] && pk[8] == b[1] && pk[9] == b[2] && pk[10] == b[3]);
    assert(pk.subrange(11, 11 + n) =~= payload);
}

/// Law: the length prefix of a framed TCP payload reads back as the payload's
/// length whenever the receiver accepts that size; a larger payload is
/// refused as too large.
pub proof fn lemma_tcp_frame_length(payload: Seq<u8>)
    requires
        payload.len() < 0x100000000,
    ensures
        ({
            let f = tcp_frame(payload);
            let v = be_u32_value(f[0], f[1], f[2], f[3]);
            &&& v == payload.len()
            &&& f.subrange(4, f.len() as int) == payload
        }),
{
    let n = payload.len() as int;
    assert((payload.len() as u32) as int == n);
    lemma_be_u32_roundtrip(n);
    let f = tcp_frame(payload);
    assert(f.subrange(4, f.len() as int) =~= payload);
}

} // verus!
