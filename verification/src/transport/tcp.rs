//! The decisions of the loop that reads messages from a TCP connection.
use crate::protocol::{be_u32_value, decode_tcp_length, FrameLengthError, MAX_TCP_PAYLOAD};
use vstd::prelude::*;

verus! {

/// What a connection's read loop does after trying to read a length prefix.
pub enum ReadStep {
    /// Read a payload of this many bytes.
    ReadPayload(usize),
    /// The peer closed the connection: stop reading.
    Closed,
    /// The announced message is larger than `MAX_TCP_PAYLOAD`: stop reading.
    TooLarge(u32),
}

/// The step after reading a four-byte big-endian length prefix, or failing
/// to (`None`: the connection closed). Lengths above 100 MiB stop the loop.
pub fn after_length_prefix(prefix: Option<[u8; 4]>) -> (step: ReadStep)
    ensures
        prefix is None ==> step is Closed,
        prefix matches Some(p) ==> ({
            let v = be_u32_value(p@[0], p@[1], p@[2], p@[3]);
            &&& v <= MAX_TCP_PAYLOAD ==> (step matches ReadStep::ReadPayload(n) && n == v)
            &&& v > MAX_TCP_PAYLOAD ==> (step matches ReadStep::TooLarge(m) && m == v)
        }),
{
    match prefix {
        None => ReadStep::Closed,
        Some(p) => match decode_tcp_length(p) {
            Ok(n) => ReadStep::ReadPayload(n),
            Err(FrameLengthError::MessageTooLarge(m)) => ReadStep::TooLarge(m),
        },
    }
}

/// Whether the read loop goes on after a payload: a payload that does not
/// decode to a message is skipped; a decoded message is handed on, and the
/// loop stops once nobody takes the messages any more.
pub fn continue_after_payload(decoded: bool, delivered: bool) -> (go_on: bool)
    ensures
        go_on == (!decoded || delivered),
{
    !decoded || delivered
}

} // verus!
