//! IRIS core: the verified logic of a LAN screen- and file-sharing engine.
//!
//! UDP carries screen frames split into chunks; TCP carries length-prefixed
//! control and file-transfer messages; mDNS finds peers on the local network.
//! This crate holds the message model, the wire framing, frame chunking and
//! reassembly, frame encoding, file-transfer bookkeeping and the discovery
//! registry, each with its contract.

pub mod protocol;
pub mod transport;
pub mod screen;
pub mod file_transfer;
pub mod discovery;
pub mod frame_text;
