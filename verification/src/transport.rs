//! Transport logic: UDP frame chunking and reassembly, the decisions of the
//! TCP read loop, and port selection.

pub mod ports;
pub mod tcp;
pub mod udp;
