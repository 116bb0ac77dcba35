//! Choosing which local ports to try when binding a transport.
use crate::protocol::{TCP_PORT, UDP_PORT};
use vstd::prelude::*;

verus! {

/// How many consecutive ports are tried when the first one is in use.
pub const MAX_PORT_RETRIES: u16 = 100;

/// The ports a transport tries, in order, starting from `start_port`: up to
/// `MAX_PORT_RETRIES` consecutive ports, stopping at the highest port number
/// 65535 (the next port number does not exist).
pub fn candidate_ports(start_port: u16) -> (ports: Vec<u16>)
    ensures
        ports@.len() == if start_port + 100 <= 65536 { 100 } else { 65536 - start_port },
        forall|i: int| 0 <= i < ports@.len() ==> #[trigger] ports@[i] == start_port + i,
{
    let mut ports: Vec<u16> = Vec::new();
    let mut offset: u16 = 0;
    while offset < MAX_PORT_RETRIES && offset <= 65535 - start_port
        invariant
            offset <= 100,
            offset <= 65536 - start_port,
            ports@.len() == offset,
            forall|i: int| 0 <= i < ports@.len() ==> #[trigger] ports@[i] == start_port + i,
        decreases 100 - offset,
    {
        ports.push(start_port + offset);
        offset = offset + 1;
    }
    ports
}

/// The port range named when every candidate port is in use: the first and
/// the last port tried.
pub fn exhausted_port_range(start_port: u16) -> (range: (u16, u16))
    requires
        start_port + 99 <= 65535,
    ensures
        range == (start_port, (start_port + 99) as u16),
{
    (start_port, start_port + (MAX_PORT_RETRIES - 1))
}

/// The ports the transports start binding from, as `(udp, tcp)`: the
/// default ports, or, with a TCP port given, that port for TCP and the next
/// one for UDP.
pub fn startup_ports(tcp_port_hint: Option<u16>) -> (ports: (u16, u16))
    requires
        tcp_port_hint != Some(65535u16),
    ensures
        tcp_port_hint is None ==> ports == (UDP_PORT, TCP_PORT),
        tcp_port_hint matches Some(p) ==> ports == ((p + 1) as u16, p),
{
    match tcp_port_hint {
        Some(p) => (p + 1, p),
        None => (UDP_PORT, TCP_PORT),
    }
}

} // verus!
