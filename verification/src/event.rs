//! The observable output of the engine: every externally visible effect
//! is one of these events, drained by the driver after each tick.

use vstd::prelude::*;
use crate::fail::Fail;
use crate::ip::Ipv4Addr;
use crate::tcp::TcpConnectionHandle;

verus! {

#[derive(Clone, Debug)]
pub enum Event {
    /// A finished frame to hand to the device.
    Transmit(Vec<u8>),
    /// A UDP payload delivered to an open local port.
    BytesReceived { protocol: u8, src_addr: Ipv4Addr, src_port: u16, dest_port: u16, payload: Vec<
        u8,
    > },
    /// A passive TCP connection finished its handshake.
    IncomingTcpConnection(TcpConnectionHandle),
    /// A TCP connection left the table.
    TcpConnectionClosed { handle: TcpConnectionHandle, error: Option<Fail> },
    /// A non-echo ICMPv4 message arrived.
    Icmpv4Error { kind: u8, code: u8, next_hop_mtu: u16, context: Vec<u8> },
}

} // verus!
