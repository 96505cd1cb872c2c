//! Configuration of the engine: local addressing and the per-protocol
//! timing parameters.

use vstd::prelude::*;
use crate::clock::Duration;
use crate::ip::Ipv4Addr;
use crate::mac::MacAddress;

verus! {

#[derive(Clone, Copy, Debug)]
pub struct ArpOptions {
    /// Default TTL for learned cache entries; `None` means entries never
    /// expire.
    pub default_ttl: Option<Duration>,
    pub request_retries: usize,
    pub request_timeout: Duration,
}

#[derive(Clone, Copy, Debug)]
pub struct TcpOptions {
    pub handshake_retries: usize,
    pub handshake_timeout: Duration,
    /// The receive window advertised in every emitted segment.
    pub receive_window_size: u16,
    /// How long a received payload may wait before a pure ACK is emitted.
    pub trailing_ack_delay: Duration,
    /// The initial retransmission timeout of every connection.
    pub rto: Duration,
}

#[derive(Clone, Copy, Debug)]
pub struct Options {
    /// Source for all emitted frames.
    pub my_link_addr: MacAddress,
    /// Source for all emitted IPv4 datagrams; matched on ingress.
    pub my_ipv4_addr: Ipv4Addr,
    pub arp: ArpOptions,
    pub tcp: TcpOptions,
}

impl Options {
    pub fn new(my_link_addr: MacAddress, my_ipv4_addr: Ipv4Addr) -> (r: Options)
        ensures
            r.my_link_addr == my_link_addr,
            r.my_ipv4_addr == my_ipv4_addr,
            r.arp.request_retries == 5,
            r.arp.request_timeout.ns == 1_000_000_000,
            r.tcp.handshake_retries == 5,
            r.tcp.handshake_timeout.ns == 3_000_000_000,
            r.tcp.receive_window_size == 0xFFFF,
            r.tcp.trailing_ack_delay.ns == 5_000_000,
            r.tcp.rto.ns == 1_000_000_000,
    {
        Options {
            my_link_addr,
            my_ipv4_addr,
            arp: ArpOptions {
                default_ttl: Some(Duration { ns: 15_000_000_000 }),
                request_retries: 5,
                request_timeout: Duration { ns: 1_000_000_000 },
            },
            tcp: TcpOptions {
                handshake_retries: 5,
                handshake_timeout: Duration { ns: 3_000_000_000 },
                receive_window_size: 0xFFFF,
                trailing_ack_delay: Duration { ns: 5_000_000 },
                rto: Duration { ns: 1_000_000_000 },
            },
        }
    }
}

} // verus!
