//! IPv4 addresses, ports and endpoints as the engine models them: an
//! address is its 32-bit value, a port a 16-bit number (zero is invalid).

use vstd::prelude::*;

verus! {

/// First port of the private (ephemeral) range the peer allocates from.
pub const FIRST_PRIVATE_PORT: u16 = 49152;

#[derive(Clone, Copy, Debug, PartialEq, Eq, Structural, Hash)]
pub struct Ipv4Addr {
    pub bits: u32,
}

impl Ipv4Addr {
    pub fn new(bits: u32) -> (r: Ipv4Addr)
        ensures
            r.bits == bits,
    {
        Ipv4Addr { bits }
    }

    pub fn from_octets(a: u8, b: u8, c: u8, d: u8) -> (r: Ipv4Addr)
        ensures
            r.bits == a * 0x1000000 + b * 0x10000 + c * 0x100 + d,
    {
        Ipv4Addr {
            bits: (a as u32) * 0x1000000 + (b as u32) * 0x10000 + (c as u32) * 0x100 + (d as u32),
        }
    }

    pub fn octet(&self, i: usize) -> (r: u8)
        requires
            i < 4,
        ensures
            r == ((self.bits as int) / (if i == 0 { 0x1000000int } else if i == 1 { 0x10000int } else if i
                == 2 { 0x100int } else { 1int })) % 0x100,
    {
        if i == 0 {
            ((self.bits / 0x1000000) % 0x100) as u8
        } else if i == 1 {
            ((self.bits / 0x10000) % 0x100) as u8
        } else if i == 2 {
            ((self.bits / 0x100) % 0x100) as u8
        } else {
            (self.bits % 0x100) as u8
        }
    }

    /// The limited-broadcast address 255.255.255.255.
    pub fn is_broadcast(&self) -> (r: bool)
        ensures
            r == (self.bits == 0xFFFF_FFFFu32),
    {
        self.bits == 0xFFFF_FFFF
    }

    /// Class-D multicast: the top four bits are 1110.
    pub fn is_multicast(&self) -> (r: bool)
        ensures
            r == (self.bits / 0x1000_0000 == 0xE),
    {
        self.bits / 0x1000_0000 == 0xE
    }

    pub fn is_unspecified(&self) -> (r: bool)
        ensures
            r == (self.bits == 0),
    {
        self.bits == 0
    }
}

#[derive(Clone, Copy, Debug, PartialEq, Eq, Structural, Hash)]
pub struct Endpoint {
    pub addr: Ipv4Addr,
    pub port: u16,
}

impl Endpoint {
    pub fn new(addr: Ipv4Addr, port: u16) -> (r: Endpoint)
        ensures
            r.addr == addr,
            r.port == port,
    {
        Endpoint { addr, port }
    }
}

pub fn is_private_port(port: u16) -> (r: bool)
    ensures
        r == (port >= FIRST_PRIVATE_PORT),
{
    port >= FIRST_PRIVATE_PORT
}

} // verus!
