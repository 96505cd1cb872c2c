//! The TCP segment: the engine's view of one TCP-in-IPv4 Ethernet frame,
//! with a codec whose encode contract states that the output parses back
//! to the encoded fields.

use vstd::prelude::*;
use crate::fail::Fail;
use crate::ip::Ipv4Addr;
use crate::mac::MacAddress;
use crate::frames::{ETHERTYPE_IPV4, IPV4_PROTO_TCP, MAX_TCP_PAYLOAD, eth_dst_of, eth_src_of, ipv4_dst_of, ipv4_src_of, read_mac, udp_tcp_checksum, push_eth_ipv4, valid_eth_ipv4};
use crate::wire::{be16_at, be32_at, push_u16_be, push_u32_be, read_u16_be, read_u32_be};

verus! {

#[derive(Clone, Debug)]
pub struct TcpSegment {
    pub dest_ipv4_addr: Option<Ipv4Addr>,
    pub dest_port: Option<u16>,
    pub src_ipv4_addr: Option<Ipv4Addr>,
    pub src_port: Option<u16>,
    pub seq_num: u32,
    pub ack_num: u32,
    pub window_size: u16,
    pub syn: bool,
    pub ack: bool,
    pub rst: bool,
    pub mss: Option<u16>,
    pub payload: Vec<u8>,
}

/// `b` is a TCP-in-IPv4 Ethernet frame with a 20-byte IPv4 header and a
/// TCP header that is either bare or carries exactly one MSS option.
pub open spec fn valid_tcp(b: Seq<u8>) -> bool {
    &&& valid_eth_ipv4(b, IPV4_PROTO_TCP)
    &&& b.len() >= 54
    &&& (b[46] == 0x50u8 || b[46] == 0x60u8)
    &&& (b[46] == 0x60u8 ==> b.len() >= 58 && b[54] == 2u8 && b[55] == 4u8)
}

pub open spec fn tcp_header_len(b: Seq<u8>) -> int {
    if b[46] == 0x60u8 {
        24
    } else {
        20
    }
}

/// The fields of segment `s` are exactly those stored in frame `b`.
/// A zero port on the wire stands for "no port".
pub open spec fn tcp_fields_of(b: Seq<u8>, s: TcpSegment) -> bool {
    &&& s.src_ipv4_addr matches Some(a) && a.bits == ipv4_src_of(b)
    &&& s.dest_ipv4_addr matches Some(a) && a.bits == ipv4_dst_of(b)
    &&& s.src_port == (if be16_at(b, 34) == 0 {
        Option::<u16>::None
    } else {
        Option::<u16>::Some(be16_at(b, 34) as u16)
    })
    &&& s.dest_port == (if be16_at(b, 36) == 0 {
        Option::<u16>::None
    } else {
        Option::<u16>::Some(be16_at(b, 36) as u16)
    })
    &&& s.seq_num == be32_at(b, 38)
    &&& s.ack_num == be32_at(b, 42)
    &&& s.ack == (((b[47] as int) / 16) % 2 == 1)
    &&& s.rst == (((b[47] as int) / 4) % 2 == 1)
    &&& s.syn == (((b[47] as int) / 2) % 2 == 1)
    &&& s.window_size == be16_at(b, 48)
    &&& s.mss == (if b[46] == 0x60u8 {
        Option::<u16>::Some(be16_at(b, 56) as u16)
    } else {
        Option::<u16>::None
    })
    &&& s.payload@ == b.subrange(34 + tcp_header_len(b), b.len() as int)
}

impl TcpSegment {
    /// The all-empty segment the builder methods start from.
    pub fn empty() -> (r: TcpSegment)
        ensures
            r.dest_ipv4_addr.is_none(),
            r.dest_port.is_none(),
            r.src_ipv4_addr.is_none(),
            r.src_port.is_none(),
            r.seq_num == 0,
            r.ack_num == 0,
            r.window_size == 0,
            !r.syn,
            !r.ack,
            !r.rst,
            r.mss.is_none(),
            r.payload@.len() == 0,
    {
        TcpSegment {
            dest_ipv4_addr: None,
            dest_port: None,
            src_ipv4_addr: None,
            src_port: None,
            seq_num: 0,
            ack_num: 0,
            window_size: 0,
            syn: false,
            ack: false,
            rst: false,
            mss: None,
            payload: Vec::new(),
        }
    }

    /// Encodes the segment as a full Ethernet frame.  The destination and
    /// source addressing must have been filled in by the cast path.
    pub fn encode(&self, src_mac: &MacAddress, dst_mac: &MacAddress) -> (r: Vec<u8>)
        requires
            self.src_ipv4_addr.is_some(),
            self.dest_ipv4_addr.is_some(),
            self.src_port matches Some(p) && p != 0,
            self.dest_port matches Some(p) && p != 0,
            self.payload@.len() <= MAX_TCP_PAYLOAD,
            self.mss matches Some(m) ==> m != 0,
        ensures
            valid_tcp(r@),
            tcp_fields_of(r@, *self),
            eth_dst_of(r@) == dst_mac@,
            eth_src_of(r@) == src_mac@,
    {
        let mut v: Vec<u8> = Vec::new();
        let opts_len: u16 = if self.mss.is_some() {
            4
        } else {
            0
        };
        let l4_len: u16 = 20 + opts_len + (self.payload.len() as u16);
        let src_ip = match self.src_ipv4_addr {
            Some(a) => a,
            None => Ipv4Addr::new(0),
        };
        let dst_ip = match self.dest_ipv4_addr {
            Some(a) => a,
            None => Ipv4Addr::new(0),
        };
        push_eth_ipv4(&mut v, dst_mac, src_mac, IPV4_PROTO_TCP, src_ip, dst_ip, l4_len);
        let sport = match self.src_port {
            Some(p) => p,
            None => 0,
        };
        let dport = match self.dest_port {
            Some(p) => p,
            None => 0,
        };
        push_u16_be(&mut v, sport);
        push_u16_be(&mut v, dport);
        push_u32_be(&mut v, self.seq_num);
        push_u32_be(&mut v, self.ack_num);
        if self.mss.is_some() {
            v.push(0x60);
        } else {
            v.push(0x50);
        }
        let flags: u8 = (if self.ack {
            16u8
        } else {
            0u8
        }) + (if self.rst {
            4u8
        } else {
            0u8
        }) + (if self.syn {
            2u8
        } else {
            0u8
        });
        v.push(flags);
        push_u16_be(&mut v, self.window_size);
        push_u16_be(&mut v, 0);  // checksum placeholder
        push_u16_be(&mut v, 0);  // urgent pointer
        match self.mss {
            Some(m) => {
                v.push(2);
                v.push(4);
                push_u16_be(&mut v, m);
            },
            None => {},
        }
        let ghost hdr = v@;
        let mut j: usize = 0;
        while j < self.payload.len()
            invariant
                j <= self.payload@.len(),
                v@ == hdr + self.payload@.subrange(0, j as int),
            decreases self.payload@.len() - j,
        {
            v.push(self.payload[j]);
            j = j + 1;
            proof {
                assert(v@ =~= hdr + self.payload@.subrange(0, j as int));
            }
        }
        let ghost whole = v@;
        let cksum = udp_tcp_checksum(&v, src_ip, dst_ip, IPV4_PROTO_TCP);
        v[50] = (cksum / 0x100) as u8;
        v[51] = (cksum % 0x100) as u8;
        proof {
            assert(v@ =~= whole.update(50, ((cksum as int) / 0x100) as u8).update(
                51,
                ((cksum as int) % 0x100) as u8,
            ));
            assert(self.payload@.subrange(0, self.payload@.len() as int) =~= self.payload@);
            assert(v@.subrange(34 + tcp_header_len(v@), v@.len() as int) =~= self.payload@);
            assert(eth_dst_of(v@) =~= dst_mac@);
            assert(eth_src_of(v@) =~= src_mac@);
        }
        v
    }

    /// Decodes a frame into a segment and the two Ethernet addresses.
    /// Fails with `Malformed` exactly on frames that are not well-formed
    /// TCP-in-IPv4.
    pub fn decode(b: &[u8]) -> (r: Result<(TcpSegment, MacAddress, MacAddress), Fail>)
        ensures
            r.is_ok() == valid_tcp(b@),
            r matches Ok(t) ==> {
                &&& tcp_fields_of(b@, t.0)
                &&& t.1@ == eth_src_of(b@)
                &&& t.2@ == eth_dst_of(b@)
            },
            r matches Err(e) ==> e == Fail::Malformed,
    {
        if b.len() < 54 {
            return Err(Fail::Malformed);
        }
        if read_u16_be(b, 12) != ETHERTYPE_IPV4 || b[14] != 0x45 || b[23] != IPV4_PROTO_TCP {
            return Err(Fail::Malformed);
        }
        let offs = b[46];
        if offs != 0x50 && offs != 0x60 {
            return Err(Fail::Malformed);
        }
        let hdr_len: usize = if offs == 0x60 {
            24
        } else {
            20
        };
        if offs == 0x60 {
            if b.len() < 58 || b[54] != 2 || b[55] != 4 {
                return Err(Fail::Malformed);
            }
        }
        let sport = read_u16_be(b, 34);
        let dport = read_u16_be(b, 36);
        let flags = b[47];
        let mut payload: Vec<u8> = Vec::new();
        let mut j: usize = 34 + hdr_len;
        while j < b.len()
            invariant
                34 + hdr_len <= j <= b@.len(),
                payload@ == b@.subrange(34 + hdr_len as int, j as int),
            decreases b@.len() - j,
        {
            payload.push(b[j]);
            j = j + 1;
            proof {
                assert(payload@ =~= b@.subrange(34 + hdr_len as int, j as int));
            }
        }
        Ok(
            (
                TcpSegment {
                    dest_ipv4_addr: Some(Ipv4Addr::new(read_u32_be(b, 30))),
                    dest_port: if dport == 0 {
                        None
                    } else {
                        Some(dport)
                    },
                    src_ipv4_addr: Some(Ipv4Addr::new(read_u32_be(b, 26))),
                    src_port: if sport == 0 {
                        None
                    } else {
                        Some(sport)
                    },
                    seq_num: read_u32_be(b, 38),
                    ack_num: read_u32_be(b, 42),
                    window_size: read_u16_be(b, 48),
                    syn: (flags / 2) % 2 == 1,
                    ack: (flags / 16) % 2 == 1,
                    rst: (flags / 4) % 2 == 1,
                    mss: if offs == 0x60 {
                        Some(read_u16_be(b, 56))
                    } else {
                        None
                    },
                    payload,
                },
                read_mac(b, 6),
                read_mac(b, 0),
            ),
        )
    }
}

} // verus!
