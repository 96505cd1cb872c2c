//! Wire codecs for Ethernet II framing and the ARP, ICMPv4 and UDP
//! protocols.  Each `encode` states that its output parses back to the
//! encoded fields, so encode-then-decode identity is part of the contract.

use vstd::prelude::*;
use crate::ip::Ipv4Addr;
use crate::mac::MacAddress;
use crate::wire::{be16_at, be32_at, internet_checksum, push_u16_be, push_u32_be, read_u16_be, read_u32_be};

verus! {

pub const ETHERTYPE_IPV4: u16 = 0x0800;
pub const ETHERTYPE_ARP: u16 = 0x0806;

pub const IPV4_PROTO_ICMP: u8 = 1;
pub const IPV4_PROTO_TCP: u8 = 6;
pub const IPV4_PROTO_UDP: u8 = 17;

pub const ARP_OP_REQUEST: u16 = 1;
pub const ARP_OP_REPLY: u16 = 2;

pub const ICMP_ECHO_REQUEST: u8 = 8;
pub const ICMP_ECHO_REPLY: u8 = 0;

/// Largest UDP payload the wire format admits here: the frame length
/// must fit the IPv4 total-length field and the checksum's 16-bit frame
/// bound (14 + 20 + 8 + payload < 65536).
pub const MAX_UDP_PAYLOAD: usize = 65487;

/// Largest TCP payload likewise (14 + 20 + 24 + payload < 65536).
pub const MAX_TCP_PAYLOAD: usize = 65477;

pub fn push_mac(v: &mut Vec<u8>, m: &MacAddress)
    ensures
        final(v)@ == old(v)@ + m@,
        final(v)@.len() == old(v)@.len() + 6,
{
    v.push(m.o0);
    v.push(m.o1);
    v.push(m.o2);
    v.push(m.o3);
    v.push(m.o4);
    v.push(m.o5);
    proof {
        assert(v@ =~= old(v)@ + m@);
    }
}

pub fn read_mac(b: &[u8], i: usize) -> (r: MacAddress)
    requires
        i + 6 <= b@.len(),
    ensures
        r@ == b@.subrange(i as int, i + 6),
{
    let m = MacAddress::new([b[i], b[i + 1], b[i + 2], b[i + 3], b[i + 4], b[i + 5]]);
    proof {
        assert(m@ =~= b@.subrange(i as int, i + 6));
    }
    m
}

/// `b` carries an Ethernet II frame holding an IPv4 datagram with a
/// 20-byte header and the given protocol.
pub open spec fn valid_eth_ipv4(b: Seq<u8>, proto: u8) -> bool {
    &&& b.len() >= 34
    &&& be16_at(b, 12) == ETHERTYPE_IPV4
    &&& b[14] == 0x45u8
    &&& b[23] == proto
}

pub open spec fn ipv4_src_of(b: Seq<u8>) -> int {
    be32_at(b, 26)
}

pub open spec fn ipv4_dst_of(b: Seq<u8>) -> int {
    be32_at(b, 30)
}

pub open spec fn eth_dst_of(b: Seq<u8>) -> Seq<u8> {
    b.subrange(0, 6)
}

pub open spec fn eth_src_of(b: Seq<u8>) -> Seq<u8> {
    b.subrange(6, 12)
}

/// Appends the 14-byte Ethernet header and the 20-byte IPv4 header to an
/// empty buffer.  `l4_len` is the length in bytes of what will follow.
/// The IPv4 header checksum is computed over the finished header.
pub fn push_eth_ipv4(
    v: &mut Vec<u8>,
    dst_mac: &MacAddress,
    src_mac: &MacAddress,
    proto: u8,
    src_ip: Ipv4Addr,
    dst_ip: Ipv4Addr,
    l4_len: u16,
)
    requires
        old(v)@.len() == 0,
        l4_len + 20 <= u16::MAX,
    ensures
        final(v)@.len() == 34,
        valid_eth_ipv4(final(v)@, proto),
        eth_dst_of(final(v)@) == dst_mac@,
        eth_src_of(final(v)@) == src_mac@,
        ipv4_src_of(final(v)@) == src_ip.bits,
        ipv4_dst_of(final(v)@) == dst_ip.bits,
        be16_at(final(v)@, 16) == l4_len + 20,
{
    push_mac(v, dst_mac);
    push_mac(v, src_mac);
    push_u16_be(v, ETHERTYPE_IPV4);
    v.push(0x45);  // version 4, header length 5 words
    v.push(0x00);  // DSCP / ECN
    push_u16_be(v, l4_len + 20);  // total length
    push_u16_be(v, 0);  // identification
    push_u16_be(v, 0);  // flags / fragment offset
    v.push(64);  // TTL
    v.push(proto);
    push_u16_be(v, 0);  // checksum placeholder
    push_u32_be(v, src_ip.bits);
    push_u32_be(v, dst_ip.bits);
    let ghost before = v@;
    let cksum = internet_checksum(v.as_slice(), 14, 34);
    v[24] = (cksum / 0x100) as u8;
    v[25] = (cksum % 0x100) as u8;
    proof {
        assert(v@ =~= before.update(24, ((cksum as int) / 0x100) as u8).update(
            25,
            ((cksum as int) % 0x100) as u8,
        ));
        assert(eth_dst_of(v@) =~= dst_mac@);
        assert(eth_src_of(v@) =~= src_mac@);
    }
}

#[derive(Clone, Copy, Debug)]
pub struct ArpFrame {
    pub op: u16,
    pub sha: MacAddress,
    pub spa: Ipv4Addr,
    pub tha: MacAddress,
    pub tpa: Ipv4Addr,
    pub dst: MacAddress,
    pub src: MacAddress,
}

/// `b` is a well-formed 42-byte ARP frame for IPv4 over Ethernet.
pub open spec fn valid_arp(b: Seq<u8>) -> bool {
    &&& b.len() == 42
    &&& be16_at(b, 12) == ETHERTYPE_ARP
    &&& be16_at(b, 14) == 1  // hardware type: Ethernet
    &&& be16_at(b, 16) == ETHERTYPE_IPV4
    &&& b[18] == 6u8  // hardware address length
    &&& b[19] == 4u8  // protocol address length
    &&& (be16_at(b, 20) == ARP_OP_REQUEST || be16_at(b, 20) == ARP_OP_REPLY)
}

pub open spec fn arp_fields_of(b: Seq<u8>, f: ArpFrame) -> bool {
    &&& f.op == be16_at(b, 20)
    &&& f.sha@ == b.subrange(22, 28)
    &&& f.spa.bits == be32_at(b, 28)
    &&& f.tha@ == b.subrange(32, 38)
    &&& f.tpa.bits == be32_at(b, 38)
    &&& f.dst@ == eth_dst_of(b)
    &&& f.src@ == eth_src_of(b)
}

impl ArpFrame {
    pub fn encode(&self) -> (r: Vec<u8>)
        requires
            self.op == ARP_OP_REQUEST || self.op == ARP_OP_REPLY,
        ensures
            valid_arp(r@),
            arp_fields_of(r@, *self),
    {
        let mut v: Vec<u8> = Vec::new();
        push_mac(&mut v, &self.dst);
        push_mac(&mut v, &self.src);
        push_u16_be(&mut v, ETHERTYPE_ARP);
        push_u16_be(&mut v, 1);
        push_u16_be(&mut v, ETHERTYPE_IPV4);
        v.push(6);
        v.push(4);
        push_u16_be(&mut v, self.op);
        push_mac(&mut v, &self.sha);
        push_u32_be(&mut v, self.spa.bits);
        push_mac(&mut v, &self.tha);
        push_u32_be(&mut v, self.tpa.bits);
        proof {
            assert(v@.subrange(22, 28) =~= self.sha@);
            assert(v@.subrange(32, 38) =~= self.tha@);
            assert(eth_dst_of(v@) =~= self.dst@);
            assert(eth_src_of(v@) =~= self.src@);
        }
        v
    }

    pub fn decode(b: &[u8]) -> (r: Option<ArpFrame>)
        ensures
            r.is_some() == valid_arp(b@),
            r matches Some(f) ==> arp_fields_of(b@, f),
    {
        if b.len() != 42 {
            return None;
        }
        if read_u16_be(b, 12) != ETHERTYPE_ARP || read_u16_be(b, 14) != 1 || read_u16_be(b, 16)
            != ETHERTYPE_IPV4 || b[18] != 6 || b[19] != 4 {
            return None;
        }
        let op = read_u16_be(b, 20);
        if op != ARP_OP_REQUEST && op != ARP_OP_REPLY {
            return None;
        }
        Some(
            ArpFrame {
                op,
                sha: read_mac(b, 22),
                spa: Ipv4Addr::new(read_u32_be(b, 28)),
                tha: read_mac(b, 32),
                tpa: Ipv4Addr::new(read_u32_be(b, 38)),
                dst: read_mac(b, 0),
                src: read_mac(b, 6),
            },
        )
    }
}

/// Checksum of the transport segment `v[34..]` of a finished frame,
/// together with the IPv4 pseudo-header, as TCP and UDP require.
pub fn udp_tcp_checksum(v: &Vec<u8>, src: Ipv4Addr, dst: Ipv4Addr, proto: u8) -> (r: u16)
    requires
        v@.len() >= 34,
        v@.len() < 0x10000,
{
    let seg_len: u16 = (v.len() - 34) as u16;
    let mut ph: Vec<u8> = Vec::new();
    push_u32_be(&mut ph, src.bits);
    push_u32_be(&mut ph, dst.bits);
    ph.push(0);
    ph.push(proto);
    push_u16_be(&mut ph, seg_len);
    let mut j: usize = 34;
    while j < v.len()
        invariant
            34 <= j <= v@.len(),
            v@.len() < 0x10000,
            ph@.len() == 12 + j - 34,
        decreases v@.len() - j,
    {
        ph.push(v[j]);
        j = j + 1;
    }
    internet_checksum(ph.as_slice(), 0, ph.len())
}


/// Encodes the ICMPv4 destination-port-unreachable answer to a rejected
/// datagram; the failing datagram's IP header and leading bytes ride
/// along as context, as the protocol requires.
pub fn encode_port_unreachable(src_mac: &MacAddress, dst_mac: &MacAddress, src_ip: Ipv4Addr,
    dst_ip: Ipv4Addr, context: &[u8]) -> (r: Vec<u8>)
    requires
        context@.len() <= 548,
    ensures
        valid_icmp(r@),
        r@[34] == 3u8,
        r@[35] == 3u8,
        r@.subrange(42, r@.len() as int) == context@,
        ipv4_src_of(r@) == src_ip.bits,
        ipv4_dst_of(r@) == dst_ip.bits,
        eth_dst_of(r@) == dst_mac@,
{
    let mut v: Vec<u8> = Vec::new();
    let l4_len: u16 = 8 + (context.len() as u16);
    push_eth_ipv4(&mut v, dst_mac, src_mac, IPV4_PROTO_ICMP, src_ip, dst_ip, l4_len);
    v.push(3);  // destination unreachable
    v.push(3);  // port unreachable
    push_u16_be(&mut v, 0);  // checksum placeholder
    push_u32_be(&mut v, 0);  // unused
    let ghost hdr = v@;
    let mut j: usize = 0;
    while j < context.len()
        invariant
            j <= context@.len(),
            v@ == hdr + context@.subrange(0, j as int),
            hdr.len() == 42,
        decreases context@.len() - j,
    {
        v.push(context[j]);
        j = j + 1;
        proof {
            assert(v@ =~= hdr + context@.subrange(0, j as int));
        }
    }
    let ghost whole = v@;
    let end = v.len();
    let cksum = internet_checksum(v.as_slice(), 34, end);
    v[36] = (cksum / 0x100) as u8;
    v[37] = (cksum % 0x100) as u8;
    proof {
        assert(v@ =~= whole.update(36, ((cksum as int) / 0x100) as u8).update(
            37,
            ((cksum as int) % 0x100) as u8,
        ));
        assert(context@.subrange(0, context@.len() as int) =~= context@);
        assert(v@.subrange(42, v@.len() as int) =~= context@);
        assert(eth_dst_of(v@) =~= dst_mac@);
    }
    v
}

#[derive(Clone, Copy, Debug)]
pub struct EchoFrame {
    pub op: u8,
    pub id: u16,
    pub seq: u16,
    pub src: Ipv4Addr,
    pub dst: Ipv4Addr,
    pub src_mac: MacAddress,
    pub dst_mac: MacAddress,
}

/// `b` is a 42-byte ICMPv4 echo request or reply frame.
pub open spec fn valid_echo(b: Seq<u8>) -> bool {
    &&& valid_eth_ipv4(b, IPV4_PROTO_ICMP)
    &&& b.len() == 42
    &&& (b[34] == ICMP_ECHO_REQUEST || b[34] == ICMP_ECHO_REPLY)
    &&& b[35] == 0u8
}

pub open spec fn echo_fields_of(b: Seq<u8>, f: EchoFrame) -> bool {
    &&& f.op == b[34]
    &&& f.id == be16_at(b, 38)
    &&& f.seq == be16_at(b, 40)
    &&& f.src.bits == ipv4_src_of(b)
    &&& f.dst.bits == ipv4_dst_of(b)
    &&& f.src_mac@ == eth_src_of(b)
    &&& f.dst_mac@ == eth_dst_of(b)
}

impl EchoFrame {
    pub fn encode(&self) -> (r: Vec<u8>)
        requires
            self.op == ICMP_ECHO_REQUEST || self.op == ICMP_ECHO_REPLY,
        ensures
            valid_echo(r@),
            echo_fields_of(r@, *self),
    {
        let mut v: Vec<u8> = Vec::new();
        push_eth_ipv4(&mut v, &self.dst_mac, &self.src_mac, IPV4_PROTO_ICMP, self.src, self.dst, 8);
        v.push(self.op);
        v.push(0);
        push_u16_be(&mut v, 0);  // checksum placeholder
        push_u16_be(&mut v, self.id);
        push_u16_be(&mut v, self.seq);
        let ghost before = v@;
        let cksum = internet_checksum(v.as_slice(), 34, 42);
        v[36] = (cksum / 0x100) as u8;
        v[37] = (cksum % 0x100) as u8;
        proof {
            assert(eth_dst_of(v@) =~= self.dst_mac@);
            assert(eth_src_of(v@) =~= self.src_mac@);
        }
        v
    }

    pub fn decode(b: &[u8]) -> (r: Option<EchoFrame>)
        ensures
            r.is_some() == valid_echo(b@),
            r matches Some(f) ==> echo_fields_of(b@, f),
    {
        if b.len() != 42 {
            return None;
        }
        if read_u16_be(b, 12) != ETHERTYPE_IPV4 || b[14] != 0x45 || b[23] != IPV4_PROTO_ICMP {
            return None;
        }
        let op = b[34];
        if (op != ICMP_ECHO_REQUEST && op != ICMP_ECHO_REPLY) || b[35] != 0 {
            return None;
        }
        Some(
            EchoFrame {
                op,
                id: read_u16_be(b, 38),
                seq: read_u16_be(b, 40),
                src: Ipv4Addr::new(read_u32_be(b, 26)),
                dst: Ipv4Addr::new(read_u32_be(b, 30)),
                src_mac: read_mac(b, 6),
                dst_mac: read_mac(b, 0),
            },
        )
    }
}

/// A non-echo ICMPv4 message, surfaced to the driver as an error event.
#[derive(Clone, Debug)]
pub struct IcmpMessage {
    pub kind: u8,
    pub code: u8,
    pub next_hop_mtu: u16,
    pub src: Ipv4Addr,
    pub context: Vec<u8>,
}

/// `b` is an ICMPv4 frame of at least header size.
pub open spec fn valid_icmp(b: Seq<u8>) -> bool {
    &&& valid_eth_ipv4(b, IPV4_PROTO_ICMP)
    &&& b.len() >= 42
}

impl IcmpMessage {
    pub fn decode(b: &[u8]) -> (r: Option<IcmpMessage>)
        ensures
            r.is_some() == valid_icmp(b@),
            r matches Some(m) ==> {
                &&& m.kind == b@[34]
                &&& m.code == b@[35]
                &&& m.next_hop_mtu == be16_at(b@, 40)
                &&& m.src.bits == ipv4_src_of(b@)
                &&& m.context@ == b@.subrange(42, b@.len() as int)
            },
    {
        if b.len() < 42 {
            return None;
        }
        if read_u16_be(b, 12) != ETHERTYPE_IPV4 || b[14] != 0x45 || b[23] != IPV4_PROTO_ICMP {
            return None;
        }
        let mut context: Vec<u8> = Vec::new();
        let mut j: usize = 42;
        while j < b.len()
            invariant
                42 <= j <= b@.len(),
                context@ == b@.subrange(42, j as int),
            decreases b@.len() - j,
        {
            context.push(b[j]);
            j = j + 1;
            proof {
                assert(context@ =~= b@.subrange(42, j as int));
            }
        }
        Some(
            IcmpMessage {
                kind: b[34],
                code: b[35],
                next_hop_mtu: read_u16_be(b, 40),
                src: Ipv4Addr::new(read_u32_be(b, 26)),
                context,
            },
        )
    }
}

#[derive(Clone, Debug)]
pub struct UdpFrame {
    pub src: Ipv4Addr,
    pub dst: Ipv4Addr,
    pub src_port: u16,
    pub dest_port: u16,
    pub payload: Vec<u8>,
    pub src_mac: MacAddress,
    pub dst_mac: MacAddress,
}

/// `b` is a UDP-in-IPv4 Ethernet frame whose UDP length field agrees with
/// the frame length.
pub open spec fn valid_udp(b: Seq<u8>) -> bool {
    &&& valid_eth_ipv4(b, IPV4_PROTO_UDP)
    &&& b.len() >= 42
    &&& be16_at(b, 38) == b.len() - 34
}

pub open spec fn udp_fields_of(b: Seq<u8>, src_port: u16, dest_port: u16, payload: Seq<u8>, src: Ipv4Addr, dst: Ipv4Addr) -> bool {
    &&& src_port == be16_at(b, 34)
    &&& dest_port == be16_at(b, 36)
    &&& payload == b.subrange(42, b.len() as int)
    &&& src.bits == ipv4_src_of(b)
    &&& dst.bits == ipv4_dst_of(b)
}

impl UdpFrame {
    pub fn encode(&self) -> (r: Vec<u8>)
        requires
            self.payload@.len() <= MAX_UDP_PAYLOAD,
        ensures
            valid_udp(r@),
            udp_fields_of(r@, self.src_port, self.dest_port, self.payload@, self.src, self.dst),
            eth_dst_of(r@) == self.dst_mac@,
            eth_src_of(r@) == self.src_mac@,
    {
        let mut v: Vec<u8> = Vec::new();
        let udp_len: u16 = (self.payload.len() as u16) + 8;
        push_eth_ipv4(
            &mut v,
            &self.dst_mac,
            &self.src_mac,
            IPV4_PROTO_UDP,
            self.src,
            self.dst,
            udp_len,
        );
        push_u16_be(&mut v, self.src_port);
        push_u16_be(&mut v, self.dest_port);
        push_u16_be(&mut v, udp_len);
        push_u16_be(&mut v, 0);  // checksum placeholder
        let ghost hdr = v@;
        let mut j: usize = 0;
        while j < self.payload.len()
            invariant
                j <= self.payload@.len(),
                v@ == hdr + self.payload@.subrange(0, j as int),
                hdr.len() == 42,
            decreases self.payload@.len() - j,
        {
            v.push(self.payload[j]);
            j = j + 1;
            proof {
                assert(v@ =~= hdr + self.payload@.subrange(0, j as int));
            }
        }
        let ghost whole = v@;
        let cksum = udp_tcp_checksum(&v, self.src, self.dst, IPV4_PROTO_UDP);
        v[40] = (cksum / 0x100) as u8;
        v[41] = (cksum % 0x100) as u8;
        proof {
            assert(v@ =~= whole.update(40, ((cksum as int) / 0x100) as u8).update(
                41,
                ((cksum as int) % 0x100) as u8,
            ));
            assert(self.payload@.subrange(0, self.payload@.len() as int) =~= self.payload@);
            assert(v@.subrange(42, v@.len() as int) =~= self.payload@);
            assert(eth_dst_of(v@) =~= self.dst_mac@);
            assert(eth_src_of(v@) =~= self.src_mac@);
        }
        v
    }

    pub fn decode(b: &[u8]) -> (r: Option<UdpFrame>)
        ensures
            r.is_some() == valid_udp(b@),
            r matches Some(f) ==> {
                &&& udp_fields_of(b@, f.src_port, f.dest_port, f.payload@, f.src, f.dst)
                &&& f.src_mac@ == eth_src_of(b@)
                &&& f.dst_mac@ == eth_dst_of(b@)
            },
    {
        if b.len() < 42 {
            return None;
        }
        if read_u16_be(b, 12) != ETHERTYPE_IPV4 || b[14] != 0x45 || b[23] != IPV4_PROTO_UDP {
            return None;
        }
        if (read_u16_be(b, 38) as usize) != b.len() - 34 {
            return None;
        }
        let mut payload: Vec<u8> = Vec::new();
        let mut j: usize = 42;
        while j < b.len()
            invariant
                42 <= j <= b@.len(),
                payload@ == b@.subrange(42, j as int),
            decreases b@.len() - j,
        {
            payload.push(b[j]);
            j = j + 1;
            proof {
                assert(payload@ =~= b@.subrange(42, j as int));
            }
        }
        Some(
            UdpFrame {
                src: Ipv4Addr::new(read_u32_be(b, 26)),
                dst: Ipv4Addr::new(read_u32_be(b, 30)),
                src_port: read_u16_be(b, 34),
                dest_port: read_u16_be(b, 36),
                payload,
                src_mac: read_mac(b, 6),
                dst_mac: read_mac(b, 0),
            },
        )
    }
}

} // verus!
