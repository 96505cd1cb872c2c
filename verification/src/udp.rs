//! The UDP peer: a table of open ports, delivery of inbound datagrams,
//! and a cast coroutine that resolves the destination and emits the
//! datagram.

use vstd::prelude::*;
use crate::clock::Instant;
use crate::event::Event;
use crate::fail::Fail;
use crate::frames::{IPV4_PROTO_UDP, MAX_UDP_PAYLOAD, UdpFrame, valid_udp};
use crate::ip::Ipv4Addr;
use crate::runtime::{no_active, sched_extends, Future, Runtime};
use crate::task::Task;

verus! {

pub struct UdpPeer {
    pub open_ports: Vec<u16>,
}

impl UdpPeer {
    /// No port is listed twice.
    pub open spec fn wf(&self) -> bool {
        forall|a: int, b: int| 0 <= a < b < self.open_ports@.len() ==> self.open_ports@[a]
            != self.open_ports@[b]
    }

    pub fn new() -> (r: UdpPeer)
        ensures
            r.wf(),
            r.open_ports@.len() == 0,
    {
        UdpPeer { open_ports: Vec::new() }
    }

    pub fn is_port_open(&self, port_num: u16) -> (r: bool)
        ensures
            r == self.open_ports@.contains(port_num),
    {
        let n = self.open_ports.len();
        let mut i: usize = 0;
        while i < n
            invariant
                i <= n,
                n == self.open_ports@.len(),
                forall|j: int| 0 <= j < i ==> self.open_ports@[j] != port_num,
            decreases n - i,
        {
            if self.open_ports[i] == port_num {
                return true;
            }
            i = i + 1;
        }
        false
    }

    /// Opens a port that is not yet open.
    pub fn open_port(&mut self, port_num: u16)
        requires
            old(self).wf(),
            !old(self).open_ports@.contains(port_num),
        ensures
            final(self).wf(),
            final(self).open_ports@ == old(self).open_ports@.push(port_num),
    {
        self.open_ports.push(port_num);
    }

    /// Closes a port that is open.
    pub fn close_port(&mut self, port_num: u16)
        requires
            old(self).wf(),
            old(self).open_ports@.contains(port_num),
        ensures
            final(self).wf(),
            !final(self).open_ports@.contains(port_num),
            final(self).open_ports@.len() == old(self).open_ports@.len() - 1,
            forall|p: u16| p != port_num && old(self).open_ports@.contains(p) ==> final(self).open_ports@.contains(p),
            forall|p: u16| #[trigger] final(self).open_ports@.contains(p) ==> old(self).open_ports@.contains(p),
    {
        let n = self.open_ports.len();
        let mut i: usize = 0;
        while i < n
            invariant
                i <= n,
                n == self.open_ports@.len(),
                forall|j: int| 0 <= j < i ==> self.open_ports@[j] != port_num,
                old(self).open_ports@.contains(port_num),
                self.open_ports@ == old(self).open_ports@,
                old(self).wf(),
            decreases n - i,
        {
            if self.open_ports[i] == port_num {
                let ghost o = self.open_ports@;
                self.open_ports.remove(i);
                proof {
                    crate::arp_cache::lemma_remove_keeps(o, i as int);
                    assert(o[i as int] == port_num);
                    assert forall|j: int| 0 <= j < self.open_ports@.len() implies self.open_ports@[j]
                        != port_num by {
                        if j < i {
                            assert(self.open_ports@[j] == o[j]);
                        } else {
                            assert(self.open_ports@[j] == o[j + 1]);
                            assert(o[i as int] != o[j + 1]);
                        }
                    }
                    assert(!self.open_ports@.contains(port_num));
                    assert forall|a: int, b: int|
                        0 <= a < b < self.open_ports@.len() implies self.open_ports@[a]
                        != self.open_ports@[b] by {
                        let oa: int = if a < i {
                            a
                        } else {
                            a + 1
                        };
                        let ob: int = if b < i {
                            b
                        } else {
                            b + 1
                        };
                        assert(self.open_ports@[a] == o[oa]);
                        assert(self.open_ports@[b] == o[ob]);
                    }
                }
                return ;
            }
            i = i + 1;
        }
        proof {
            assert(false);
        }
    }

    /// Delivers one inbound UDP frame: the payload of a datagram for an
    /// open local port is surfaced to the driver; one for a closed port
    /// is rejected with an ICMPv4 port-unreachable answer carrying the
    /// offending datagram.
    pub fn receive(&mut self, rt: &mut Runtime, bytes: &[u8]) -> (r: Result<(), Fail>)
        requires
            old(self).wf(),
        ensures
            final(self).wf(),
            *final(self) == *old(self),
            final(rt).sched.cos@ == old(rt).sched.cos@,
            r.is_ok() == (valid_udp(bytes@) && crate::frames::ipv4_dst_of(bytes@) == old(rt).options.my_ipv4_addr.bits && old(self).open_ports@.contains(
                (crate::wire::be16_at(bytes@, 36) as u16),
            )),
            r matches Err(e) ==> (e == Fail::Malformed || e == Fail::ResourceNotFound),
            r matches Err(e) && e == Fail::Malformed ==> final(rt).events@ == old(rt).events@ && (
            !valid_udp(bytes@) || crate::frames::ipv4_dst_of(bytes@) != old(rt).options.my_ipv4_addr.bits),
            // a closed port answers with a port-unreachable message
            // carrying the rejected datagram's header
            r matches Err(e) && e == Fail::ResourceNotFound ==> final(rt).events@.len() == old(rt).events@.len() + 1 && (final(rt).events@.last() matches Event::Transmit(b)
                && crate::frames::valid_icmp(b@) && b@[34] == 3u8 && b@[35] == 3u8
                && crate::frames::ipv4_dst_of(b@) == crate::frames::ipv4_src_of(bytes@)),
            r.is_ok() ==> final(rt).events@.len() == old(rt).events@.len() + 1 && (final(rt).events@.last() matches Event::BytesReceived {
                protocol,
                src_addr,
                src_port,
                dest_port,
                payload,
            } && protocol == IPV4_PROTO_UDP && src_addr.bits == crate::frames::ipv4_src_of(bytes@)
                && src_port == crate::wire::be16_at(bytes@, 34) && dest_port == crate::wire::be16_at(
                bytes@,
                36,
            ) && payload@ == bytes@.subrange(42, bytes@.len() as int)),
            r matches Err(e) && e == Fail::ResourceNotFound ==> valid_udp(bytes@) && !old(self).open_ports@.contains((crate::wire::be16_at(bytes@, 36) as u16)),
    {
        let frame = match UdpFrame::decode(bytes) {
            Some(f) => f,
            None => {
                return Err(Fail::Malformed);
            },
        };
        // the local address is matched on ingress
        if frame.dst.bits != rt.options.my_ipv4_addr.bits {
            return Err(Fail::Malformed);
        }
        if !self.is_port_open(frame.dest_port) {
            // answer with destination-port-unreachable, quoting the
            // datagram's IP header and leading bytes
            let mut context: Vec<u8> = Vec::new();
            let mut j: usize = 14;
            while j < 42
                invariant
                    14 <= j <= 42,
                    bytes@.len() >= 42,
                    context@.len() == j - 14,
                decreases 42 - j,
            {
                context.push(bytes[j]);
                j = j + 1;
            }
            let reply = crate::frames::encode_port_unreachable(
                &rt.options.my_link_addr,
                &frame.src_mac,
                rt.options.my_ipv4_addr,
                frame.src,
                context.as_slice(),
            );
            rt.emit_event(Event::Transmit(reply));
            return Err(Fail::ResourceNotFound);
        }
        rt.emit_event(
            Event::BytesReceived {
                protocol: IPV4_PROTO_UDP,
                src_addr: frame.src,
                src_port: frame.src_port,
                dest_port: frame.dest_port,
                payload: frame.payload,
            },
        );
        Ok(())
    }

    /// Sends one datagram: a coroutine resolves the destination link
    /// address and then emits the framed bytes.
    pub fn cast(&self, rt: &mut Runtime, now: Instant, dest_ipv4_addr: Ipv4Addr, dest_port: u16,
        src_port: u16, payload: Vec<u8>) -> (r: Future)
        requires
            payload@.len() <= MAX_UDP_PAYLOAD,
        ensures
            no_active(old(rt).sched.cos@) ==> no_active(final(rt).sched.cos@),
            sched_extends(old(rt).sched.cos@, final(rt).sched.cos@),
            final(rt).events@ == old(rt).events@,
            final(rt).sched.cos@.len() == old(rt).sched.cos@.len() + 1,
            final(rt).sched.cos@.last().body matches Task::UdpCast {
                dest: d2,
                dest_port: dp,
                src_port: sp,
                payload: p,
                arp,
            } && d2 == dest_ipv4_addr && dp == dest_port && sp == src_port && p@ == payload@ && arp
                is None,
    {
        rt.spawn(
            Task::UdpCast { dest: dest_ipv4_addr, dest_port, src_port, payload, arp: None },
            now,
        )
    }
}

} // verus!
