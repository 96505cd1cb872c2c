//! The engine: one runtime, the four protocol peers, and the tick that
//! drives every registered coroutine.

use vstd::prelude::*;
use crate::arp::ArpPeer;
use crate::clock::Instant;
use crate::event::Event;
use crate::fail::Fail;
use crate::icmp::Icmpv4Peer;
use crate::options::Options;
use crate::runtime::{events_extends, no_active, CoroutineStatus, Runtime};
use crate::task::Peers;
use crate::tcp::TcpPeer;
use crate::udp::UdpPeer;

verus! {

pub struct Engine {
    pub rt: Runtime,
    pub peers: Peers,
}

impl Engine {
    pub open spec fn wf(&self) -> bool {
        &&& self.peers.wf()
        &&& no_active(self.rt.sched.cos@)
    }

    pub fn new(options: Options, seed: u64, now: Instant) -> (r: Engine)
        ensures
            r.wf(),
            r.rt.events@.len() == 0,
    {
        let mut rt = Runtime::new(options, seed);
        let arp = ArpPeer::new(now, options.arp.default_ttl);
        let icmp = Icmpv4Peer::new();
        let udp = UdpPeer::new();
        let tcp = TcpPeer::new(&mut rt);
        Engine { rt, peers: Peers { arp, icmp, udp, tcp } }
    }

    /// Dispatches one inbound frame to the peer its EtherType and IPv4
    /// protocol name, and rejects everything else as malformed.
    pub fn receive(&mut self, now: Instant, bytes: &[u8]) -> (r: Result<(), Fail>)
        requires
            old(self).wf(),
        ensures
            final(self).wf(),
            // each protocol's acceptance condition is the sub-peer's
            bytes@.len() >= 14 && crate::wire::be16_at(bytes@, 12) == crate::frames::ETHERTYPE_ARP
                ==> r.is_ok() == crate::frames::valid_arp(bytes@),
            bytes@.len() >= 34 && crate::wire::be16_at(bytes@, 12) == crate::frames::ETHERTYPE_IPV4
                && bytes@[23] == crate::frames::IPV4_PROTO_ICMP ==> r.is_ok() == (
            crate::frames::valid_icmp(bytes@) && crate::frames::ipv4_dst_of(bytes@) == old(self).rt.options.my_ipv4_addr.bits),
            bytes@.len() >= 34 && crate::wire::be16_at(bytes@, 12) == crate::frames::ETHERTYPE_IPV4
                && bytes@[23] == crate::frames::IPV4_PROTO_TCP ==> r.is_ok()
                == crate::tcp::tcp_receive_ok(
                bytes@,
                old(self).rt.options.my_ipv4_addr,
                old(self).peers.tcp.state.open_ports@,
                old(self).peers.tcp.state.connections@,
            ),
            bytes@.len() >= 34 && crate::wire::be16_at(bytes@, 12) == crate::frames::ETHERTYPE_IPV4
                && bytes@[23] == crate::frames::IPV4_PROTO_UDP ==> r.is_ok() == (
            crate::frames::valid_udp(bytes@) && crate::frames::ipv4_dst_of(bytes@) == old(self).rt.options.my_ipv4_addr.bits && old(self).peers.udp.open_ports@.contains(
                (crate::wire::be16_at(bytes@, 36) as u16),
            )),
            bytes@.len() < 14 ==> r == Err::<(), Fail>(Fail::Malformed),
    {
        if bytes.len() < 14 {
            return Err(Fail::Malformed);
        }
        let ethertype = crate::wire::read_u16_be(bytes, 12);
        if ethertype == crate::frames::ETHERTYPE_ARP {
            return self.peers.arp.receive(&mut self.rt, bytes);
        }
        if ethertype != crate::frames::ETHERTYPE_IPV4 || bytes.len() < 34 {
            return Err(Fail::Malformed);
        }
        let proto = bytes[23];
        if proto == crate::frames::IPV4_PROTO_ICMP {
            self.peers.icmp.receive(&mut self.rt, now, bytes)
        } else if proto == crate::frames::IPV4_PROTO_TCP {
            self.peers.tcp.receive(&mut self.rt, now, bytes)
        } else if proto == crate::frames::IPV4_PROTO_UDP {
            self.peers.udp.receive(&mut self.rt, bytes)
        } else {
            Err(Fail::Malformed)
        }
    }

    /// One tick: staged background futures move first, the caches age,
    /// and then every coroutine due at `now` is resumed exactly once, in
    /// registration order.  Coroutines registered during the tick wait
    /// for the next one.
    pub fn advance_clock(&mut self, now: Instant)
        requires
            old(self).wf(),
            now.ns < u64::MAX,
        ensures
            final(self).wf(),
            // every coroutine that was registered and due at `now` has
            // been resumed: none still carries a wakeup at or before it
            forall|j: int| 0 <= j < old(self).rt.sched.cos@.len() ==> !((#[trigger] final(self).rt.sched.cos@[j].spec_status()) matches CoroutineStatus::AsleepUntil(w) && w.ns
                <= now.ns),
            final(self).rt.sched.cos@.len() >= old(self).rt.sched.cos@.len(),
            // each previously registered coroutine keeps its identity; one
            // that was not due is untouched; the event log only grows
            forall|j: int| 0 <= j < old(self).rt.sched.cos@.len() ==> (#[trigger] final(self).rt.sched.cos@[j].spec_id()) == old(self).rt.sched.cos@[j].spec_id(),
            forall|j: int| 0 <= j < old(self).rt.sched.cos@.len() && !((#[trigger] old(self).rt.sched.cos@[j].spec_status()) matches CoroutineStatus::AsleepUntil(w) && w.ns
                <= now.ns) ==> final(self).rt.sched.cos@[j] == old(self).rt.sched.cos@[j],
            events_extends(old(self).rt.events@, final(self).rt.events@),
    {
        self.peers.tcp.advance_clock(&self.rt.sched, now);
        self.peers.icmp.advance_clock(&self.rt.sched, now);
        self.peers.arp.cache.advance_clock(now);
        let n = self.rt.sched.cos.len();
        let ghost c0 = self.rt.sched.cos@;
        let mut i: usize = 0;
        while i < n
            invariant
                i <= n,
                n == c0.len(),
                self.peers.wf(),
                no_active(self.rt.sched.cos@),
                now.ns < u64::MAX,
                self.rt.sched.cos@.len() >= n,
                forall|j: int| 0 <= j < i ==> !((#[trigger] self.rt.sched.cos@[j].spec_status())
                    matches CoroutineStatus::AsleepUntil(w) && w.ns <= now.ns),
                forall|j: int| i <= j < n ==> #[trigger] self.rt.sched.cos@[j] == c0[j],
                forall|j: int| 0 <= j < i ==> (#[trigger] self.rt.sched.cos@[j].spec_id())
                    == c0[j].spec_id(),
                forall|j: int| 0 <= j < i && !((#[trigger] c0[j].spec_status()) matches
                    CoroutineStatus::AsleepUntil(w) && w.ns <= now.ns) ==> self.rt.sched.cos@[j]
                    == c0[j],
                events_extends(old(self).rt.events@, self.rt.events@),
            decreases n - i,
        {
            if self.rt.sched.cos[i].is_due(now) {
                let ghost before = self.rt.sched.cos@;
                let mut c = self.rt.sched.cos.remove(i);
                proof {
                    assert forall|j: int| 0 <= j < self.rt.sched.cos@.len() implies !((
                    #[trigger] self.rt.sched.cos@[j].spec_status()) is Active) by {}
                }
                let ghost reduced = self.rt.sched.cos@;
                let _ = c.resume(now, &mut self.rt, &mut self.peers);
                proof {
                    assert(self.rt.sched.cos@.len() >= reduced.len());
                    assert(reduced.len() == before.len() - 1);
                    assert(i < n <= before.len());
                }
                self.rt.sched.cos.insert(i, c);
                proof {
                    assert forall|j: int| 0 <= j < self.rt.sched.cos@.len() implies !((
                    #[trigger] self.rt.sched.cos@[j].spec_status()) is Active) by {}
                    assert forall|j: int| 0 <= j < i + 1 implies !((
                    #[trigger] self.rt.sched.cos@[j].spec_status()) matches
                        CoroutineStatus::AsleepUntil(w) && w.ns <= now.ns) by {
                        if j < i {
                            assert(self.rt.sched.cos@[j] == reduced[j]);
                            assert(reduced[j] == before[j]);
                        } else {
                            assert(self.rt.sched.cos@[j] == c);
                        }
                    }
                    assert forall|j: int| i + 1 <= j < n implies #[trigger] self.rt.sched.cos@[j]
                        == c0[j] by {
                        assert(self.rt.sched.cos@[j] == reduced[j - 1]);
                        assert(reduced[j - 1] == before[j]);
                        assert(before[j] == c0[j]);
                    }
                    assert forall|j: int| 0 <= j < i + 1 implies (
                    #[trigger] self.rt.sched.cos@[j].spec_id()) == c0[j].spec_id() by {
                        if j < i {
                            assert(self.rt.sched.cos@[j] == reduced[j]);
                            assert(reduced[j] == before[j]);
                        } else {
                            assert(self.rt.sched.cos@[j] == c);
                            assert(before[j] == c0[j]);
                        }
                    }
                }
            }
            i = i + 1;
        }
    }

    /// Hands the accumulated events to the driver.
    pub fn take_events(&mut self) -> (r: Vec<Event>)
        requires
            old(self).wf(),
        ensures
            final(self).wf(),
            r@ == old(self).rt.events@,
            final(self).rt.events@.len() == 0,
    {
        self.rt.take_events()
    }
}

} // verus!
