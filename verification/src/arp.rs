//! The ARP peer: answers requests for the local address, learns every
//! sender it hears, and resolves addresses through a retrying query
//! coroutine.

use vstd::prelude::*;
use crate::arp_cache::ArpCache;
use crate::clock::{Duration, Instant};
use crate::event::Event;
use crate::fail::Fail;
use crate::frames::{ArpFrame, ARP_OP_REPLY, ARP_OP_REQUEST, valid_arp};
use crate::ip::Ipv4Addr;
use crate::mac::MacAddress;
use crate::runtime::{events_extends, no_active, sched_extends, Future, Runtime, Value};
use crate::task::Task;

verus! {

pub struct ArpPeer {
    pub cache: ArpCache,
}

impl ArpPeer {
    pub open spec fn wf(&self) -> bool {
        self.cache.wf()
    }

    pub fn new(now: Instant, default_ttl: Option<Duration>) -> (r: ArpPeer)
        ensures
            r.wf(),
            r.cache.entries@.len() == 0,
    {
        ArpPeer { cache: ArpCache::new(now, default_ttl) }
    }

    /// Handles one inbound ARP frame: the sender's mapping is learned
    /// unconditionally (gratuitous replies included), and a request for
    /// the local address is answered at once.
    pub fn receive(&mut self, rt: &mut Runtime, bytes: &[u8]) -> (r: Result<(), Fail>)
        requires
            old(self).wf(),
        ensures
            final(self).wf(),
            r.is_ok() == valid_arp(bytes@),
            r matches Err(e) ==> e == Fail::Malformed && *final(self) == *old(self) && final(rt).events@ == old(rt).events@,
            no_active(old(rt).sched.cos@) ==> no_active(final(rt).sched.cos@),
            final(rt).sched.cos@ == old(rt).sched.cos@,
            // the sender's mapping is always learned
            r is Ok ==> final(self).cache.entries@.len() >= 1 && final(self).cache.entries@.last().ipv4_addr.bits == crate::wire::be32_at(bytes@, 28) && final(self).cache.entries@.last().link_addr@ == bytes@.subrange(22, 28),
            // a request for the local address is answered at once
            r is Ok && crate::wire::be16_at(bytes@, 20) == ARP_OP_REQUEST && crate::wire::be32_at(
                bytes@,
                38,
            ) == old(rt).options.my_ipv4_addr.bits ==> final(rt).events@.len() == old(rt).events@.len() + 1 && (final(rt).events@.last() matches Event::Transmit(out)
                && valid_arp(out@) && crate::wire::be16_at(out@, 20) == ARP_OP_REPLY),
            r is Ok && !(crate::wire::be16_at(bytes@, 20) == ARP_OP_REQUEST
                && crate::wire::be32_at(bytes@, 38) == old(rt).options.my_ipv4_addr.bits) ==> final(rt).events@ == old(rt).events@,
    {
        let frame = match ArpFrame::decode(bytes) {
            Some(f) => f,
            None => {
                return Err(Fail::Malformed);
            },
        };
        // learn the sender's mapping, solicited or not
        let _ = self.cache.insert(frame.spa, frame.sha);
        if frame.op == ARP_OP_REQUEST && frame.tpa.bits == rt.options.my_ipv4_addr.bits {
            let reply = ArpFrame {
                op: ARP_OP_REPLY,
                sha: rt.options.my_link_addr,
                spa: rt.options.my_ipv4_addr,
                tha: frame.sha,
                tpa: frame.spa,
                dst: frame.sha,
                src: rt.options.my_link_addr,
            };
            let out = reply.encode();
            rt.emit_event(Event::Transmit(out));
        }
        Ok(())
    }

    /// Resolves `dest` to a link address: immediately when cached, else
    /// through a query coroutine that broadcasts a request and retries on
    /// the configured schedule until a reply lands in the cache.
    pub fn query(&self, rt: &mut Runtime, now: Instant, dest: Ipv4Addr) -> (r: Future)
        requires
            self.wf(),
        ensures
            no_active(old(rt).sched.cos@) ==> no_active(final(rt).sched.cos@),
            sched_extends(old(rt).sched.cos@, final(rt).sched.cos@),
            final(rt).events@ == old(rt).events@,
            // a cache hit resolves immediately to the live entry
            r matches Future::Ready(v) ==> v matches Value::Mac(m) && exists|i: int|
                0 <= i < self.cache.entries@.len() && (#[trigger] self.cache.entries@[i]).ipv4_addr
                    == dest && self.cache.entries@[i].link_addr == m && crate::arp_cache::live(
                    self.cache.entries@[i],
                    self.cache.now,
                ),
            // a miss registers one query coroutine on the retry schedule
            r matches Future::Pending(_) ==> final(rt).sched.cos@.len() == old(rt).sched.cos@.len()
                + 1 && (final(rt).sched.cos@.last().body matches Task::ArpQuery {
                dest: d2,
                attempts_left,
                sent_any,
                ..
            } && d2 == dest && attempts_left == old(rt).options.arp.request_retries && !sent_any),
    {
        match self.cache.get_link_addr(dest) {
            Some(m) => Future::Ready(Value::Mac(m)),
            None => {
                let retries = rt.options.arp.request_retries;
                rt.spawn(
                    Task::ArpQuery { dest, attempts_left: retries, deadline: now, sent_any: false },
                    now,
                )
            },
        }
    }

    /// Broadcasts one ARP request for `dest`.
    pub fn send_request(&self, rt: &mut Runtime, dest: Ipv4Addr)
        ensures
            final(rt).sched.cos@ == old(rt).sched.cos@,
            final(rt).events@.len() == old(rt).events@.len() + 1,
            events_extends(old(rt).events@, final(rt).events@),
            final(rt).events@.last() matches Event::Transmit(b) && valid_arp(b@)
                && crate::wire::be16_at(b@, 20) == ARP_OP_REQUEST && crate::wire::be32_at(b@, 38)
                == dest.bits && crate::wire::be32_at(b@, 28) == old(rt).options.my_ipv4_addr.bits,
    {
        let req = ArpFrame {
            op: ARP_OP_REQUEST,
            sha: rt.options.my_link_addr,
            spa: rt.options.my_ipv4_addr,
            tha: MacAddress::nil(),
            tpa: dest,
            dst: MacAddress::broadcast(),
            src: rt.options.my_link_addr,
        };
        let out = req.encode();
        rt.emit_event(Event::Transmit(out));
    }
}

} // verus!
