//! The ICMPv4 peer: echo request/reply with a pending-request set and a
//! ping coroutine that reports the round-trip time.

use vstd::prelude::*;
use crate::clock::{Duration, Instant};
use crate::entropy::{native_bytes_of_u32, rng_next_u16};
use crate::event::Event;
use crate::fail::Fail;
use crate::frames::{EchoFrame, IcmpMessage, ICMP_ECHO_REPLY, ICMP_ECHO_REQUEST, valid_icmp};
use crate::ip::Ipv4Addr;
use crate::runtime::{no_active, sched_extends, Future, Runtime, Sched, WhenAny};
use crate::task::Task;
use crate::wire::internet_checksum;

verus! {

/// Nanoseconds of the default ping timeout.
pub const DEFAULT_PING_TIMEOUT_NS: u64 = 5_000_000_000;

pub struct Icmpv4Peer {
    /// The `(id, seq)` keys of echo requests still awaiting a reply.
    pub outstanding_requests: Vec<(u16, u16)>,
    /// Wrapping sequence counter, seeded at zero per engine lifetime.
    pub ping_seq_num_counter: u16,
    /// The reply coroutines still running.
    pub async_work: WhenAny,
}

impl Icmpv4Peer {
    pub fn new() -> (r: Icmpv4Peer)
        ensures
            r.outstanding_requests@.len() == 0,
            r.ping_seq_num_counter == 0,
            r.async_work.members@.len() == 0,
    {
        Icmpv4Peer {
            outstanding_requests: Vec::new(),
            ping_seq_num_counter: 0,
            async_work: WhenAny::new(),
        }
    }

    pub fn outstanding_contains(&self, id: u16, seq: u16) -> (r: bool)
        ensures
            r == self.outstanding_requests@.contains((id, seq)),
    {
        let n = self.outstanding_requests.len();
        let mut i: usize = 0;
        while i < n
            invariant
                i <= n,
                n == self.outstanding_requests@.len(),
                forall|j: int| 0 <= j < i ==> self.outstanding_requests@[j] != (id, seq),
            decreases n - i,
        {
            let p = self.outstanding_requests[i];
            if p.0 == id && p.1 == seq {
                return true;
            }
            i = i + 1;
        }
        false
    }

    /// Records an in-flight echo request.
    pub fn outstanding_insert(&mut self, id: u16, seq: u16)
        ensures
            final(self).outstanding_requests@.contains((id, seq)),
            final(self).ping_seq_num_counter == old(self).ping_seq_num_counter,
            final(self).async_work == old(self).async_work,
            forall|k: (u16, u16)| old(self).outstanding_requests@.contains(k) ==> final(self).outstanding_requests@.contains(k),
            forall|k: (u16, u16)| #[trigger] final(self).outstanding_requests@.contains(k) ==> k
                == (id, seq) || old(self).outstanding_requests@.contains(k),
    {
        if !self.outstanding_contains(id, seq) {
            let ghost o = self.outstanding_requests@;
            self.outstanding_requests.push((id, seq));
            proof {
                assert(self.outstanding_requests@.last() == (id, seq));
                assert forall|k: (u16, u16)| o.contains(k) implies self.outstanding_requests@.contains(
                    k,
                ) by {
                    let j = choose|j: int| 0 <= j < o.len() && o[j] == k;
                    assert(self.outstanding_requests@[j] == k);
                }
                assert forall|k: (u16, u16)| #[trigger] self.outstanding_requests@.contains(
                    k,
                ) implies k == (id, seq) || o.contains(k) by {
                    let j = choose|j: int|
                        0 <= j < self.outstanding_requests@.len()
                            && self.outstanding_requests@[j] == k;
                    if j < self.outstanding_requests@.len() - 1 {
                        assert(o[j] == k);
                    }
                }
            }
        }
    }

    /// Removes an in-flight key; removing an absent key does nothing.
    pub fn outstanding_remove(&mut self, id: u16, seq: u16)
        ensures
            !final(self).outstanding_requests@.contains((id, seq)),
            final(self).ping_seq_num_counter == old(self).ping_seq_num_counter,
            final(self).async_work == old(self).async_work,
            forall|k: (u16, u16)| #[trigger] final(self).outstanding_requests@.contains(k) ==> old(self).outstanding_requests@.contains(k),
            forall|k: (u16, u16)| k != (id, seq) && #[trigger] old(self).outstanding_requests@.contains(k) ==> final(self).outstanding_requests@.contains(k),
    {
        let n = self.outstanding_requests.len();
        let mut kept: Vec<(u16, u16)> = Vec::new();
        let mut i: usize = 0;
        while i < n
            invariant
                i <= n,
                n == self.outstanding_requests@.len(),
                !kept@.contains((id, seq)),
                forall|k: (u16, u16)| #[trigger] kept@.contains(k)
                    ==> self.outstanding_requests@.contains(k),
                forall|j: int| 0 <= j < i && #[trigger] self.outstanding_requests@[j] != (id, seq)
                    ==> kept@.contains(self.outstanding_requests@[j]),
            decreases n - i,
        {
            let p = self.outstanding_requests[i];
            if !(p.0 == id && p.1 == seq) {
                let ghost ko = kept@;
                kept.push(p);
                proof {
                    assert forall|k: (u16, u16)| #[trigger] kept@.contains(
                        k,
                    ) implies self.outstanding_requests@.contains(k) by {
                        let a = choose|a: int| 0 <= a < kept@.len() && kept@[a] == k;
                        if a < kept@.len() - 1 {
                            assert(ko.contains(k));
                        } else {
                            assert(self.outstanding_requests@[i as int] == k);
                        }
                    }
                    assert forall|j: int|
                        0 <= j < i + 1 && #[trigger] self.outstanding_requests@[j] != (
                        id,
                        seq,
                    ) implies kept@.contains(self.outstanding_requests@[j]) by {
                        if j < i {
                            assert(ko.contains(self.outstanding_requests@[j]));
                            let a = choose|a: int|
                                0 <= a < ko.len() && ko[a] == self.outstanding_requests@[j];
                            assert(kept@[a] == self.outstanding_requests@[j]);
                        } else {
                            assert(kept@.last() == self.outstanding_requests@[j]);
                        }
                    }
                }
            }
            i = i + 1;
        }
        let ghost o = self.outstanding_requests@;
        self.outstanding_requests = kept;
        proof {
            assert forall|k: (u16, u16)| k != (id, seq) && #[trigger] o.contains(
                k,
            ) implies self.outstanding_requests@.contains(k) by {
                let j = choose|j: int| 0 <= j < o.len() && o[j] == k;
            }
        }
    }

    /// Handles one inbound ICMPv4 frame: echo requests are answered by a
    /// reply coroutine, echo replies retire their pending key, and every
    /// other message is surfaced as an error event.
    pub fn receive(&mut self, rt: &mut Runtime, now: Instant, bytes: &[u8]) -> (r: Result<(), Fail>)
        ensures
            r.is_ok() == (valid_icmp(bytes@) && crate::frames::ipv4_dst_of(bytes@) == old(rt).options.my_ipv4_addr.bits),
            r matches Err(e) ==> e == Fail::Malformed,
            no_active(old(rt).sched.cos@) ==> no_active(final(rt).sched.cos@),
            // an echo reply retires its pending key (idempotently),
            // emitting nothing
            r is Ok && crate::frames::valid_echo(bytes@) && bytes@[34] == ICMP_ECHO_REPLY
                ==> final(rt).events@ == old(rt).events@ && final(rt).sched.cos@ == old(rt).sched.cos@,
            // an echo reply retires its pending key (idempotently)
            r is Ok && crate::frames::valid_echo(bytes@) && bytes@[34] == ICMP_ECHO_REPLY
                ==> !final(self).outstanding_requests@.contains(
                ((crate::wire::be16_at(bytes@, 38) as u16), (crate::wire::be16_at(
                    bytes@,
                    40,
                ) as u16)),
            ),
            // an echo request spawns one reply coroutine carrying the
            // request's key, and leaves the pending set alone
            r is Ok && crate::frames::valid_echo(bytes@) && bytes@[34] == ICMP_ECHO_REQUEST
                ==> final(rt).sched.cos@.len() == old(rt).sched.cos@.len() + 1 && (final(rt).sched.cos@.last().body matches Task::EchoReply { dest, id, seq, arp } && dest.bits
                == crate::frames::ipv4_src_of(bytes@) && id == crate::wire::be16_at(bytes@, 38)
                && seq == crate::wire::be16_at(bytes@, 40) && arp is None) && final(self).outstanding_requests@ == old(self).outstanding_requests@,
    {
        if bytes.len() >= 34 {
            // the local address is matched on ingress
            let dst = crate::wire::read_u32_be(bytes, 30);
            if dst != rt.options.my_ipv4_addr.bits {
                return Err(Fail::Malformed);
            }
        }
        match EchoFrame::decode(bytes) {
            Some(echo) => {
                if echo.op == ICMP_ECHO_REQUEST {
                    self.reply_to_ping(rt, now, echo.src, echo.id, echo.seq);
                    Ok(())
                } else {
                    self.outstanding_remove(echo.id, echo.seq);
                    Ok(())
                }
            },
            None => {
                match IcmpMessage::decode(bytes) {
                    Some(m) => {
                        rt.emit_event(
                            Event::Icmpv4Error {
                                kind: m.kind,
                                code: m.code,
                                next_hop_mtu: m.next_hop_mtu,
                                context: m.context,
                            },
                        );
                        Ok(())
                    },
                    None => Err(Fail::Malformed),
                }
            },
        }
    }

    /// Starts a ping: a coroutine resolves the destination, emits one
    /// echo request with a fresh `(id, seq)` key, and waits until the
    /// reply retires the key or the timeout elapses.
    pub fn ping(&mut self, rt: &mut Runtime, now: Instant, dest_ipv4_addr: Ipv4Addr, timeout:
        Option<Duration>) -> (r: Future)
        ensures
            final(self).ping_seq_num_counter == (old(self).ping_seq_num_counter + 1) % 0x10000,
            no_active(old(rt).sched.cos@) ==> no_active(final(rt).sched.cos@),
            sched_extends(old(rt).sched.cos@, final(rt).sched.cos@),
            final(rt).sched.cos@.len() == old(rt).sched.cos@.len() + 1,
            // the spawned ping carries this counter's value and a deadline
            // within the budget, so its result never exceeds the timeout
            final(rt).sched.cos@.last().body matches Task::Ping {
                dest,
                seq,
                started,
                t0,
                deadline,
                timeout: tmo,
                ..
            } && dest == dest_ipv4_addr && seq == old(self).ping_seq_num_counter && started
                == false && t0 == now && deadline.ns <= t0.ns + tmo.ns,
    {
        let timeout = match timeout {
            Some(d) => d,
            None => Duration { ns: DEFAULT_PING_TIMEOUT_NS },
        };
        let id = self.generate_ping_id(rt);
        let seq = self.generate_seq_num();
        let deadline = now.plus(timeout);
        rt.spawn(
            Task::Ping {
                dest: dest_ipv4_addr,
                id,
                seq,
                timeout,
                t0: now,
                deadline,
                arp: None,
                started: false,
            },
            now,
        )
    }

    /// Spawns the coroutine that answers one echo request.
    pub fn reply_to_ping(&mut self, rt: &mut Runtime, now: Instant, dest_ipv4_addr: Ipv4Addr, id:
        u16, seq_num: u16)
        ensures
            no_active(old(rt).sched.cos@) ==> no_active(final(rt).sched.cos@),
            final(self).outstanding_requests == old(self).outstanding_requests,
            final(self).ping_seq_num_counter == old(self).ping_seq_num_counter,
            sched_extends(old(rt).sched.cos@, final(rt).sched.cos@),
            final(rt).sched.cos@.len() == old(rt).sched.cos@.len() + 1,
            final(rt).sched.cos@.last().body matches Task::EchoReply { dest, id: i2, seq, arp }
                && dest == dest_ipv4_addr && i2 == id && seq == seq_num && arp is None,
    {
        let fut = rt.spawn(
            Task::EchoReply { dest: dest_ipv4_addr, id, seq: seq_num, arp: None },
            now,
        );
        self.async_work.add(fut);
    }

    /// A ping identifier: the internet checksum of the local address,
    /// the per-runtime nonce standing in for a process identity, and a
    /// fresh random nonce — unique enough per ping instance.
    pub fn generate_ping_id(&self, rt: &mut Runtime) -> (r: u16)
        ensures
            final(rt).sched.cos@ == old(rt).sched.cos@,
            final(rt).events@ == old(rt).events@,
            final(rt).options == old(rt).options,
    {
        let mut material = native_bytes_of_u32(rt.options.my_ipv4_addr.bits);
        let mut identity = native_bytes_of_u32((rt.runtime_nonce % 0x1_0000_0000) as u32);
        material.append(&mut identity);
        let mut identity_hi = native_bytes_of_u32((rt.runtime_nonce / 0x1_0000_0000) as u32);
        material.append(&mut identity_hi);
        let nonce = rng_next_u16(&mut rt.rng);
        material.push((nonce / 0x100) as u8);
        material.push((nonce % 0x100) as u8);
        let len = material.len();
        internet_checksum(material.as_slice(), 0, len)
    }

    /// The wrapping per-engine echo sequence counter.
    pub fn generate_seq_num(&mut self) -> (r: u16)
        ensures
            r == old(self).ping_seq_num_counter,
            final(self).ping_seq_num_counter == (old(self).ping_seq_num_counter + 1) % 0x10000,
            final(self).outstanding_requests == old(self).outstanding_requests,
            final(self).async_work == old(self).async_work,
    {
        let seq = self.ping_seq_num_counter;
        self.ping_seq_num_counter = if seq == 0xFFFF {
            0
        } else {
            seq + 1
        };
        seq
    }

    /// Drives the reply coroutines once (their failures are tolerated):
    /// the combinator keeps its members while one is pending, loses the
    /// first success, or empties when every member has failed.
    pub fn advance_clock(&mut self, sched: &Sched, now: Instant)
        ensures
            final(self).outstanding_requests == old(self).outstanding_requests,
            final(self).ping_seq_num_counter == old(self).ping_seq_num_counter,
            ({
                let m0 = old(self).async_work.members@;
                ||| (final(self).async_work.members@ == m0 && (m0.len() == 0 || exists|j: int|
                    0 <= j < m0.len() && (#[trigger] m0[j]).spec_poll(sched.cos@) == Err::<
                        crate::runtime::Value,
                        Fail,
                    >(Fail::TryAgain)))
                ||| (exists|i: int|
                    0 <= i < m0.len() && (#[trigger] m0[i]).spec_poll(sched.cos@) is Ok && final(self).async_work.members@ == m0.remove(i))
                ||| (final(self).async_work.members@.len() == 0 && m0.len() > 0 && forall|j: int|
                    0 <= j < m0.len() ==> (#[trigger] m0[j]).spec_poll(sched.cos@) is Err
                        && m0[j].spec_poll(sched.cos@) != Err::<crate::runtime::Value, Fail>(
                        Fail::TryAgain,
                    ))
            }),
    {
        let _ = self.async_work.poll(sched);
    }
}

} // verus!
