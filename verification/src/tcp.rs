//! The TCP peer: connection table, handle and port allocators, ISN
//! generation, active and passive handshake, per-connection send and
//! receive queues, delayed-ACK bookkeeping and RST emission.

use vstd::prelude::*;
use std::collections::VecDeque;
use crate::clock::{Duration, Instant};
use crate::entropy::{rng_next_u64, shuffle_u16};
use crate::fail::Fail;
use crate::ip::{Endpoint, is_private_port, FIRST_PRIVATE_PORT};
use crate::segment::TcpSegment;
use crate::event::Event;
use crate::runtime::{no_active, sched_extends, Future, Runtime, WhenAny};
use crate::task::{ActivePhase, PassivePhase, Task};

verus! {

/// Largest segment payload the engine offers or accepts.
pub const DEFAULT_MSS: usize = 1460;

/// The MSS assumed of a peer that offered none.
pub const FALLBACK_MSS: usize = 536;



/// Opaque user-facing key for a TCP connection: a small nonzero integer
/// drawn from a shuffled pool.
#[derive(Clone, Copy, Debug, PartialEq, Eq, Structural, Hash)]
pub struct TcpConnectionHandle {
    pub v: u16,
}

/// The canonical 4-tuple that keys the connection table.
#[derive(Clone, Copy, Debug, PartialEq, Eq, Structural, Hash)]
pub struct TcpConnectionId {
    pub local: Endpoint,
    pub remote: Endpoint,
}

/// 32-bit sequence arithmetic, wrapping and panic-free.
pub fn seq_add32(a: u32, b: u32) -> (r: u32)
    ensures
        r == (a + b) % 0x1_0000_0000,
{
    (((a as u64) + (b as u64)) % 0x1_0000_0000u64) as u32
}

/// `a <= b` in sequence space: `b` is no more than half the space ahead.
pub fn seq_le32(a: u32, b: u32) -> (r: bool)
    ensures
        r == (((b + 0x1_0000_0000 - a) % 0x1_0000_0000) < 0x8000_0000),
{
    (((b as u64) + 0x1_0000_0000u64 - (a as u64)) % 0x1_0000_0000u64) < 0x8000_0000
}

/// The retransmission timer of a record has expired at `now`.
pub open spec fn retransmit_due(rec: RetransmitRecord, now: Instant, rto: Duration) -> bool {
    (if now.ns >= rec.last_sent.ns {
        now.ns - rec.last_sent.ns
    } else {
        0
    }) >= rto.ns
}

/// One unacknowledged segment awaiting either an ACK or retransmission.
#[derive(Clone, Debug)]
pub struct RetransmitRecord {
    pub seq_num: u32,
    pub payload: Vec<u8>,
    pub last_sent: Instant,
}

#[derive(Clone, Copy, Debug, PartialEq, Eq, Structural)]
pub enum TcpConnectionState {
    SynSent,
    SynReceived,
    Established,
    Closing,
    Closed,
}

pub struct TcpConnection {
    pub cxnid: TcpConnectionId,
    pub handle: TcpConnectionHandle,
    pub local_isn: u32,
    pub remote_isn: Option<u32>,
    /// Next sequence number this side will send.
    pub seq_num: u32,
    /// Next sequence number expected of the peer; also the ACK we emit.
    pub receive_next: u32,
    pub mss: usize,
    pub remote_receive_window_size: usize,
    pub local_receive_window_size: u16,
    pub state: TcpConnectionState,
    /// Inbound segments awaiting the main connection loop.
    pub receive_queue: VecDeque<TcpSegment>,
    /// Reassembled payloads for the reader.
    pub unread_queue: VecDeque<Vec<u8>>,
    /// Bytes written but not yet packetized.
    pub send_buffer: VecDeque<u8>,
    pub retransmit_queue: Vec<RetransmitRecord>,
    pub rto: Duration,
}

impl TcpConnection {
    /// Structural soundness every operation preserves: ports are real,
    /// and no staged payload exceeds the negotiated MSS.
    pub open spec fn wf(&self) -> bool {
        &&& self.cxnid.local.port != 0
        &&& self.cxnid.remote.port != 0
        &&& 0 < self.mss <= DEFAULT_MSS
        &&& forall|i: int| 0 <= i < self.retransmit_queue@.len() ==> (
        #[trigger] self.retransmit_queue@[i]).payload@.len() <= DEFAULT_MSS
    }

    pub fn new(cxnid: TcpConnectionId, handle: TcpConnectionHandle, local_isn: u32,
        receive_window_size: u16, rto: Duration) -> (r: TcpConnection)
        requires
            cxnid.local.port != 0,
            cxnid.remote.port != 0,
        ensures
            r.wf(),
            r.cxnid == cxnid,
            r.handle == handle,
            r.local_isn == local_isn,
            r.seq_num == local_isn,
            r.remote_isn is None,
            r.mss == DEFAULT_MSS,
            r.state == TcpConnectionState::SynSent,
            r.receive_queue@.len() == 0,
            r.unread_queue@.len() == 0,
            r.send_buffer@.len() == 0,
            r.retransmit_queue@.len() == 0,
            r.rto == rto,
    {
        TcpConnection {
            cxnid,
            handle,
            local_isn,
            remote_isn: None,
            seq_num: local_isn,
            receive_next: 0,
            mss: DEFAULT_MSS,
            remote_receive_window_size: 0xFFFF,
            local_receive_window_size: receive_window_size,
            state: TcpConnectionState::SynSent,
            receive_queue: VecDeque::new(),
            unread_queue: VecDeque::new(),
            send_buffer: VecDeque::new(),
            retransmit_queue: Vec::new(),
            rto,
        }
    }

    pub fn get_handle(&self) -> (r: TcpConnectionHandle)
        ensures
            r == self.handle,
    {
        self.handle
    }

    pub fn get_id(&self) -> (r: TcpConnectionId)
        ensures
            r == self.cxnid,
    {
        self.cxnid
    }

    pub fn get_mss(&self) -> (r: usize)
        ensures
            r == self.mss,
    {
        self.mss
    }

    pub fn get_rto(&self) -> (r: Duration)
        ensures
            r == self.rto,
    {
        self.rto
    }

    /// The segment skeleton every emission starts from: addressed by the
    /// 4-tuple, carrying this side's sequence state and, once the remote
    /// ISN is known, an ACK of everything received.
    pub fn base_segment(&self) -> (r: TcpSegment)
        ensures
            r.src_ipv4_addr == Some(self.cxnid.local.addr),
            r.src_port == Some(self.cxnid.local.port),
            r.dest_ipv4_addr == Some(self.cxnid.remote.addr),
            r.dest_port == Some(self.cxnid.remote.port),
            r.seq_num == self.seq_num,
            r.ack == self.remote_isn.is_some(),
            self.remote_isn.is_some() ==> r.ack_num == self.receive_next,
            !r.syn && !r.rst,
            r.window_size == self.local_receive_window_size,
            r.mss is None,
            r.payload@.len() == 0,
    {
        let mut seg = TcpSegment::empty();
        seg.src_ipv4_addr = Some(self.cxnid.local.addr);
        seg.src_port = Some(self.cxnid.local.port);
        seg.dest_ipv4_addr = Some(self.cxnid.remote.addr);
        seg.dest_port = Some(self.cxnid.remote.port);
        seg.seq_num = self.seq_num;
        seg.window_size = self.local_receive_window_size;
        match self.remote_isn {
            Some(_) => {
                seg.ack = true;
                seg.ack_num = self.receive_next;
            },
            None => {},
        }
        seg
    }

    /// Learns the peer's ISN; one sequence number is consumed by the SYN.
    pub fn set_remote_isn(&mut self, isn: u32)
        requires
            old(self).wf(),
        ensures
            final(self).wf(),
            final(self).remote_isn == Some(isn),
            final(self).receive_next == (isn + 1) % 0x1_0000_0000,
            final(self).cxnid == old(self).cxnid,
            final(self).handle == old(self).handle,
            final(self).seq_num == old(self).seq_num,
            final(self).mss == old(self).mss,
            final(self).receive_queue == old(self).receive_queue,
            final(self).unread_queue == old(self).unread_queue,
            final(self).send_buffer == old(self).send_buffer,
            final(self).retransmit_queue == old(self).retransmit_queue,
            final(self).remote_receive_window_size == old(self).remote_receive_window_size,
            final(self).local_receive_window_size == old(self).local_receive_window_size,
            final(self).rto == old(self).rto,
    {
        self.remote_isn = Some(isn);
        self.receive_next = seq_add32(isn, 1);
    }

    /// The effective MSS is the minimum of what each side offered.
    pub fn negotiate_mss(&mut self, peer_offer: Option<u16>) -> (r: Result<(), Fail>)
        requires
            old(self).wf(),
        ensures
            final(self).wf(),
            r is Ok,
            final(self).mss == (match peer_offer {
                Some(m) => if m as int <= old(self).mss && m > 0 {
                    m as int
                } else if m == 0 && FALLBACK_MSS as int <= old(self).mss {
                    FALLBACK_MSS as int
                } else {
                    old(self).mss as int
                },
                None => if FALLBACK_MSS as int <= old(self).mss {
                    FALLBACK_MSS as int
                } else {
                    old(self).mss as int
                },
            }),
            final(self).cxnid == old(self).cxnid,
            final(self).handle == old(self).handle,
            final(self).seq_num == old(self).seq_num,
            final(self).remote_isn == old(self).remote_isn,
            final(self).receive_next == old(self).receive_next,
            final(self).receive_queue == old(self).receive_queue,
            final(self).retransmit_queue == old(self).retransmit_queue,
            final(self).send_buffer == old(self).send_buffer,
            final(self).unread_queue == old(self).unread_queue,
            final(self).remote_receive_window_size == old(self).remote_receive_window_size,
            final(self).local_receive_window_size == old(self).local_receive_window_size,
            final(self).rto == old(self).rto,
    {
        match peer_offer {
            Some(m) => {
                if m == 0 {
                    if FALLBACK_MSS <= self.mss {
                        self.mss = FALLBACK_MSS;
                    }
                } else if (m as usize) <= self.mss {
                    self.mss = m as usize;
                }
            },
            None => {
                if FALLBACK_MSS <= self.mss {
                    self.mss = FALLBACK_MSS;
                }
            },
        }
        Ok(())
    }

    pub fn set_remote_receive_window_size(&mut self, window: u16) -> (r: Result<(), Fail>)
        requires
            old(self).wf(),
        ensures
            final(self).wf(),
            r is Ok,
            final(self).remote_receive_window_size == window as int,
            final(self).cxnid == old(self).cxnid,
            final(self).handle == old(self).handle,
            final(self).seq_num == old(self).seq_num,
            final(self).remote_isn == old(self).remote_isn,
            final(self).receive_next == old(self).receive_next,
            final(self).mss == old(self).mss,
            final(self).receive_queue == old(self).receive_queue,
            final(self).retransmit_queue == old(self).retransmit_queue,
            final(self).send_buffer == old(self).send_buffer,
            final(self).unread_queue == old(self).unread_queue,
            final(self).local_receive_window_size == old(self).local_receive_window_size,
            final(self).rto == old(self).rto,
    {
        self.remote_receive_window_size = window as usize;
        Ok(())
    }

    pub fn set_state(&mut self, state: TcpConnectionState)
        requires
            old(self).wf(),
        ensures
            final(self).wf(),
            final(self).state == state,
            final(self).cxnid == old(self).cxnid,
            final(self).handle == old(self).handle,
            final(self).seq_num == old(self).seq_num,
            final(self).remote_isn == old(self).remote_isn,
            final(self).receive_next == old(self).receive_next,
            final(self).mss == old(self).mss,
            final(self).receive_queue == old(self).receive_queue,
            final(self).unread_queue == old(self).unread_queue,
            final(self).send_buffer == old(self).send_buffer,
            final(self).retransmit_queue == old(self).retransmit_queue,
            final(self).remote_receive_window_size == old(self).remote_receive_window_size,
            final(self).local_receive_window_size == old(self).local_receive_window_size,
            final(self).rto == old(self).rto,
    {
        self.state = state;
    }

    /// Consumes one sequence number (the SYN of this side).
    pub fn incr_seq_num(&mut self)
        requires
            old(self).wf(),
        ensures
            final(self).wf(),
            final(self).seq_num == (old(self).seq_num + 1) % 0x1_0000_0000,
            final(self).cxnid == old(self).cxnid,
            final(self).handle == old(self).handle,
            final(self).remote_isn == old(self).remote_isn,
            final(self).receive_next == old(self).receive_next,
            final(self).mss == old(self).mss,
            final(self).receive_queue == old(self).receive_queue,
            final(self).retransmit_queue == old(self).retransmit_queue,
            final(self).send_buffer == old(self).send_buffer,
            final(self).unread_queue == old(self).unread_queue,
            final(self).remote_receive_window_size == old(self).remote_receive_window_size,
            final(self).local_receive_window_size == old(self).local_receive_window_size,
            final(self).rto == old(self).rto,
    {
        self.seq_num = seq_add32(self.seq_num, 1);
    }

    /// Appends application bytes to the send buffer.
    pub fn write(&mut self, bytes: &Vec<u8>)
        requires
            old(self).wf(),
        ensures
            final(self).wf(),
            final(self).send_buffer@ == old(self).send_buffer@ + bytes@,
            final(self).cxnid == old(self).cxnid,
            final(self).handle == old(self).handle,
            final(self).unread_queue == old(self).unread_queue,
            final(self).retransmit_queue == old(self).retransmit_queue,
    {
        let n = bytes.len();
        let mut i: usize = 0;
        while i < n
            invariant
                i <= n,
                n == bytes@.len(),
                self.send_buffer@ == old(self).send_buffer@ + bytes@.subrange(0, i as int),
                self.wf(),
                self.cxnid == old(self).cxnid,
                self.handle == old(self).handle,
                self.unread_queue == old(self).unread_queue,
                self.retransmit_queue == old(self).retransmit_queue,
            decreases n - i,
        {
            self.send_buffer.push_back(bytes[i]);
            i = i + 1;
            proof {
                assert(self.send_buffer@ =~= old(self).send_buffer@ + bytes@.subrange(
                    0,
                    i as int,
                ));
            }
        }
        proof {
            assert(bytes@.subrange(0, n as int) =~= bytes@);
        }
    }

    pub fn peek(&self) -> (r: Option<&Vec<u8>>)
        ensures
            self.unread_queue@.len() > 0 ==> (r matches Some(b) && b@ == self.unread_queue@[0]@),
            self.unread_queue@.len() == 0 ==> r is None,
    {
        if self.unread_queue.len() > 0 {
            Some(&self.unread_queue[0])
        } else {
            None
        }
    }

    pub fn read(&mut self) -> (r: Option<Vec<u8>>)
        requires
            old(self).wf(),
        ensures
            final(self).wf(),
            old(self).unread_queue@.len() > 0 ==> (r matches Some(b) && b@ == old(self).unread_queue@[0]@ && final(self).unread_queue@ == old(self).unread_queue@.drop_first()),
            old(self).unread_queue@.len() == 0 ==> r is None && final(self).unread_queue@ == old(self).unread_queue@,
            final(self).cxnid == old(self).cxnid,
            final(self).handle == old(self).handle,
    {
        self.unread_queue.pop_front()
    }

    /// Steady-state handling of one inbound segment: an ACK retires fully
    /// acknowledged retransmission records, refreshes the peer's window,
    /// and feeds the newest retired record's age into a smoothed
    /// retransmission timeout (seven-eighths history, one-eighth sample);
    /// an in-order payload advances `receive_next` and queues the bytes
    /// for the reader; anything out of order is `Ignored`.
    pub fn receive(&mut self, seg: &TcpSegment, now: Instant) -> (r: Result<(), Fail>)
        requires
            old(self).wf(),
        ensures
            final(self).wf(),
            final(self).cxnid == old(self).cxnid,
            final(self).handle == old(self).handle,
            final(self).receive_queue@ == old(self).receive_queue@,
            final(self).send_buffer@ == old(self).send_buffer@,
            final(self).seq_num == old(self).seq_num,
            final(self).retransmit_queue@.len() <= old(self).retransmit_queue@.len(),
            old(self).retransmit_queue@.len() == 0 ==> final(self).retransmit_queue@.len() == 0
                && final(self).rto == old(self).rto,
            !seg.ack ==> final(self).retransmit_queue@ == old(self).retransmit_queue@ && final(self).rto == old(self).rto && final(self).remote_receive_window_size == old(self).remote_receive_window_size,
            r matches Err(e) ==> e == Fail::Ignored,
            seg.payload@.len() > 0 && seg.seq_num == old(self).receive_next ==> r is Ok && final(self).unread_queue@.len() == old(self).unread_queue@.len() + 1 && final(self).unread_queue@.last()@ == seg.payload@ && final(self).receive_next == (old(self).receive_next + seg.payload@.len()) % 0x1_0000_0000,
            seg.payload@.len() > 0 && seg.seq_num != old(self).receive_next ==> r
                == Err::<(), Fail>(Fail::Ignored),
            seg.payload@.len() == 0 ==> r is Ok && final(self).unread_queue == old(self).unread_queue && final(self).receive_next == old(self).receive_next,
    {
        if seg.ack {
            self.remote_receive_window_size = seg.window_size as usize;
            let n = self.retransmit_queue.len();
            let mut kept: Vec<RetransmitRecord> = Vec::new();
            let mut newest_acked: Option<Instant> = None;
            let mut i: usize = 0;
            while i < n
                invariant
                    i <= n,
                    n == self.retransmit_queue@.len(),
                    self.wf(),
                    kept@.len() <= i,
                    n == 0 ==> newest_acked is None,
                    forall|a: int| 0 <= a < kept@.len() ==> (#[trigger] kept@[a]).payload@.len()
                        <= DEFAULT_MSS,
                decreases n - i,
            {
                let rec = &self.retransmit_queue[i];
                let end = seq_add32(rec.seq_num, rec.payload.len() as u32);
                if !seq_le32(end, seg.ack_num) {
                    let copy = RetransmitRecord {
                        seq_num: rec.seq_num,
                        payload: rec.payload.clone(),
                        last_sent: rec.last_sent,
                    };
                    proof {
                        assert(copy.payload@ =~= rec.payload@);
                    }
                    kept.push(copy);
                } else {
                    newest_acked = Some(rec.last_sent);
                }
                i = i + 1;
            }
            self.retransmit_queue = kept;
            match newest_acked {
                Some(sent_at) => {
                    // smoothed RTT estimate: weight the history seven to one
                    let sample = now.since(sent_at);
                    self.rto = Duration { ns: (self.rto.ns / 8) * 7 + sample.ns / 8 };
                },
                None => {},
            }
        }
        if self.payload_len(seg) > 0 {
            if seg.seq_num == self.receive_next {
                let len32: u32 = ((self.payload_len(seg) as u64) % 0x1_0000_0000u64) as u32;
                proof {
                    let a = self.receive_next as int;
                    let b = seg.payload@.len() as int;
                    assert((a + b % 0x1_0000_0000) % 0x1_0000_0000 == (a + b) % 0x1_0000_0000) by (
                    nonlinear_arith);
                }
                self.receive_next = seq_add32(self.receive_next, len32);
                self.unread_queue.push_back(seg.payload.clone());
                proof {
                    assert(self.unread_queue@.last()@ =~= seg.payload@);
                }
                Ok(())
            } else {
                Err(Fail::Ignored)
            }
        } else {
            Ok(())
        }
    }

    fn payload_len(&self, seg: &TcpSegment) -> (r: usize)
        ensures
            r == seg.payload@.len(),
    {
        seg.payload.len()
    }

    /// The next segment owed to the wire, if any: first any expired
    /// retransmission, then fresh bytes from the send buffer within the
    /// MSS and the peer's advertised window.  Returned segments carry the
    /// current ACK state.
    pub fn try_get_next_transmittable_segment(&mut self, now: Instant) -> (r: Option<TcpSegment>)
        requires
            old(self).wf(),
        ensures
            final(self).wf(),
            final(self).cxnid == old(self).cxnid,
            final(self).handle == old(self).handle,
            r matches Some(seg) ==> {
                &&& seg.src_ipv4_addr == Some(old(self).cxnid.local.addr)
                &&& seg.dest_ipv4_addr == Some(old(self).cxnid.remote.addr)
                &&& seg.src_port == Some(old(self).cxnid.local.port)
                &&& seg.dest_port == Some(old(self).cxnid.remote.port)
                &&& seg.payload@.len() <= DEFAULT_MSS
                &&& !seg.syn && !seg.rst
            },
            // the emitted segment is either the first due retransmission,
            // re-sent as recorded, or the next send-buffer prefix within
            // the MSS and the peer's window
            r matches Some(seg) ==> ((exists|j: int|
                0 <= j < old(self).retransmit_queue@.len() && retransmit_due(
                    #[trigger] old(self).retransmit_queue@[j],
                    now,
                    old(self).rto,
                ) && seg.seq_num == old(self).retransmit_queue@[j].seq_num && seg.payload@ == old(self).retransmit_queue@[j].payload@) && final(self).seq_num == old(self).seq_num
                && final(self).send_buffer@ == old(self).send_buffer@) || (seg.payload@.len() > 0
                && seg.payload@ == old(self).send_buffer@.subrange(0, seg.payload@.len() as int)
                && seg.payload@.len() <= old(self).mss && seg.payload@.len() <= old(self).remote_receive_window_size && seg.seq_num == old(self).seq_num && final(self).seq_num
                == ((old(self).seq_num + seg.payload@.len()) % 0x1_0000_0000) && final(self).send_buffer@ == old(self).send_buffer@.subrange(
                seg.payload@.len() as int,
                old(self).send_buffer@.len() as int,
            ) && final(self).retransmit_queue@.len() == old(self).retransmit_queue@.len() + 1
                && final(self).retransmit_queue@.last().seq_num == old(self).seq_num && final(self).retransmit_queue@.last().payload@ == seg.payload@ && final(self).retransmit_queue@.last().last_sent == now && forall|j: int|
                0 <= j < old(self).retransmit_queue@.len() ==> #[trigger] final(self).retransmit_queue@[j] == old(self).retransmit_queue@[j]),
            // and conversely: an idle connection yields nothing
            (old(self).send_buffer@.len() == 0 && forall|j: int|
                0 <= j < old(self).retransmit_queue@.len() ==> !retransmit_due(
                    #[trigger] old(self).retransmit_queue@[j],
                    now,
                    old(self).rto,
                )) ==> r is None,
            // nothing is owed only when no retransmission is due and no
            // sendable byte fits the peer's window
            r is None ==> *final(self) == *old(self) && (old(self).send_buffer@.len() == 0 || old(self).remote_receive_window_size == 0) && forall|j: int|
                0 <= j < old(self).retransmit_queue@.len() ==> !retransmit_due(
                    #[trigger] old(self).retransmit_queue@[j],
                    now,
                    old(self).rto,
                ),
    {
        // expired retransmissions first
        let n = self.retransmit_queue.len();
        let mut i: usize = 0;
        while i < n
            invariant
                i <= n,
                n == self.retransmit_queue@.len(),
                self.wf(),
                *self == *old(self),
                forall|j: int| 0 <= j < i ==> !retransmit_due(
                    #[trigger] self.retransmit_queue@[j],
                    now,
                    self.rto,
                ),
            decreases n - i,
        {
            let due = {
                let rec = &self.retransmit_queue[i];
                now.since(rec.last_sent).ns >= self.rto.ns
            };
            if due {
                let mut rec = self.retransmit_queue.remove(i);
                let mut seg = self.base_segment();
                seg.seq_num = rec.seq_num;
                seg.payload = rec.payload.clone();
                proof {
                    assert(seg.payload@ =~= rec.payload@);
                }
                rec.last_sent = now;
                self.retransmit_queue.insert(i, rec);
                proof {
                    assert forall|a: int| 0 <= a < self.retransmit_queue@.len() implies (
                    #[trigger] self.retransmit_queue@[a]).payload@.len() <= DEFAULT_MSS by {
                        let o = old(self).retransmit_queue@;
                        if a < i {
                            assert(self.retransmit_queue@[a] == o[a]);
                        } else if a > i {
                            assert(self.retransmit_queue@[a] == o[a]);
                        }
                    }
                }
                return Some(seg);
            }
            i = i + 1;
        }
        // then fresh data within MSS and the peer's window
        if self.send_buffer.len() == 0 {
            return None;
        }
        let budget: usize = if self.remote_receive_window_size < self.mss {
            self.remote_receive_window_size
        } else {
            self.mss
        };
        if budget == 0 {
            return None;
        }
        let take: usize = if self.send_buffer.len() < budget {
            self.send_buffer.len()
        } else {
            budget
        };
        let mut payload: Vec<u8> = Vec::new();
        let mut k: usize = 0;
        while k < take
            invariant
                k <= take,
                payload@.len() == k,
                take <= old(self).mss,
                take <= old(self).remote_receive_window_size,
                take <= old(self).send_buffer@.len(),
                self.wf(),
                self.cxnid == old(self).cxnid,
                self.handle == old(self).handle,
                self.mss == old(self).mss,
                self.seq_num == old(self).seq_num,
                self.remote_isn == old(self).remote_isn,
                self.receive_next == old(self).receive_next,
                self.local_receive_window_size == old(self).local_receive_window_size,
                self.remote_receive_window_size == old(self).remote_receive_window_size,
                self.rto == old(self).rto,
                self.retransmit_queue == old(self).retransmit_queue,
                self.unread_queue == old(self).unread_queue,
                payload@ == old(self).send_buffer@.subrange(0, k as int),
                self.send_buffer@ == old(self).send_buffer@.subrange(
                    k as int,
                    old(self).send_buffer@.len() as int,
                ),
            decreases take - k,
        {
            match self.send_buffer.pop_front() {
                Some(b) => {
                    payload.push(b);
                },
                None => {
                    proof {
                        assert(false);
                    }
                },
            }
            k = k + 1;
            proof {
                assert(payload@ =~= old(self).send_buffer@.subrange(0, k as int));
                assert(self.send_buffer@ =~= old(self).send_buffer@.subrange(
                    k as int,
                    old(self).send_buffer@.len() as int,
                ));
            }
        }
        let mut seg = self.base_segment();
        seg.payload = payload;
        self.retransmit_queue.push(
            RetransmitRecord { seq_num: self.seq_num, payload: seg.payload.clone(), last_sent: now },
        );
        proof {
            assert(self.retransmit_queue@.last().payload@ =~= seg.payload@);
            assert forall|a: int| 0 <= a < self.retransmit_queue@.len() implies (
            #[trigger] self.retransmit_queue@[a]).payload@.len() <= DEFAULT_MSS by {}
        }
        self.seq_num = seq_add32(self.seq_num, seg.payload.len() as u32);
        Some(seg)
    }
}

/// The connection table is keyed uniquely by the 4-tuple, handles are
/// unique, and every connection is itself well formed.
pub open spec fn table_wf(s: Seq<TcpConnection>) -> bool {
    &&& forall|i: int| 0 <= i < s.len() ==> (#[trigger] s[i]).wf()
    &&& forall|a: int, b: int| 0 <= a < b < s.len() ==> (#[trigger] s[a]).cxnid != (
    #[trigger] s[b]).cxnid && s[a].handle != s[b].handle
}

pub open spec fn has_cxn(s: Seq<TcpConnection>, cxnid: TcpConnectionId) -> bool {
    exists|i: int| 0 <= i < s.len() && (#[trigger] s[i]).cxnid == cxnid
}

pub open spec fn has_handle(s: Seq<TcpConnection>, handle: TcpConnectionHandle) -> bool {
    exists|i: int| 0 <= i < s.len() && (#[trigger] s[i]).handle == handle
}

/// The 4-tuple keys the table uniquely: two entries bearing the same
/// id are the same entry.
pub proof fn lemma_cxnid_unique(s: Seq<TcpConnection>, i: int, j: int)
    requires
        table_wf(s),
        0 <= i < s.len(),
        0 <= j < s.len(),
        s[i].cxnid == s[j].cxnid,
    ensures
        i == j,
{
    if i < j {
        assert(s[i].cxnid != s[j].cxnid);
    } else if j < i {
        assert(s[j].cxnid != s[i].cxnid);
    }
}

/// Handle/table bijection: the connection table is the single store
/// behind both the handle map and the 4-tuple map, and in a well-formed
/// table a handle (like a 4-tuple) designates at most one connection.
pub proof fn lemma_handle_bijection(s: Seq<TcpConnection>, i: int, j: int)
    requires
        table_wf(s),
        0 <= i < s.len(),
        0 <= j < s.len(),
        s[i].handle == s[j].handle,
    ensures
        i == j,
        s[i].cxnid == s[j].cxnid,
{
    if i < j {
        assert(s[i].handle != s[j].handle);
    } else if j < i {
        assert(s[j].handle != s[i].handle);
    }
}

/// The handle pool is sound: no handle is pooled twice, and no pooled
/// handle is still assigned in the connection table.
pub open spec fn handles_fresh(st: TcpPeerState) -> bool {
    &&& st.unassigned_connection_handles@.no_duplicates()
    &&& forall|i: int, j: int|
        0 <= i < st.unassigned_connection_handles@.len() && 0 <= j < st.connections@.len() ==> (
        #[trigger] st.unassigned_connection_handles@[i]) != (#[trigger] st.connections@[j]).handle.v
}

pub struct TcpPeerState {
    pub connections: Vec<TcpConnection>,
    pub isn_secret: u64,
    pub isn_counter: u32,
    pub open_ports: Vec<u16>,
    pub unassigned_connection_handles: VecDeque<u16>,
    pub unassigned_private_ports: VecDeque<u16>,
    /// Futures staged for `background_work`; moved over at the start of
    /// each tick, never while the combinator may be in use.
    pub background_queue: VecDeque<Future>,
    pub background_work: WhenAny,
}

impl TcpPeerState {
    pub open spec fn wf(&self) -> bool {
        table_wf(self.connections@)
    }

    /// A fresh peer: empty tables and the two shuffled allocation pools.
    pub fn new(rt: &mut Runtime) -> (r: TcpPeerState)
        ensures
            r.wf(),
            r.connections@.len() == 0,
            r.open_ports@.len() == 0,
            r.unassigned_private_ports@.len() == 65535 - FIRST_PRIVATE_PORT,
            r.unassigned_connection_handles@.len() == 65534,
            r.background_queue@.len() == 0,
            r.background_work.members@.len() == 0,
            forall|i: int| 0 <= i < r.unassigned_private_ports@.len() ==> FIRST_PRIVATE_PORT <= (
            #[trigger] r.unassigned_private_ports@[i]) < 65535,
            forall|i: int| 0 <= i < r.unassigned_connection_handles@.len() ==> 0 < (
            #[trigger] r.unassigned_connection_handles@[i]) < 65535,
            // the pools are permutations of their ranges: every entry in
            // range, none repeated
            r.unassigned_private_ports@.no_duplicates(),
            r.unassigned_connection_handles@.no_duplicates(),
            final(rt).events@ == old(rt).events@,
            final(rt).sched.cos@ == old(rt).sched.cos@,
            final(rt).options == old(rt).options,
    {
        let mut ports: Vec<u16> = Vec::new();
        let mut p: u16 = FIRST_PRIVATE_PORT;
        while p < 65535
            invariant
                FIRST_PRIVATE_PORT <= p <= 65535,
                ports@.len() == p - FIRST_PRIVATE_PORT,
                forall|i: int| 0 <= i < ports@.len() ==> FIRST_PRIVATE_PORT <= (
                #[trigger] ports@[i]) < p,
                forall|a: int, b: int| 0 <= a < b < ports@.len() ==> ports@[a] < ports@[b],
            decreases 65535 - p,
        {
            ports.push(p);
            p = p + 1;
        }
        proof {
            assert(ports@.no_duplicates());
            ports@.lemma_multiset_has_no_duplicates();
        }
        shuffle_u16(&mut rt.rng, &mut ports);
        proof {
            broadcast use vstd::seq_lib::group_to_multiset_ensures;

            assert forall|i: int| 0 <= i < ports@.len() implies FIRST_PRIVATE_PORT <= (
            #[trigger] ports@[i]) < 65535 by {
                assert(ports@.to_multiset().contains(ports@[i]));
            }
            ports@.lemma_multiset_has_no_duplicates_conv();
        }
        let mut port_pool: VecDeque<u16> = VecDeque::new();
        let mut i: usize = 0;
        while i < ports.len()
            invariant
                i <= ports@.len(),
                port_pool@ == ports@.subrange(0, i as int),
            decreases ports@.len() - i,
        {
            port_pool.push_back(ports[i]);
            i = i + 1;
            proof {
                assert(port_pool@ =~= ports@.subrange(0, i as int));
            }
        }
        proof {
            assert(port_pool@ =~= ports@);
        }
        let mut handles: Vec<u16> = Vec::new();
        let mut h: u16 = 1;
        while h < 65535
            invariant
                1 <= h <= 65535,
                handles@.len() == h - 1,
                forall|i2: int| 0 <= i2 < handles@.len() ==> 0 < (#[trigger] handles@[i2]) < h,
                forall|a: int, b: int| 0 <= a < b < handles@.len() ==> handles@[a] < handles@[b],
            decreases 65535 - h,
        {
            handles.push(h);
            h = h + 1;
        }
        proof {
            assert(handles@.no_duplicates());
            handles@.lemma_multiset_has_no_duplicates();
        }
        shuffle_u16(&mut rt.rng, &mut handles);
        proof {
            broadcast use vstd::seq_lib::group_to_multiset_ensures;

            assert forall|i2: int| 0 <= i2 < handles@.len() implies 0 < (#[trigger] handles@[i2])
                < 65535 by {
                assert(handles@.to_multiset().contains(handles@[i2]));
            }
            handles@.lemma_multiset_has_no_duplicates_conv();
        }
        let mut handle_pool: VecDeque<u16> = VecDeque::new();
        let mut k: usize = 0;
        while k < handles.len()
            invariant
                k <= handles@.len(),
                handle_pool@ == handles@.subrange(0, k as int),
            decreases handles@.len() - k,
        {
            handle_pool.push_back(handles[k]);
            k = k + 1;
            proof {
                assert(handle_pool@ =~= handles@.subrange(0, k as int));
            }
        }
        proof {
            assert(handle_pool@ =~= handles@);
        }
        let isn_secret = rng_next_u64(&mut rt.rng);
        TcpPeerState {
            connections: Vec::new(),
            isn_secret,
            isn_counter: 0,
            open_ports: Vec::new(),
            unassigned_connection_handles: handle_pool,
            unassigned_private_ports: port_pool,
            background_queue: VecDeque::new(),
            background_work: WhenAny::new(),
        }
    }

    pub fn find_connection(&self, cxnid: &TcpConnectionId) -> (r: Option<usize>)
        ensures
            r matches Some(i) ==> i < self.connections@.len() && self.connections@[i as int].cxnid
                == *cxnid,
            r is None ==> !has_cxn(self.connections@, *cxnid),
    {
        let n = self.connections.len();
        let mut i: usize = 0;
        while i < n
            invariant
                i <= n,
                n == self.connections@.len(),
                forall|j: int| 0 <= j < i ==> (#[trigger] self.connections@[j]).cxnid != *cxnid,
            decreases n - i,
        {
            let c = &self.connections[i];
            if c.cxnid.local.addr.bits == cxnid.local.addr.bits && c.cxnid.local.port
                == cxnid.local.port && c.cxnid.remote.addr.bits == cxnid.remote.addr.bits
                && c.cxnid.remote.port == cxnid.remote.port {
                return Some(i);
            }
            i = i + 1;
        }
        None
    }

    /// The index of the connection a handle designates.
    pub fn get_connection_given_handle(&self, handle: TcpConnectionHandle) -> (r: Result<
        usize,
        Fail,
    >)
        ensures
            r matches Ok(i) ==> i < self.connections@.len() && self.connections@[i as int].handle
                == handle,
            r matches Err(e) ==> e == Fail::ResourceNotFound && !has_handle(
                self.connections@,
                handle,
            ),
    {
        let n = self.connections.len();
        let mut i: usize = 0;
        while i < n
            invariant
                i <= n,
                n == self.connections@.len(),
                forall|j: int| 0 <= j < i ==> (#[trigger] self.connections@[j]).handle != handle,
            decreases n - i,
        {
            if self.connections[i].handle.v == handle.v {
                return Ok(i);
            }
            i = i + 1;
        }
        Err(Fail::ResourceNotFound)
    }

    /// Front-pop allocation from the shuffled private-port pool.
    pub fn acquire_private_port(&mut self) -> (r: Result<u16, Fail>)
        ensures
            final(self).isn_secret == old(self).isn_secret,
            final(self).isn_counter == old(self).isn_counter,
            final(self).connections == old(self).connections,
            final(self).open_ports == old(self).open_ports,
            final(self).background_queue == old(self).background_queue,
            old(self).unassigned_private_ports@.len() == 0 ==> r == Err::<u16, Fail>(
                Fail::ResourceExhausted,
            ) && final(self).unassigned_private_ports@ == old(self).unassigned_private_ports@,
            old(self).unassigned_private_ports@.len() > 0 ==> r == Ok::<u16, Fail>(
                old(self).unassigned_private_ports@[0],
            ) && final(self).unassigned_private_ports@ == old(self).unassigned_private_ports@.drop_first(),
    {
        match self.unassigned_private_ports.pop_front() {
            Some(p) => {
                proof {
                    assert(old(self).unassigned_private_ports@.subrange(
                        1,
                        old(self).unassigned_private_ports@.len() as int,
                    ) =~= old(self).unassigned_private_ports@.drop_first());
                }
                Ok(p)
            },
            None => Err(Fail::ResourceExhausted),
        }
    }

    /// Back-push release, re-enabling allocation.
    pub fn release_private_port(&mut self, port: u16)
        requires
            port >= FIRST_PRIVATE_PORT,
        ensures
            final(self).isn_secret == old(self).isn_secret,
            final(self).isn_counter == old(self).isn_counter,
            final(self).connections == old(self).connections,
            final(self).open_ports == old(self).open_ports,
            final(self).unassigned_private_ports@ == old(self).unassigned_private_ports@.push(
                port,
            ),
    {
        self.unassigned_private_ports.push_back(port);
    }

    pub fn acquire_connection_handle(&mut self) -> (r: Result<TcpConnectionHandle, Fail>)
        ensures
            final(self).isn_secret == old(self).isn_secret,
            final(self).isn_counter == old(self).isn_counter,
            final(self).connections == old(self).connections,
            final(self).open_ports == old(self).open_ports,
            old(self).unassigned_connection_handles@.len() == 0 ==> r == Err::<
                TcpConnectionHandle,
                Fail,
            >(Fail::ResourceExhausted) && final(self).unassigned_connection_handles@ == old(self).unassigned_connection_handles@,
            old(self).unassigned_connection_handles@.len() > 0 ==> r == Ok::<
                TcpConnectionHandle,
                Fail,
            >(
                TcpConnectionHandle { v: old(self).unassigned_connection_handles@[0] },
            ) && final(self).unassigned_connection_handles@ == old(self).unassigned_connection_handles@.drop_first(),
    {
        match self.unassigned_connection_handles.pop_front() {
            Some(h) => {
                proof {
                    assert(old(self).unassigned_connection_handles@.subrange(
                        1,
                        old(self).unassigned_connection_handles@.len() as int,
                    ) =~= old(self).unassigned_connection_handles@.drop_first());
                }
                Ok(TcpConnectionHandle { v: h })
            },
            None => Err(Fail::ResourceExhausted),
        }
    }

    pub fn release_connection_handle(&mut self, handle: TcpConnectionHandle)
        requires
            !old(self).unassigned_connection_handles@.contains(handle.v),
            !has_handle(old(self).connections@, handle),
        ensures
            handles_fresh(*old(self)) ==> handles_fresh(*final(self)),
            final(self).isn_secret == old(self).isn_secret,
            final(self).isn_counter == old(self).isn_counter,
            final(self).connections == old(self).connections,
            final(self).open_ports == old(self).open_ports,
            final(self).unassigned_connection_handles@ == old(self).unassigned_connection_handles@.push(handle.v),
    {
        self.unassigned_connection_handles.push_back(handle.v);
    }

    /// The deterministic ISN for a 4-tuple: a mix of the per-runtime
    /// secret and the addresses, advanced by a counter so that successive
    /// connections move forward in sequence space.
    pub open spec fn isn_spec(secret: u64, counter: u32, cxnid: TcpConnectionId) -> int {
        (secret + cxnid.local.addr.bits * 7 + cxnid.local.port * 13 + cxnid.remote.addr.bits * 31
            + cxnid.remote.port * 57 + counter) % 0x1_0000_0000
    }

    pub fn isn_next(&mut self, cxnid: &TcpConnectionId) -> (r: u32)
        ensures
            r == Self::isn_spec(old(self).isn_secret, old(self).isn_counter, *cxnid),
            final(self).isn_counter == (old(self).isn_counter + 1) % 0x1_0000_0000,
            final(self).isn_secret == old(self).isn_secret,
            final(self).connections == old(self).connections,
            final(self).open_ports == old(self).open_ports,
            final(self).unassigned_private_ports == old(self).unassigned_private_ports,
            final(self).unassigned_connection_handles == old(self).unassigned_connection_handles,
            final(self).background_queue == old(self).background_queue,
    {
        let mix: u64 = (self.isn_secret % 0x1_0000_0000) + (cxnid.local.addr.bits as u64) * 7 + (
        cxnid.local.port as u64) * 13 + (cxnid.remote.addr.bits as u64) * 31 + (
        cxnid.remote.port as u64) * 57 + (self.isn_counter as u64);
        let r = (mix % 0x1_0000_0000) as u32;
        proof {
            let s0 = old(self).isn_secret as int;
            let rest = cxnid.local.addr.bits * 7 + cxnid.local.port * 13 + cxnid.remote.addr.bits
                * 31 + cxnid.remote.port * 57 + old(self).isn_counter;
            assert((s0 % 0x1_0000_0000 + rest) % 0x1_0000_0000 == (s0 + rest) % 0x1_0000_0000) by (
            nonlinear_arith);
        }
        self.isn_counter = seq_add32(self.isn_counter, 1);
        r
    }

    /// Creates and registers a connection for a 4-tuple not yet in the
    /// table: allocates a handle, derives the ISN, and opens the local
    /// port.  Fails with `ResourceExhausted` when no handle is available.
    pub fn new_connection(&mut self, cxnid: TcpConnectionId, receive_window_size: u16, rto:
        Duration) -> (r: Result<TcpConnectionHandle, Fail>)
        requires
            old(self).wf(),
            cxnid.local.port != 0,
            cxnid.remote.port != 0,
            !has_cxn(old(self).connections@, cxnid),
        ensures
            final(self).wf(),
            r matches Err(e) ==> e == Fail::ResourceExhausted && final(self).connections == old(self).connections,
            old(self).unassigned_connection_handles@.len() == 0 ==> r is Err,
            handles_fresh(*old(self)) && old(self).unassigned_connection_handles@.len() > 0 ==> r
                is Ok,
            handles_fresh(*old(self)) ==> handles_fresh(*final(self)),
            r matches Ok(h) ==> {
                &&& final(self).connections@.len() == old(self).connections@.len() + 1
                &&& final(self).connections@.last().cxnid == cxnid
                &&& final(self).connections@.last().handle == h
                &&& final(self).connections@.last().remote_isn is None
                &&& final(self).connections@.last().mss == DEFAULT_MSS
                &&& final(self).connections@.last().state == TcpConnectionState::SynSent
                &&& final(self).connections@.last().receive_queue@.len() == 0
                &&& h == (TcpConnectionHandle { v: old(self).unassigned_connection_handles@[0] })
                &&& final(self).unassigned_connection_handles@ == old(self).unassigned_connection_handles@.drop_first()
                &&& final(self).connections@.last().local_isn == Self::isn_spec(
                    old(self).isn_secret,
                    old(self).isn_counter,
                    cxnid,
                )
                &&& final(self).connections@.last().seq_num == final(self).connections@.last().local_isn
                &&& final(self).connections@.last().rto == rto
                &&& forall|i: int| 0 <= i < old(self).connections@.len() ==> final(self).connections@[i] == old(self).connections@[i]
                &&& final(self).open_ports@.contains(cxnid.local.port)
            },
    {
        let handle = match self.acquire_connection_handle() {
            Ok(h) => h,
            Err(e) => {
                return Err(Fail::ResourceExhausted);
            },
        };
        // a sound pool never hands out a handle that is still assigned;
        // a used one is surfaced as exhaustion rather than corrupting the
        // table
        match self.get_connection_given_handle(handle) {
            Ok(i) => {
                proof {
                    if handles_fresh(*old(self)) {
                        assert(old(self).unassigned_connection_handles@[0] == handle.v);
                        assert(old(self).connections@[i as int].handle == handle);
                        assert(false);
                    }
                }
                return Err(Fail::ResourceExhausted);
            },
            Err(_) => {},
        }
        let local_isn = self.isn_next(&cxnid);
        let cxn = TcpConnection::new(cxnid, handle, local_isn, receive_window_size, rto);
        let ghost before = self.connections@;
        self.connections.push(cxn);
        proof {
            assert forall|a: int, b: int| 0 <= a < b < self.connections@.len() implies (
            #[trigger] self.connections@[a]).cxnid != (#[trigger] self.connections@[b]).cxnid
                && self.connections@[a].handle != self.connections@[b].handle by {
                if b == self.connections@.len() - 1 {
                    assert(self.connections@[a] == before[a]);
                }
            }
            assert(forall|i: int| 0 <= i < self.connections@.len() ==> (
            #[trigger] self.connections@[i]).wf());
        }
        if !self.port_is_open(cxnid.local.port) {
            self.open_ports.push(cxnid.local.port);
            proof {
                assert(self.open_ports@[self.open_ports@.len() - 1] == cxnid.local.port);
            }
        }
        proof {
            if handles_fresh(*old(self)) {
                assert forall|a: int, b: int|
                    0 <= a < self.unassigned_connection_handles@.len() && 0 <= b
                        < self.connections@.len() implies (
                #[trigger] self.unassigned_connection_handles@[a]) != (
                #[trigger] self.connections@[b]).handle.v by {
                    assert(self.unassigned_connection_handles@[a] == old(self).unassigned_connection_handles@[a + 1]);
                    if b < self.connections@.len() - 1 {
                        assert(self.connections@[b] == old(self).connections@[b]);
                    } else {
                        assert(self.connections@[b].handle == handle);
                        assert(old(self).unassigned_connection_handles@[a + 1] != old(self).unassigned_connection_handles@[0]);
                    }
                }
            }
        }
        Ok(handle)
    }

    pub fn port_is_open(&self, port: u16) -> (r: bool)
        ensures
            r == self.open_ports@.contains(port),
    {
        let n = self.open_ports.len();
        let mut i: usize = 0;
        while i < n
            invariant
                i <= n,
                n == self.open_ports@.len(),
                forall|j: int| 0 <= j < i ==> self.open_ports@[j] != port,
            decreases n - i,
        {
            if self.open_ports[i] == port {
                return true;
            }
            i = i + 1;
        }
        false
    }

    /// Spawns the coroutine that resolves the destination and transmits
    /// one encoded segment.
    pub fn cast(rt: &mut Runtime, now: Instant, seg: TcpSegment) -> (r: Future)
        ensures
            no_active(old(rt).sched.cos@) ==> no_active(final(rt).sched.cos@),
            sched_extends(old(rt).sched.cos@, final(rt).sched.cos@),
            final(rt).events@ == old(rt).events@,
            final(rt).sched.cos@.len() == old(rt).sched.cos@.len() + 1,
            final(rt).sched.cos@.last().body == (Task::TcpCast { seg, arp: None }),
    {
        rt.spawn(Task::TcpCast { seg, arp: None }, now)
    }

    /// Spawns the coroutine that opens a connection actively.
    pub fn new_active_connection(rt: &mut Runtime, now: Instant, cxnid: TcpConnectionId) -> (r:
        Future)
        ensures
            no_active(old(rt).sched.cos@) ==> no_active(final(rt).sched.cos@),
            sched_extends(old(rt).sched.cos@, final(rt).sched.cos@),
            final(rt).events@ == old(rt).events@,
            final(rt).sched.cos@.len() == old(rt).sched.cos@.len() + 1,
            final(rt).sched.cos@.last().body matches Task::TcpActiveOpen { cxnid: c2, phase } && c2 == cxnid && phase is Init,
    {
        rt.spawn(Task::TcpActiveOpen { cxnid, phase: ActivePhase::Init }, now)
    }

    /// Spawns the coroutine that accepts one inbound SYN.
    pub fn new_passive_connection(rt: &mut Runtime, now: Instant, syn: TcpSegment) -> (r: Future)
        ensures
            no_active(old(rt).sched.cos@) ==> no_active(final(rt).sched.cos@),
            sched_extends(old(rt).sched.cos@, final(rt).sched.cos@),
            final(rt).events@ == old(rt).events@,
            final(rt).sched.cos@.len() == old(rt).sched.cos@.len() + 1,
            final(rt).sched.cos@.last().body == (Task::TcpPassiveOpen {
                syn,
                phase: PassivePhase::Init,
            }),
    {
        rt.spawn(Task::TcpPassiveOpen { syn, phase: PassivePhase::Init }, now)
    }

    /// Spawns the handshake coroutine for a registered connection.
    pub fn handshake(rt: &mut Runtime, now: Instant, cxnid: TcpConnectionId) -> (r: Future)
        ensures
            no_active(old(rt).sched.cos@) ==> no_active(final(rt).sched.cos@),
            sched_extends(old(rt).sched.cos@, final(rt).sched.cos@),
            final(rt).events@ == old(rt).events@,
            final(rt).sched.cos@.len() == old(rt).sched.cos@.len() + 1,
            final(rt).sched.cos@.last().body matches Task::TcpHandshake { cxnid: c2, cast, sent, .. } && c2 == cxnid && cast is None && !sent,
    {
        rt.spawn(Task::TcpHandshake { cxnid, cast: None, sent: false, ack_was_sent: false, expected_ack: 0 }, now)
    }

    /// Spawns the steady-state loop for an established connection.
    pub fn main_connection_loop(rt: &mut Runtime, now: Instant, cxnid: TcpConnectionId) -> (r:
        Future)
        ensures
            no_active(old(rt).sched.cos@) ==> no_active(final(rt).sched.cos@),
            sched_extends(old(rt).sched.cos@, final(rt).sched.cos@),
            final(rt).events@ == old(rt).events@,
            final(rt).sched.cos@.len() == old(rt).sched.cos@.len() + 1,
            final(rt).sched.cos@.last().body matches Task::TcpMainLoop { cxnid: c2, ack_owed_since, casting } && c2 == cxnid && ack_owed_since is None && casting is None,
            r matches Future::Pending(id) && id == final(rt).sched.cos@.last().spec_id(),
    {
        rt.spawn(Task::TcpMainLoop { cxnid, ack_owed_since: None, casting: None }, now)
    }

    /// Spawns the coroutine that runs the main loop and closes the
    /// connection when it ends.
    pub fn on_connection_established(rt: &mut Runtime, now: Instant, cxnid: TcpConnectionId) -> (r:
        Future)
        ensures
            no_active(old(rt).sched.cos@) ==> no_active(final(rt).sched.cos@),
            sched_extends(old(rt).sched.cos@, final(rt).sched.cos@),
            final(rt).events@ == old(rt).events@,
            final(rt).sched.cos@.len() == old(rt).sched.cos@.len() + 1,
            final(rt).sched.cos@.last().body matches Task::TcpOnEstablished { cxnid: c2, main } && c2 == cxnid && main is None,
            r matches Future::Pending(id) && id == final(rt).sched.cos@.last().spec_id(),
    {
        rt.spawn(Task::TcpOnEstablished { cxnid, main: None }, now)
    }


    /// Takes the connection at `i` out of the table; its key and handle
    /// are then absent, so it can be put back after mutation.
    pub fn take_conn(&mut self, i: usize) -> (r: TcpConnection)
        requires
            old(self).wf(),
            i < old(self).connections@.len(),
        ensures
            final(self).wf(),
            r == old(self).connections@[i as int],
            r.wf(),
            final(self).connections@ == old(self).connections@.remove(i as int),
            !has_cxn(final(self).connections@, r.cxnid),
            !has_handle(final(self).connections@, r.handle),
            final(self).open_ports == old(self).open_ports,
            final(self).background_queue == old(self).background_queue,
            final(self).background_work == old(self).background_work,
            final(self).unassigned_private_ports == old(self).unassigned_private_ports,
            final(self).unassigned_connection_handles == old(self).unassigned_connection_handles,
    {
        let ghost o = self.connections@;
        let cxn = self.connections.remove(i);
        proof {
            assert forall|a: int, b: int| 0 <= a < b < self.connections@.len() implies (
            #[trigger] self.connections@[a]).cxnid != (#[trigger] self.connections@[b]).cxnid
                && self.connections@[a].handle != self.connections@[b].handle by {
                let oa: int = if a < i {
                    a
                } else {
                    a + 1
                };
                let ob: int = if b < i {
                    b
                } else {
                    b + 1
                };
                assert(self.connections@[a] == o[oa]);
                assert(self.connections@[b] == o[ob]);
            }
            assert forall|j: int| 0 <= j < self.connections@.len() implies (
            #[trigger] self.connections@[j]).cxnid != cxn.cxnid && self.connections@[j].handle
                != cxn.handle by {
                if j < i {
                    assert(self.connections@[j] == o[j]);
                    assert(o[j].cxnid != o[i as int].cxnid && o[j].handle != o[i as int].handle);
                } else {
                    assert(self.connections@[j] == o[j + 1]);
                    assert(o[i as int].cxnid != o[j + 1].cxnid && o[i as int].handle != o[j
                        + 1].handle);
                }
            }
            assert(forall|j: int| 0 <= j < self.connections@.len() ==> (
            #[trigger] self.connections@[j]).wf());
        }
        cxn
    }

    /// Puts a connection whose key and handle are absent back at `i`.
    pub fn put_conn(&mut self, i: usize, cxn: TcpConnection)
        requires
            old(self).wf(),
            i <= old(self).connections@.len(),
            cxn.wf(),
            !has_cxn(old(self).connections@, cxn.cxnid),
            !has_handle(old(self).connections@, cxn.handle),
        ensures
            final(self).wf(),
            final(self).connections@ == old(self).connections@.insert(i as int, cxn),
            final(self).connections@.len() == old(self).connections@.len() + 1,
            final(self).connections@[i as int] == cxn,
            final(self).open_ports == old(self).open_ports,
            final(self).background_queue == old(self).background_queue,
            final(self).background_work == old(self).background_work,
            final(self).unassigned_private_ports == old(self).unassigned_private_ports,
            final(self).unassigned_connection_handles == old(self).unassigned_connection_handles,
    {
        let ghost o = self.connections@;
        self.connections.insert(i, cxn);
        proof {
            assert forall|a: int, b: int| 0 <= a < b < self.connections@.len() implies (
            #[trigger] self.connections@[a]).cxnid != (#[trigger] self.connections@[b]).cxnid
                && self.connections@[a].handle != self.connections@[b].handle by {
                let oa: int = if a < i {
                    a
                } else {
                    a - 1
                };
                let ob: int = if b < i {
                    b
                } else {
                    b - 1
                };
                if a == i {
                    assert(self.connections@[a] == cxn);
                    assert(self.connections@[b] == o[ob]);
                    assert(o.contains(o[ob]));
                } else if b == i {
                    assert(self.connections@[b] == cxn);
                    assert(self.connections@[a] == o[oa]);
                    assert(o.contains(o[oa]));
                } else {
                    assert(self.connections@[a] == o[oa]);
                    assert(self.connections@[b] == o[ob]);
                }
            }
            assert forall|j: int| 0 <= j < self.connections@.len() implies (
            #[trigger] self.connections@[j]).wf() by {
                if j < i {
                    assert(self.connections@[j] == o[j]);
                } else if j > i {
                    assert(self.connections@[j] == o[j - 1]);
                }
            }
        }
    }

    /// Tears a connection down: the 4-tuple leaves the table, a private
    /// local port returns to its pool, the driver is told once when
    /// `notify` is set, and an erroneous close additionally sends a RST
    /// on a best-effort basis.
    pub fn close_connection(&mut self, rt: &mut Runtime, now: Instant, cxnid: TcpConnectionId,
        error: Option<Fail>, notify: bool) -> (r: Result<(), Fail>)
        requires
            old(self).wf(),
        ensures
            final(self).wf(),
            no_active(old(rt).sched.cos@) ==> no_active(final(rt).sched.cos@),
            sched_extends(old(rt).sched.cos@, final(rt).sched.cos@),
            r matches Err(e) ==> e == Fail::ResourceNotFound && !has_cxn(
                old(self).connections@,
                cxnid,
            ) && final(rt).events@ == old(rt).events@ && *final(self) == *old(self) && final(rt).sched.cos@ == old(rt).sched.cos@,
            r.is_ok() == has_cxn(old(self).connections@, cxnid),
            r is Ok ==> !has_cxn(final(self).connections@, cxnid),
            r is Ok ==> final(self).connections@.len() == old(self).connections@.len() - 1,
            r is Ok && notify ==> exists|i: int|
                0 <= i < old(self).connections@.len() && (#[trigger] old(self).connections@[i]).cxnid == cxnid && final(rt).events@ == old(rt).events@.push(
                    Event::TcpConnectionClosed {
                        handle: old(self).connections@[i].handle,
                        error,
                    },
                ),
            r is Ok && !notify ==> final(rt).events@ == old(rt).events@,
            r is Ok && error is Some ==> final(rt).sched.cos@.len() == old(rt).sched.cos@.len()
                + 1,
            // an erroneous close additionally sends a RST over the
            // connection's own addressing
            r is Ok && error is Some ==> exists|i: int|
                0 <= i < old(self).connections@.len() && (#[trigger] old(self).connections@[i]).cxnid == cxnid && (final(rt).sched.cos@.last().body
                    matches Task::TcpCast { seg, arp } && arp is None && seg.rst && !seg.syn
                    && seg.src_port == Some(cxnid.local.port) && seg.dest_port == Some(
                    cxnid.remote.port,
                ) && seg.dest_ipv4_addr == Some(cxnid.remote.addr) && seg.seq_num == old(self).connections@[i].seq_num && seg.payload@.len() == 0),
            r is Ok && error is None ==> final(rt).sched.cos@ == old(rt).sched.cos@,
            // a private local port goes back to its pool; a listened one
            // stays out of it
            r is Ok && cxnid.local.port >= FIRST_PRIVATE_PORT ==> final(self).unassigned_private_ports@ == old(self).unassigned_private_ports@.push(
                cxnid.local.port,
            ),
            r is Ok && cxnid.local.port < FIRST_PRIVATE_PORT ==> final(self).unassigned_private_ports@ == old(self).unassigned_private_ports@,
    {
        let i = match self.find_connection(&cxnid) {
            Some(i) => i,
            None => {
                return Err(Fail::ResourceNotFound);
            },
        };
        let ghost o = self.connections@;
        let cxn = self.connections.remove(i);
        proof {
            assert forall|a: int, b: int| 0 <= a < b < self.connections@.len() implies (
            #[trigger] self.connections@[a]).cxnid != (#[trigger] self.connections@[b]).cxnid
                && self.connections@[a].handle != self.connections@[b].handle by {
                let oa: int = if a < i {
                    a
                } else {
                    a + 1
                };
                let ob: int = if b < i {
                    b
                } else {
                    b + 1
                };
                assert(self.connections@[a] == o[oa]);
                assert(self.connections@[b] == o[ob]);
            }
            assert forall|j: int| 0 <= j < self.connections@.len() implies (
            #[trigger] self.connections@[j]).cxnid != cxnid by {
                if j < i {
                    assert(self.connections@[j] == o[j]);
                    assert(o[j].cxnid != o[i as int].cxnid);
                } else {
                    assert(self.connections@[j] == o[j + 1]);
                    assert(o[i as int].cxnid != o[j + 1].cxnid);
                }
            }
            assert(forall|j: int| 0 <= j < self.connections@.len() ==> (
            #[trigger] self.connections@[j]).wf());
        }
        let mut rst_segment = cxn.base_segment();
        rst_segment.rst = true;
        let handle = cxn.get_handle();
        if is_private_port(cxnid.local.port) {
            self.release_private_port(cxnid.local.port);
            // a private port was never listened on: once no connection
            // uses it, it is no longer open
            let mut still_used = false;
            let n2 = self.connections.len();
            let mut k: usize = 0;
            while k < n2
                invariant
                    k <= n2,
                    n2 == self.connections@.len(),
                decreases n2 - k,
            {
                if self.connections[k].cxnid.local.port == cxnid.local.port {
                    still_used = true;
                }
                k = k + 1;
            }
            if !still_used {
                let np = self.open_ports.len();
                let mut m: usize = 0;
                let mut found: Option<usize> = None;
                while m < np
                    invariant
                        m <= np,
                        np == self.open_ports@.len(),
                        found matches Some(x) ==> x < np,
                    decreases np - m,
                {
                    if self.open_ports[m] == cxnid.local.port && found.is_none() {
                        found = Some(m);
                    }
                    m = m + 1;
                }
                match found {
                    Some(m2) => {
                        self.open_ports.remove(m2);
                    },
                    None => {},
                }
            }
        }
        match error {
            Some(e) => {
                if notify {
                    rt.emit_event(Event::TcpConnectionClosed { handle, error: Some(e) });
                }
                let _ = Self::cast(rt, now, rst_segment);
            },
            None => {
                if notify {
                    rt.emit_event(Event::TcpConnectionClosed { handle, error: None });
                }
            },
        }
        Ok(())
    }
}

/// The 4-tuple an inbound frame names: local side from the frame's
/// destination, remote side from its source.
pub open spec fn wire_cxnid(b: Seq<u8>) -> TcpConnectionId {
    TcpConnectionId {
        local: Endpoint {
            addr: crate::ip::Ipv4Addr { bits: crate::frames::ipv4_dst_of(b) as u32 },
            port: crate::wire::be16_at(b, 36) as u16,
        },
        remote: Endpoint {
            addr: crate::ip::Ipv4Addr { bits: crate::frames::ipv4_src_of(b) as u32 },
            port: crate::wire::be16_at(b, 34) as u16,
        },
    }
}

/// Exactly when inbound TCP demultiplexing succeeds: a well-formed
/// frame, addressed to this host, from a unicast source, with real
/// ports; and, on an open port, either a connection-opening SYN or a
/// segment of a known connection.
pub open spec fn tcp_receive_ok(b: Seq<u8>, my_ip: crate::ip::Ipv4Addr, open_ports: Seq<u16>,
    conns: Seq<TcpConnection>) -> bool {
    &&& crate::segment::valid_tcp(b)
    &&& crate::frames::ipv4_dst_of(b) == my_ip.bits
    &&& crate::frames::ipv4_src_of(b) != 0xFFFF_FFFF
    &&& crate::frames::ipv4_src_of(b) / 0x1000_0000 != 0xE
    &&& crate::frames::ipv4_src_of(b) != 0
    &&& crate::wire::be16_at(b, 34) != 0
    &&& crate::wire::be16_at(b, 36) != 0
    &&& (open_ports.contains((crate::wire::be16_at(b, 36) as u16)) ==> ((((b[47] as int) / 2) % 2
        == 1 && ((b[47] as int) / 16) % 2 == 0 && ((b[47] as int) / 4) % 2 == 0) || has_cxn(
        conns,
        wire_cxnid(b),
    )))
}

pub struct TcpPeer {
    pub state: TcpPeerState,
}

impl TcpPeer {
    pub open spec fn wf(&self) -> bool {
        self.state.wf()
    }

    pub fn new(rt: &mut Runtime) -> (r: TcpPeer)
        ensures
            r.wf(),
            r.state.connections@.len() == 0,
            r.state.open_ports@.len() == 0,
            final(rt).events@ == old(rt).events@,
            final(rt).sched.cos@ == old(rt).sched.cos@,
            final(rt).options == old(rt).options,
    {
        TcpPeer { state: TcpPeerState::new(rt) }
    }

    /// Inbound demultiplex.  A malformed or non-unicast frame is
    /// rejected; a SYN for an open port starts a passive open in the
    /// background; any other segment for an open port joins its
    /// connection's receive queue; a segment for a closed port is
    /// answered with a RST acknowledging the sequence space the segment
    /// occupied.
    pub fn receive(&mut self, rt: &mut Runtime, now: Instant, bytes: &[u8]) -> (r: Result<(), Fail>)
        requires
            old(self).wf(),
        ensures
            final(self).wf(),
            no_active(old(rt).sched.cos@) ==> no_active(final(rt).sched.cos@),
            sched_extends(old(rt).sched.cos@, final(rt).sched.cos@),
            r.is_ok() == tcp_receive_ok(
                bytes@,
                old(rt).options.my_ipv4_addr,
                old(self).state.open_ports@,
                old(self).state.connections@,
            ),
            // inbound demultiplexing never touches ports or the pools
            final(self).state.open_ports@ == old(self).state.open_ports@,
            final(self).state.unassigned_private_ports@ == old(self).state.unassigned_private_ports@,
            final(self).state.unassigned_connection_handles@ == old(self).state.unassigned_connection_handles@,
            r matches Err(e) ==> (e == Fail::Malformed || e == Fail::ResourceNotFound) && final(self).state.connections@.len() == old(self).state.connections@.len(),
            r matches Err(e) && e == Fail::ResourceNotFound ==> final(self).state.connections@
                == old(self).state.connections@,
            // a SYN for an open port spawns exactly one passive open
            // carrying the decoded segment
            r is Ok && ((bytes@[47] as int) / 2) % 2 == 1 && ((bytes@[47] as int) / 16) % 2 == 0
                && ((bytes@[47] as int) / 4) % 2 == 0 && old(self).state.open_ports@.contains(
                (crate::wire::be16_at(bytes@, 36) as u16),
            ) ==> final(rt).sched.cos@.len() == old(rt).sched.cos@.len() + 1 && final(self).state.connections@ == old(self).state.connections@ && (final(rt).sched.cos@.last().body matches Task::TcpPassiveOpen { syn, phase } && phase is Init
                && crate::segment::tcp_fields_of(bytes@, syn)),
            // a segment for a closed port is answered with exactly one
            // RST+ACK acknowledging the sequence space the segment
            // occupied, addressed back to its sender
            r is Ok && !old(self).state.open_ports@.contains(
                (crate::wire::be16_at(bytes@, 36) as u16),
            ) ==> final(self).state.connections@ == old(self).state.connections@ && final(rt).sched.cos@.len() == old(rt).sched.cos@.len() + 1 && (final(rt).sched.cos@.last().body matches Task::TcpCast { seg, arp } && arp is None && seg.rst
                && !seg.syn && seg.ack && seg.ack_num == ((crate::wire::be32_at(bytes@, 38) + (
            bytes@.len() - 34 - crate::segment::tcp_header_len(bytes@)) + (if ((bytes@[47] as int)
                / 2) % 2 == 1 {
                1int
            } else {
                0int
            })) % 0x1_0000_0000) && seg.src_port == Some((crate::wire::be16_at(bytes@, 36) as u16))
                && seg.dest_port == Some((crate::wire::be16_at(bytes@, 34) as u16)) && (
            seg.dest_ipv4_addr matches Some(a) && a.bits == crate::frames::ipv4_src_of(bytes@))),
    {
        let (segment, _src_mac, _dst_mac) = match TcpSegment::decode(bytes) {
            Ok(t) => t,
            Err(e) => {
                return Err(e);
            },
        };
        let local_ipv4_addr = match segment.dest_ipv4_addr {
            Some(a) => a,
            None => {
                return Err(Fail::Malformed);
            },
        };
        // the local address is matched on ingress
        if local_ipv4_addr.bits != rt.options.my_ipv4_addr.bits {
            return Err(Fail::Malformed);
        }
        let remote_ipv4_addr = match segment.src_ipv4_addr {
            Some(a) => a,
            None => {
                return Err(Fail::Malformed);
            },
        };
        if remote_ipv4_addr.is_broadcast() || remote_ipv4_addr.is_multicast()
            || remote_ipv4_addr.is_unspecified() {
            return Err(Fail::Malformed);
        }
        let local_port = match segment.dest_port {
            Some(p) => p,
            None => {
                return Err(Fail::Malformed);
            },
        };
        let remote_port = match segment.src_port {
            Some(p) => p,
            None => {
                return Err(Fail::Malformed);
            },
        };
        proof {
            assert(local_port as int == crate::wire::be16_at(bytes@, 36));
        }
        if self.state.port_is_open(local_port) {
            if segment.syn && !segment.ack && !segment.rst {
                let fut = TcpPeerState::new_passive_connection(rt, now, segment);
                self.state.background_work.add(fut);
                return Ok(());
            }
            let cxnid = TcpConnectionId {
                local: Endpoint { addr: local_ipv4_addr, port: local_port },
                remote: Endpoint { addr: remote_ipv4_addr, port: remote_port },
            };
            match self.state.find_connection(&cxnid) {
                Some(i) => {
                    let ghost o = self.state.connections@;
                    let mut cxn = self.state.connections.remove(i);
                    cxn.receive_queue.push_back(segment);
                    self.state.connections.insert(i, cxn);
                    proof {
                        assert forall|a: int, b: int|
                            0 <= a < b < self.state.connections@.len() implies (
                        #[trigger] self.state.connections@[a]).cxnid != (
                        #[trigger] self.state.connections@[b]).cxnid
                            && self.state.connections@[a].handle
                            != self.state.connections@[b].handle by {
                            assert(self.state.connections@[a].cxnid == o[a].cxnid
                                && self.state.connections@[a].handle == o[a].handle);
                            assert(self.state.connections@[b].cxnid == o[b].cxnid
                                && self.state.connections@[b].handle == o[b].handle);
                        }
                        assert(forall|j: int| 0 <= j < self.state.connections@.len() ==> (
                        #[trigger] self.state.connections@[j]).wf());
                    }
                    return Ok(());
                },
                None => {
                    return Err(Fail::ResourceNotFound);
                },
            }
        }
        // the local port is not open; answer with the appropriate RST
        let plen32: u32 = ((segment.payload.len() as u64) % 0x1_0000_0000u64) as u32;
        proof {
            let a = segment.seq_num as int;
            let b = segment.payload@.len() as int;
            assert(((a + b % 0x1_0000_0000) % 0x1_0000_0000 + 1) % 0x1_0000_0000 == (a + b + 1)
                % 0x1_0000_0000) by (nonlinear_arith);
            assert((a + b % 0x1_0000_0000) % 0x1_0000_0000 == (a + b) % 0x1_0000_0000) by (
            nonlinear_arith);
        }
        let mut ack_num = seq_add32(segment.seq_num, plen32);
        if segment.syn {
            // the SYN occupies one byte of sequence space
            ack_num = seq_add32(ack_num, 1);
        }
        let mut rst = TcpSegment::empty();
        rst.dest_ipv4_addr = Some(remote_ipv4_addr);
        rst.dest_port = Some(remote_port);
        rst.src_port = Some(local_port);
        rst.ack_num = ack_num;
        rst.ack = true;
        rst.rst = true;
        let fut = TcpPeerState::cast(rt, now, rst);
        self.state.background_work.add(fut);
        Ok(())
    }

    /// Active open: a coroutine allocates a private port, runs the
    /// handshake with binary-exponential retry, and resolves to the new
    /// connection's handle.
    pub fn connect(&self, rt: &mut Runtime, now: Instant, remote_endpoint: Endpoint) -> (r: Future)
        requires
            remote_endpoint.port != 0,
        ensures
            no_active(old(rt).sched.cos@) ==> no_active(final(rt).sched.cos@),
            sched_extends(old(rt).sched.cos@, final(rt).sched.cos@),
            final(rt).events@ == old(rt).events@,
            final(rt).sched.cos@.len() == old(rt).sched.cos@.len() + 1,
            final(rt).sched.cos@.last().body matches Task::Connect { remote, opening }
                && remote == remote_endpoint && opening is None,
    {
        rt.spawn(Task::Connect { remote: remote_endpoint, opening: None }, now)
    }

    /// Opens a port for passive connections; a port already open is
    /// `ResourceBusy`.
    pub fn listen(&mut self, port: u16) -> (r: Result<(), Fail>)
        requires
            old(self).wf(),
            port != 0,
        ensures
            final(self).wf(),
            r.is_ok() == !old(self).state.open_ports@.contains(port),
            r matches Err(e) ==> e == Fail::ResourceBusy && final(self).state.open_ports == old(self).state.open_ports,
            r is Ok ==> final(self).state.open_ports@ == old(self).state.open_ports@.push(port),
            final(self).state.connections == old(self).state.connections,
    {
        if self.state.port_is_open(port) {
            return Err(Fail::ResourceBusy);
        }
        self.state.open_ports.push(port);
        Ok(())
    }

    /// Appends bytes to a connection's send buffer.
    pub fn write(&mut self, handle: TcpConnectionHandle, bytes: &Vec<u8>) -> (r: Result<(), Fail>)
        requires
            old(self).wf(),
        ensures
            final(self).wf(),
            r matches Err(e) ==> e == Fail::ResourceNotFound && !has_handle(
                old(self).state.connections@,
                handle,
            ) && final(self).state.connections@ == old(self).state.connections@,
            r.is_ok() == has_handle(old(self).state.connections@, handle),
            r is Ok ==> exists|i: int|
                0 <= i < final(self).state.connections@.len() && (#[trigger] final(self).state.connections@[i]).handle == handle && final(self).state.connections@[i].send_buffer@ == old(self).state.connections@[i].send_buffer@
                    + bytes@,
    {
        let i = match self.state.get_connection_given_handle(handle) {
            Ok(i) => i,
            Err(e) => {
                return Err(e);
            },
        };
        let ghost o = self.state.connections@;
        let mut cxn = self.state.connections.remove(i);
        cxn.write(bytes);
        self.state.connections.insert(i, cxn);
        proof {
            assert forall|a: int, b: int| 0 <= a < b < self.state.connections@.len() implies (
            #[trigger] self.state.connections@[a]).cxnid != (
            #[trigger] self.state.connections@[b]).cxnid && self.state.connections@[a].handle
                != self.state.connections@[b].handle by {
                assert(self.state.connections@[a].cxnid == o[a].cxnid
                    && self.state.connections@[a].handle == o[a].handle);
                assert(self.state.connections@[b].cxnid == o[b].cxnid
                    && self.state.connections@[b].handle == o[b].handle);
            }
            assert(forall|j: int| 0 <= j < self.state.connections@.len() ==> (
            #[trigger] self.state.connections@[j]).wf());
            assert(self.state.connections@[i as int].handle == handle);
            assert(self.state.connections@[i as int].send_buffer@ == o[i as int].send_buffer@
                + bytes@);
        }
        Ok(())
    }

    /// The oldest unread payload, left in place.
    pub fn peek(&self, handle: TcpConnectionHandle) -> (r: Result<Vec<u8>, Fail>)
        requires
            self.wf(),
        ensures
            r matches Err(e) ==> e == Fail::ResourceNotFound || e == Fail::ResourceExhausted,
            !has_handle(self.state.connections@, handle) ==> r == Err::<Vec<u8>, Fail>(
                Fail::ResourceNotFound,
            ),
            r matches Err(e) && e == Fail::ResourceNotFound ==> !has_handle(
                self.state.connections@,
                handle,
            ),
            (exists|i: int|
                0 <= i < self.state.connections@.len() && (
                #[trigger] self.state.connections@[i]).handle == handle
                    && self.state.connections@[i].unread_queue@.len() > 0) ==> r is Ok,
            r matches Err(e) && e == Fail::ResourceExhausted ==> exists|i: int|
                0 <= i < self.state.connections@.len() && (
                #[trigger] self.state.connections@[i]).handle == handle
                    && self.state.connections@[i].unread_queue@.len() == 0,
            r matches Ok(b) ==> exists|i: int|
                0 <= i < self.state.connections@.len() && (
                #[trigger] self.state.connections@[i]).handle == handle
                    && self.state.connections@[i].unread_queue@.len() > 0 && b@
                    == self.state.connections@[i].unread_queue@[0]@,
    {
        let i = match self.state.get_connection_given_handle(handle) {
            Ok(i) => i,
            Err(e) => {
                return Err(e);
            },
        };
        match self.state.connections[i].peek() {
            Some(b) => {
                let copy = clone_bytes(b);
                Ok(copy)
            },
            None => {
                proof {
                    assert forall|j: int|
                        0 <= j < self.state.connections@.len() && (
                        #[trigger] self.state.connections@[j]).handle
                            == handle implies self.state.connections@[j].unread_queue@.len()
                        == 0 by {
                        lemma_handle_bijection(self.state.connections@, i as int, j);
                    }
                }
                Err(Fail::ResourceExhausted)
            },
        }
    }

    /// Pops the oldest unread payload.
    pub fn read(&mut self, handle: TcpConnectionHandle) -> (r: Result<Vec<u8>, Fail>)
        requires
            old(self).wf(),
        ensures
            final(self).wf(),
            r matches Err(e) ==> e == Fail::ResourceNotFound || e == Fail::ResourceExhausted,
            !has_handle(old(self).state.connections@, handle) ==> r == Err::<Vec<u8>, Fail>(
                Fail::ResourceNotFound,
            ) && final(self).state.connections@ == old(self).state.connections@,
            r matches Err(e) && e == Fail::ResourceNotFound ==> !has_handle(
                old(self).state.connections@,
                handle,
            ),
            (exists|i: int|
                0 <= i < old(self).state.connections@.len() && (#[trigger] old(self).state.connections@[i]).handle == handle && old(self).state.connections@[i].unread_queue@.len() > 0) ==> r is Ok,
            r matches Err(e) && e == Fail::ResourceExhausted ==> exists|i: int|
                0 <= i < old(self).state.connections@.len() && (#[trigger] old(self).state.connections@[i]).handle == handle && old(self).state.connections@[i].unread_queue@.len() == 0,
            r matches Ok(b) ==> exists|i: int|
                0 <= i < old(self).state.connections@.len() && (#[trigger] old(self).state.connections@[i]).handle == handle && old(self).state.connections@[i].unread_queue@.len() > 0 && b@ == old(self).state.connections@[i].unread_queue@[0]@ && final(self).state.connections@[i].unread_queue@ == old(self).state.connections@[i].unread_queue@.drop_first(),
    {
        let i = match self.state.get_connection_given_handle(handle) {
            Ok(i) => i,
            Err(e) => {
                return Err(e);
            },
        };
        let ghost o = self.state.connections@;
        let mut cxn = self.state.connections.remove(i);
        let popped = cxn.read();
        self.state.connections.insert(i, cxn);
        proof {
            assert forall|a: int, b: int| 0 <= a < b < self.state.connections@.len() implies (
            #[trigger] self.state.connections@[a]).cxnid != (
            #[trigger] self.state.connections@[b]).cxnid && self.state.connections@[a].handle
                != self.state.connections@[b].handle by {
                assert(self.state.connections@[a].cxnid == o[a].cxnid
                    && self.state.connections@[a].handle == o[a].handle);
                assert(self.state.connections@[b].cxnid == o[b].cxnid
                    && self.state.connections@[b].handle == o[b].handle);
            }
            assert(forall|j: int| 0 <= j < self.state.connections@.len() ==> (
            #[trigger] self.state.connections@[j]).wf());
        }
        match popped {
            Some(b) => Ok(b),
            None => {
                proof {
                    assert forall|j: int|
                        0 <= j < old(self).state.connections@.len() && (#[trigger] old(self).state.connections@[j]).handle
                            == handle implies old(self).state.connections@[j].unread_queue@.len()
                        == 0 by {
                        lemma_handle_bijection(old(self).state.connections@, i as int, j);
                    }
                }
                Err(Fail::ResourceExhausted)
            },
        }
    }

    pub fn get_mss(&self, handle: TcpConnectionHandle) -> (r: Result<usize, Fail>)
        requires
            self.wf(),
        ensures
            r matches Err(e) ==> e == Fail::ResourceNotFound && !has_handle(
                self.state.connections@,
                handle,
            ),
            r matches Ok(m) ==> exists|i: int|
                0 <= i < self.state.connections@.len() && (
                #[trigger] self.state.connections@[i]).handle == handle
                    && self.state.connections@[i].mss == m,
    {
        match self.state.get_connection_given_handle(handle) {
            Ok(i) => Ok(self.state.connections[i].get_mss()),
            Err(e) => Err(e),
        }
    }

    pub fn get_rto(&self, handle: TcpConnectionHandle) -> (r: Result<Duration, Fail>)
        requires
            self.wf(),
        ensures
            r matches Err(e) ==> e == Fail::ResourceNotFound && !has_handle(
                self.state.connections@,
                handle,
            ),
            r matches Ok(d) ==> exists|i: int|
                0 <= i < self.state.connections@.len() && (
                #[trigger] self.state.connections@[i]).handle == handle
                    && self.state.connections@[i].rto == d,
    {
        match self.state.get_connection_given_handle(handle) {
            Ok(i) => Ok(self.state.connections[i].get_rto()),
            Err(e) => Err(e),
        }
    }

    pub fn get_connection_id(&self, handle: TcpConnectionHandle) -> (r: Result<
        TcpConnectionId,
        Fail,
    >)
        requires
            self.wf(),
        ensures
            r matches Err(e) ==> e == Fail::ResourceNotFound && !has_handle(
                self.state.connections@,
                handle,
            ),
            r matches Ok(id) ==> exists|i: int|
                0 <= i < self.state.connections@.len() && (
                #[trigger] self.state.connections@[i]).handle == handle
                    && self.state.connections@[i].cxnid == id,
    {
        match self.state.get_connection_given_handle(handle) {
            Ok(i) => Ok(self.state.connections[i].get_id()),
            Err(e) => Err(e),
        }
    }

    /// One background tick: first the staged futures move into the
    /// combinator (never while it may be in use), then it is polled;
    /// failures of background work are tolerated.
    pub fn advance_clock(&mut self, sched: &crate::runtime::Sched, now: Instant)
        requires
            old(self).wf(),
        ensures
            final(self).wf(),
            final(self).state.background_queue@.len() == 0,
            final(self).state.connections == old(self).state.connections,
            final(self).state.open_ports == old(self).state.open_ports,
            // the staged futures are appended (in order) before the poll;
            // the poll then removes at most the first success, or clears
            // the combinator when every member has failed
            ({
                let staged = old(self).state.background_work.members@ + old(self).state.background_queue@;
                ||| (final(self).state.background_work.members@ == staged && (staged.len() == 0
                    || exists|j: int|
                    0 <= j < staged.len() && (#[trigger] staged[j]).spec_poll(sched.cos@) == Err::<
                        crate::runtime::Value,
                        Fail,
                    >(Fail::TryAgain)))
                ||| (exists|i: int|
                    0 <= i < staged.len() && (#[trigger] staged[i]).spec_poll(sched.cos@) is Ok
                        && final(self).state.background_work.members@ == staged.remove(i))
                ||| (final(self).state.background_work.members@.len() == 0 && staged.len() > 0
                    && forall|j: int|
                    0 <= j < staged.len() ==> (#[trigger] staged[j]).spec_poll(sched.cos@) is Err
                        && staged[j].spec_poll(sched.cos@) != Err::<crate::runtime::Value, Fail>(
                        Fail::TryAgain,
                    ))
            }),
    {
        let ghost staged = self.state.background_work.members@ + self.state.background_queue@;
        loop
            invariant
                self.wf(),
                self.state.connections == old(self).state.connections,
                self.state.open_ports == old(self).state.open_ports,
                staged == old(self).state.background_work.members@ + old(self).state.background_queue@,
                self.state.background_work.members@ + self.state.background_queue@ == staged,
            ensures
                self.state.background_queue@.len() == 0,
                self.state.background_work.members@ == staged,
                self.state.connections == old(self).state.connections,
                self.state.open_ports == old(self).state.open_ports,
                self.wf(),
            decreases self.state.background_queue@.len(),
        {
            match self.state.background_queue.pop_front() {
                Some(fut) => {
                    self.state.background_work.add(fut);
                    proof {
                        assert(self.state.background_work.members@
                            + self.state.background_queue@ =~= staged);
                    }
                },
                None => {
                    proof {
                        assert(self.state.background_work.members@ =~= staged);
                    }
                    break ;
                },
            }
        }
        let _ = self.state.background_work.poll(sched);
    }
}

/// A byte-for-byte copy of a payload.
pub fn clone_bytes(b: &Vec<u8>) -> (r: Vec<u8>)
    ensures
        r@ == b@,
{
    let c = b.clone();
    proof {
        assert(c@ =~= b@);
    }
    c
}

} // verus!
