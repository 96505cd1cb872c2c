//! The bodies of the engine's coroutines, written as explicit state
//! machines: one resume of a coroutine is one `step` of its task, and
//! every suspension point of the control flow is a stored phase.

use vstd::prelude::*;
use crate::arp::ArpPeer;
use crate::clock::{Duration, Instant};
use crate::event::Event;
use crate::fail::Fail;
use crate::frames::{EchoFrame, ICMP_ECHO_REPLY, ICMP_ECHO_REQUEST, UdpFrame};
use crate::icmp::Icmpv4Peer;
use crate::ip::{Endpoint, Ipv4Addr};
use crate::runtime::{events_extends, no_active, sched_extends, Future, Retry, Runtime, Value};
use crate::segment::TcpSegment;
use crate::tcp::{has_cxn, TcpConnectionId, TcpConnectionState, TcpPeer, TcpPeerState};
use crate::udp::UdpPeer;

verus! {

/// The protocol state the tasks act on; the engine threads it through
/// every step.
pub struct Peers {
    pub arp: ArpPeer,
    pub icmp: Icmpv4Peer,
    pub udp: UdpPeer,
    pub tcp: TcpPeer,
}

impl Peers {
    pub open spec fn wf(&self) -> bool {
        &&& self.arp.wf()
        &&& self.udp.wf()
        &&& self.tcp.wf()
    }
}

/// What one resume of a task produces: a suspension with an optional
/// sleep duration, or a terminal result.
pub enum StepOut {
    Yielded(Option<Duration>),
    Completed(Result<Value, Fail>),
}

pub enum ActivePhase {
    Init,
    Await { fut: Future, deadline: Instant, retry: Retry },
    FinalAck { fut: Future },
}

pub enum PassivePhase {
    Init,
    Await { fut: Future, deadline: Instant, retry: Retry, cxnid: TcpConnectionId },
    Established { fut: Future },
}

pub enum Task {
    /// The finished placeholder a body is swapped out against while it
    /// steps.
    Idle,
    /// ARP resolution with retries: completes with the link address once
    /// a reply populates the cache, or with `Timeout`.
    ArpQuery { dest: Ipv4Addr, attempts_left: usize, deadline: Instant, sent_any: bool },
    /// One ping: resolve, emit the echo request, wait for the key to be
    /// retired or the timeout to elapse.
    Ping { dest: Ipv4Addr, id: u16, seq: u16, timeout: Duration, t0: Instant, deadline: Instant,
        arp: Option<Future>, started: bool },
    /// Answers one echo request.
    EchoReply { dest: Ipv4Addr, id: u16, seq: u16, arp: Option<Future> },
    /// Sends one UDP datagram after resolving its destination.
    UdpCast { dest: Ipv4Addr, dest_port: u16, src_port: u16, payload: Vec<u8>, arp: Option<
        Future,
    > },
    /// Seals and transmits one TCP segment after resolving its
    /// destination; the source addressing is filled in here.
    TcpCast { seg: TcpSegment, arp: Option<Future> },
    /// The user-facing active open: allocates the port, awaits the
    /// opening, registers the steady-state loop, resolves to the handle.
    Connect { remote: Endpoint, opening: Option<(TcpConnectionId, Future)> },
    /// Creates the connection and drives the handshake under the
    /// binary-exponential retry schedule, then sends the final ACK.
    TcpActiveOpen { cxnid: TcpConnectionId, phase: ActivePhase },
    /// Accepts one inbound SYN: registers the connection, drives the
    /// handshake, announces the connection and runs it.
    TcpPassiveOpen { syn: TcpSegment, phase: PassivePhase },
    /// Sends SYN (or SYN+ACK) and waits for the segment that completes
    /// the three-way handshake.
    TcpHandshake { cxnid: TcpConnectionId, cast: Option<Future>, sent: bool, ack_was_sent: bool,
        expected_ack: u32 },
    /// Runs the main loop and closes the connection when it ends.
    TcpOnEstablished { cxnid: TcpConnectionId, main: Option<Future> },
    /// The per-connection steady state: drain inbound segments, schedule
    /// retransmissions, transmit, and emit delayed ACKs.
    TcpMainLoop { cxnid: TcpConnectionId, ack_owed_since: Option<Instant>, casting: Option<
        Future,
    > },
}


/// What one resume of an ARP query task guarantees: a cached live entry
/// resolves it; an unsent query broadcasts one request; a spent retry
/// budget past its deadline times out.
pub open spec fn arp_query_post(dest: Ipv4Addr, attempts_left: int, deadline: Instant, sent_any:
    bool, now: Instant, o_rt: Runtime, o_peers: Peers, n_rt: Runtime, n_peers: Peers, r: (
    Task,
    StepOut,
)) -> bool {
    let cache = o_peers.arp.cache;
    let miss = forall|i: int|
        0 <= i < cache.entries@.len() && (#[trigger] cache.entries@[i]).ipv4_addr == dest
            ==> !crate::arp_cache::live(cache.entries@[i], cache.now);
    &&& ((exists|i: int|
        0 <= i < cache.entries@.len() && (#[trigger] cache.entries@[i]).ipv4_addr == dest
            && crate::arp_cache::live(cache.entries@[i], cache.now)) ==> (r.1 matches
        StepOut::Completed(res) ==> (res matches Ok(v) && v matches Value::Mac(m) && exists|i: int|
        0 <= i < cache.entries@.len() && (#[trigger] cache.entries@[i]).ipv4_addr == dest
            && cache.entries@[i].link_addr == m)))
    &&& ((exists|i: int|
        0 <= i < cache.entries@.len() && (#[trigger] cache.entries@[i]).ipv4_addr == dest
            && crate::arp_cache::live(cache.entries@[i], cache.now)) ==> r.1 is Completed)
    &&& (miss && !sent_any ==> n_rt.events@.len() == o_rt.events@.len() + 1 && (n_rt.events@.last()
        matches Event::Transmit(b) && crate::frames::valid_arp(b@) && crate::wire::be16_at(b@, 20)
        == crate::frames::ARP_OP_REQUEST && crate::wire::be32_at(b@, 38) == dest.bits) && (r.0
        matches Task::ArpQuery { sent_any: s2, .. } && s2) && r.1 is Yielded)
    &&& (miss && sent_any && deadline.ns <= now.ns && attempts_left == 0 ==> (r.1 matches
        StepOut::Completed(res) && res == Err::<Value, Fail>(Fail::Timeout)))
}

/// What one resume of a ping task guarantees: with the address known,
/// a single echo request carrying the ping's identifier pair is
/// transmitted and that pair joins the pending set; once the pair is
/// retired the ping reports the elapsed time; past the deadline with
/// the pair still pending it times out.
pub open spec fn ping_post(dest: Ipv4Addr, id: u16, seq: u16, timeout: Duration, t0: Instant,
    deadline: Instant, arp: Option<Future>, started: bool, now: Instant, o_rt: Runtime, o_peers:
    Peers, n_rt: Runtime, n_peers: Peers, r: (Task, StepOut)) -> bool {
    &&& (!started ==> (arp matches Some(f) ==> (f.spec_poll(o_rt.sched.cos@) matches Ok(v) ==> (v
        matches Value::Mac(m) ==> n_rt.events@.len() == o_rt.events@.len() + 1 && (
    n_rt.events@.last() matches Event::Transmit(b) && crate::frames::valid_echo(b@) && b@[34]
        == crate::frames::ICMP_ECHO_REQUEST && crate::wire::be16_at(b@, 38) == id
        && crate::wire::be16_at(b@, 40) == seq && crate::frames::ipv4_dst_of(b@) == dest.bits
        && crate::frames::ipv4_src_of(b@) == o_rt.options.my_ipv4_addr.bits
        && crate::frames::eth_dst_of(b@) == m@) && n_peers.icmp.outstanding_requests@.contains(
        (id, seq),
    ) && (r.0 matches Task::Ping { started: s2, .. } && s2) && r.1 is Yielded))))
    &&& ((started && !o_peers.icmp.outstanding_requests@.contains((id, seq))) ==> (r.1 matches
        StepOut::Completed(res) && res matches Ok(v) && v matches Value::Dur(d) && (t0.ns
        <= deadline.ns && deadline.ns - t0.ns <= timeout.ns && t0.ns <= now.ns && now.ns
        <= deadline.ns ==> d.ns == now.ns - t0.ns)))
    &&& ((started && o_peers.icmp.outstanding_requests@.contains((id, seq)) && deadline.ns
        <= now.ns) ==> (r.1 matches StepOut::Completed(res) && res == Err::<Value, Fail>(
        Fail::Timeout,
    )))
    &&& ((started && o_peers.icmp.outstanding_requests@.contains((id, seq)) && now.ns
        < deadline.ns) ==> r.1 is Yielded && n_rt.events@ == o_rt.events@)
}

/// What one resume of an echo-reply task guarantees: once resolved, one
/// echo reply with the request's key goes out and the task completes.
pub open spec fn echo_reply_post(dest: Ipv4Addr, id: u16, seq: u16, arp: Option<Future>, o_rt:
    Runtime, n_rt: Runtime, r: (Task, StepOut)) -> bool {
    arp matches Some(f) ==> (f.spec_poll(o_rt.sched.cos@) matches Ok(v) ==> (v matches Value::Mac(
        m,
    ) ==> n_rt.events@.len() == o_rt.events@.len() + 1 && (n_rt.events@.last() matches
        Event::Transmit(b) && crate::frames::valid_echo(b@) && b@[34]
        == crate::frames::ICMP_ECHO_REPLY && crate::wire::be16_at(b@, 38) == id
        && crate::wire::be16_at(b@, 40) == seq && crate::frames::ipv4_dst_of(b@) == dest.bits
        && crate::frames::eth_dst_of(b@) == m@) && (r.1 matches StepOut::Completed(res) && res
        == Ok::<Value, Fail>(Value::Unit))))
}

/// What one resume of a UDP cast task guarantees: once resolved, the
/// sealed datagram is transmitted and the task completes.
pub open spec fn udp_cast_post(dest: Ipv4Addr, dest_port: u16, src_port: u16, payload: Seq<u8>,
    arp: Option<Future>, o_rt: Runtime, n_rt: Runtime, r: (Task, StepOut)) -> bool {
    arp matches Some(f) ==> (f.spec_poll(o_rt.sched.cos@) matches Ok(v) ==> (v matches Value::Mac(
        m,
    ) ==> (payload.len() <= crate::frames::MAX_UDP_PAYLOAD ==> n_rt.events@.len()
        == o_rt.events@.len() + 1 && (n_rt.events@.last() matches Event::Transmit(b)
        && crate::frames::valid_udp(b@) && crate::frames::udp_fields_of(
        b@,
        src_port,
        dest_port,
        payload,
        o_rt.options.my_ipv4_addr,
        dest,
    ) && crate::frames::eth_dst_of(b@) == m@) && (r.1 matches StepOut::Completed(res) && res
        == Ok::<Value, Fail>(Value::Unit)))))
}

/// What one resume of a TCP cast task guarantees: once resolved, the
/// segment goes out sealed, sourced from this host, with its stored
/// fields on the wire.
pub open spec fn tcp_cast_post(seg: TcpSegment, arp: Option<Future>, o_rt: Runtime, n_rt: Runtime,
    r: (Task, StepOut)) -> bool {
    arp matches Some(f) ==> (f.spec_poll(o_rt.sched.cos@) matches Ok(v) ==> (v matches Value::Mac(
        m,
    ) ==> (seg.dest_ipv4_addr matches Some(d) ==> (seg.src_port matches Some(sp) ==> (
    seg.dest_port matches Some(dp) ==> (sp != 0 && dp != 0 && seg.payload@.len()
        <= crate::frames::MAX_TCP_PAYLOAD && (seg.mss matches Some(mv) ==> mv != 0)
        ==> n_rt.events@.len() == o_rt.events@.len() + 1 && (n_rt.events@.last() matches
        Event::Transmit(b) && crate::segment::valid_tcp(b@) && crate::wire::be32_at(b@, 38)
        == seg.seq_num && crate::wire::be32_at(b@, 42) == seg.ack_num && (((b@[47] as int) / 2) % 2
        == 1) == seg.syn && (((b@[47] as int) / 16) % 2 == 1) == seg.ack && (((b@[47] as int) / 4)
        % 2 == 1) == seg.rst && crate::frames::ipv4_dst_of(b@) == d.bits
        && crate::frames::ipv4_src_of(b@) == o_rt.options.my_ipv4_addr.bits
        && crate::wire::be16_at(b@, 34) == sp && crate::wire::be16_at(b@, 36) == dp && b@.subrange(
        34 + crate::segment::tcp_header_len(b@),
        b@.len() as int,
    ) == seg.payload@ && crate::frames::eth_dst_of(b@) == m@) && (r.1 matches StepOut::Completed(
        res,
    ) && res == Ok::<Value, Fail>(Value::Unit))))))))
}

/// What one resume of a handshake task guarantees.  Before anything was
/// sent, one SYN (a SYN+ACK on the passive side) is cast, carrying this
/// side's sequence number and MSS, and the task records the expected
/// acknowledgment.  Once sent, the first queued segment decides it: a
/// RST refuses the connection; a segment acknowledging our SYN (with the
/// peer's SYN exactly on the active side) completes the handshake with
/// that segment's sequence state.
pub open spec fn handshake_post(cxnid: TcpConnectionId, cast: Option<Future>, sent: bool,
    ack_was_sent: bool, expected_ack: u32, o_peers: Peers, o_rt: Runtime, n_rt: Runtime, r: (
    Task,
    StepOut,
)) -> bool {
    let conns = o_peers.tcp.state.connections@;
    &&& (cast is None ==> (forall|i: int|
        0 <= i < conns.len() && (#[trigger] conns[i]).cxnid == cxnid ==> (n_rt.sched.cos@.len()
            == o_rt.sched.cos@.len() + 1 && (n_rt.sched.cos@.last().body matches Task::TcpCast {
            seg,
            arp,
        } && arp is None && seg.syn && !seg.rst && seg.seq_num == conns[i].seq_num && seg.src_port
            == Some(cxnid.local.port) && seg.dest_port == Some(cxnid.remote.port) && seg.mss
            == Some(conns[i].mss as u16) && seg.ack == (conns[i].remote_isn is Some)) && (r.0 matches
            Task::TcpHandshake { expected_ack: ea, ack_was_sent: aws, cast: c2, .. } && ea == ((
        conns[i].seq_num + 1) % 0x1_0000_0000) && aws == (conns[i].remote_isn is Some) && c2
            is Some) && r.1 is Yielded)))
    &&& (cast is Some && sent ==> (forall|i: int|
        0 <= i < conns.len() && (#[trigger] conns[i]).cxnid == cxnid
            && conns[i].receive_queue@.len() > 0 && conns[i].receive_queue@[0].rst ==> (r.1 matches
            StepOut::Completed(res) && res == Err::<Value, Fail>(Fail::ConnectionRefused))))
    &&& (cast is Some && sent ==> (forall|i: int|
        0 <= i < conns.len() && (#[trigger] conns[i]).cxnid == cxnid
            && conns[i].receive_queue@.len() > 0 && !conns[i].receive_queue@[0].rst
            && conns[i].receive_queue@[0].ack && (ack_was_sent != conns[i].receive_queue@[0].syn)
            && conns[i].receive_queue@[0].ack_num == expected_ack ==> (r.1 matches
            StepOut::Completed(res) && res == Ok::<Value, Fail>(
            Value::Handshake {
                seq_num: conns[i].receive_queue@[0].seq_num,
                mss: conns[i].receive_queue@[0].mss,
                window_size: conns[i].receive_queue@[0].window_size,
            },
        ))))
}



/// The observable fields of a connection are unchanged (the containers
/// compared by contents).
pub open spec fn conn_unchanged(a: crate::tcp::TcpConnection, b: crate::tcp::TcpConnection) -> bool {
    &&& a.cxnid == b.cxnid
    &&& a.handle == b.handle
    &&& a.seq_num == b.seq_num
    &&& a.receive_next == b.receive_next
    &&& a.remote_isn == b.remote_isn
    &&& a.mss == b.mss
    &&& a.rto == b.rto
    &&& a.local_receive_window_size == b.local_receive_window_size
    &&& a.remote_receive_window_size == b.remote_receive_window_size
    &&& a.receive_queue@ == b.receive_queue@
    &&& a.send_buffer@ == b.send_buffer@
    &&& a.retransmit_queue@ == b.retransmit_queue@
    &&& a.unread_queue@ == b.unread_queue@
}

/// No reset flag anywhere in a receive queue.
pub open spec fn no_rst(q: Seq<TcpSegment>) -> bool {
    forall|k: int| 0 <= k < q.len() ==> !(#[trigger] q[k]).rst
}

/// What one resume of the main connection loop guarantees.  The loop
/// itself emits nothing: all output goes through cast coroutines.  When
/// it schedules a cast, the delayed-ACK timer is clear (data and ACKs
/// both carry the acknowledgment).  A RST at the head of the receive
/// queue aborts the connection.  On an otherwise idle connection the
/// delayed-ACK timer is decisive: within `trailing_ack_delay` nothing is
/// scheduled and the timer keeps its origin; past it, exactly one pure
/// ACK of everything received is cast and the timer is cleared.
pub open spec fn main_loop_post(cxnid: TcpConnectionId, ack_owed_since: Option<Instant>, casting:
    Option<Future>, now: Instant, o_rt: Runtime, o_peers: Peers, n_rt: Runtime, n_peers: Peers, r:
    (Task, StepOut)) -> bool {
    let conns = o_peers.tcp.state.connections@;
    let delay = o_rt.options.tcp.trailing_ack_delay;
    &&& n_rt.events@ == o_rt.events@
    &&& (casting is None ==> (r.0 matches Task::TcpMainLoop { ack_owed_since: a2, casting: c2, .. } && (c2 is Some ==> a2 is None) || !(r.0 is TcpMainLoop)))
    &&& (casting is None ==> (forall|i: int|
        0 <= i < conns.len() && (#[trigger] conns[i]).cxnid == cxnid
            && conns[i].receive_queue@.len() > 0 && conns[i].receive_queue@[0].rst ==> (r.1 matches
            StepOut::Completed(res) && res == Err::<Value, Fail>(Fail::ConnectionAborted))))
    // draining payload (with no reset and nothing to transmit) sets the
    // delayed-ACK origin to this tick and emits nothing yet
    &&& (casting is None ==> (ack_owed_since is None ==> (forall|i: int|
        0 <= i < conns.len() && (#[trigger] conns[i]).cxnid == cxnid && no_rst(
            conns[i].receive_queue@,
        ) && (exists|k: int|
            0 <= k < conns[i].receive_queue@.len() && (
            #[trigger] conns[i].receive_queue@[k]).payload@.len() > 0)
            && conns[i].send_buffer@.len() == 0 && conns[i].retransmit_queue@.len() == 0
            ==> n_rt.sched.cos@ == o_rt.sched.cos@ && (r.0 matches Task::TcpMainLoop {
            ack_owed_since: a2,
            casting: c2,
            ..
        } && a2 == Some(now) && c2 is None) && r.1 is Yielded)))
    // with the timer clear and the connection idle, nothing happens
    &&& (casting is None ==> (ack_owed_since is None ==> (forall|i: int|
        0 <= i < conns.len() && (#[trigger] conns[i]).cxnid == cxnid
            && conns[i].receive_queue@.len() == 0 && conns[i].send_buffer@.len() == 0 && (forall|
            j: int,
        |
            0 <= j < conns[i].retransmit_queue@.len() ==> !crate::tcp::retransmit_due(
                #[trigger] conns[i].retransmit_queue@[j],
                now,
                conns[i].rto,
            )) ==> n_rt.sched.cos@ == o_rt.sched.cos@ && (r.0 matches Task::TcpMainLoop {
            ack_owed_since: a2,
            casting: c2,
            ..
        } && a2 is None && c2 is None) && r.1 is Yielded)))
    // without a reset anywhere in the queue the loop stays suspended
    &&& (casting is None ==> (forall|i: int|
        0 <= i < conns.len() && (#[trigger] conns[i]).cxnid == cxnid && no_rst(
            conns[i].receive_queue@,
        ) ==> r.1 is Yielded))
    &&& (casting is None ==> (ack_owed_since matches Some(ts) ==> (forall|i: int|
        0 <= i < conns.len() && (#[trigger] conns[i]).cxnid == cxnid
            && conns[i].receive_queue@.len() == 0 && conns[i].send_buffer@.len() == 0 && (forall|
            j: int,
        |
            0 <= j < conns[i].retransmit_queue@.len() ==> !crate::tcp::retransmit_due(
                #[trigger] conns[i].retransmit_queue@[j],
                now,
                conns[i].rto,
            )) ==> (((if now.ns >= ts.ns {
            now.ns - ts.ns
        } else {
            0
        }) <= delay.ns ==> n_rt.sched.cos@ == o_rt.sched.cos@ && (r.0 matches Task::TcpMainLoop {
            ack_owed_since: a2,
            casting: c2,
            ..
        } && a2 == Some(ts) && c2 is None) && r.1 is Yielded) && ((if now.ns >= ts.ns {
            now.ns - ts.ns
        } else {
            0
        }) > delay.ns ==> n_rt.sched.cos@.len() == o_rt.sched.cos@.len() + 1 && (
        n_rt.sched.cos@.last().body matches Task::TcpCast { seg, arp } && arp is None
            && seg.payload@.len() == 0 && !seg.syn && !seg.rst && seg.seq_num == conns[i].seq_num
            && seg.src_port == Some(cxnid.local.port) && seg.dest_port == Some(cxnid.remote.port)
            && (conns[i].remote_isn is Some ==> seg.ack && seg.ack_num == conns[i].receive_next))
            && (r.0 matches Task::TcpMainLoop { ack_owed_since: a2, casting: c2, .. } && a2 is None
            && c2 is Some) && r.1 is Yielded)))))
}


/// What one resume of the user-facing connect task guarantees: it never
/// emits events itself (in particular no incoming-connection
/// announcement on the active side).  When the opening resolves, the
/// task resolves to the connection's handle and stages the steady-state
/// loop on `background_queue` — never directly into `background_work`.
/// A failed opening surfaces its error with the connection gone.
pub open spec fn connect_post(remote: Endpoint, opening: Option<(TcpConnectionId, Future)>, o_rt:
    Runtime, o_peers: Peers, n_rt: Runtime, n_peers: Peers, r: (Task, StepOut)) -> bool {
    let conns = o_peers.tcp.state.connections@;
    &&& n_rt.events@ == o_rt.events@
    &&& (opening matches Some(p) ==> (p.1.spec_poll(o_rt.sched.cos@) is Ok ==> (forall|i: int|
        0 <= i < conns.len() && (#[trigger] conns[i]).cxnid == p.0 ==> ((r.1 matches
            StepOut::Completed(res) && res == Ok::<Value, Fail>(Value::Handle(conns[i].handle)))
            && n_peers.tcp.state.background_queue@.len()
            == o_peers.tcp.state.background_queue@.len() + 1 && (
        n_peers.tcp.state.background_queue@.last() matches Future::Pending(cid) && cid
            == n_rt.sched.cos@.last().spec_id()) && n_rt.sched.cos@.len() == o_rt.sched.cos@.len()
            + 1 && (n_rt.sched.cos@.last().body matches Task::TcpOnEstablished { cxnid: c2, main }
            && c2 == p.0 && main is None) && n_peers.tcp.state.background_work
            == o_peers.tcp.state.background_work))))
    &&& (opening matches Some(p) ==> (p.1.spec_poll(o_rt.sched.cos@) matches Err(e) ==> (e
        != Fail::TryAgain ==> (r.1 matches StepOut::Completed(res) && res == Err::<Value, Fail>(e))
            && !has_cxn(n_peers.tcp.state.connections@, p.0))))
    // the allocated private port returns to its pool when the opening
    // fails with the connection still registered
    &&& (opening matches Some(p) ==> (p.1.spec_poll(o_rt.sched.cos@) matches Err(e) ==> (e
        != Fail::TryAgain && p.0.local.port >= crate::ip::FIRST_PRIVATE_PORT && has_cxn(
        o_peers.tcp.state.connections@,
        p.0,
    ) ==> n_peers.tcp.state.unassigned_private_ports@
        == o_peers.tcp.state.unassigned_private_ports@.push(p.0.local.port))))
}

/// What one resume of the active-open task guarantees once the
/// handshake resolves: the connection adopts the peer's ISN, window and
/// offered MSS, consumes one sequence number, and exactly one final ACK
/// is cast acknowledging the peer's SYN.
pub open spec fn active_open_post(cxnid: TcpConnectionId, phase: ActivePhase, now: Instant, o_rt:
    Runtime, o_peers: Peers, n_rt: Runtime, n_peers: Peers, r: (Task, StepOut)) -> bool {
    let conns = o_peers.tcp.state.connections@;
    &&& (phase matches ActivePhase::Await { fut, deadline, retry } ==> (fut.spec_poll(
        o_rt.sched.cos@,
    ) == Err::<Value, Fail>(Fail::TryAgain) ==> (deadline.ns <= now.ns ==> ((retry.remaining > 0
        ==> n_rt.sched.cos@.len() == o_rt.sched.cos@.len() + 1 && (n_rt.sched.cos@.last().body
        matches Task::TcpHandshake { cxnid: c2, cast: cc, sent, .. } && c2 == cxnid && cc is None
        && !sent) && (r.0 matches Task::TcpActiveOpen { phase: ph2, .. } && ph2 matches
        ActivePhase::Await { retry: r2, deadline: d2, .. } && r2.remaining == retry.remaining - 1
        && (retry.wait.ns * 2 <= u64::MAX ==> r2.wait.ns == retry.wait.ns * 2) && (now.ns
        + r2.wait.ns <= u64::MAX ==> d2.ns == now.ns + r2.wait.ns)) && r.1 is Yielded) && (
    retry.remaining == 0 ==> (r.1 matches StepOut::Completed(res) && res == Err::<Value, Fail>(
        Fail::Timeout,
    )))))))
    &&& (phase matches ActivePhase::Await { fut, deadline, retry } ==> (fut.spec_poll(o_rt.sched.cos@)
        matches Ok(v) ==> (v matches Value::Handshake { seq_num: y, mss: pm, window_size: w } ==> (
    forall|i: int|
        0 <= i < conns.len() && (#[trigger] conns[i]).cxnid == cxnid ==> (
        n_peers.tcp.state.connections@.len() == conns.len()
            && n_peers.tcp.state.connections@[i].remote_isn == Some(y)
            && n_peers.tcp.state.connections@[i].receive_next == ((y + 1) % 0x1_0000_0000)
            && n_peers.tcp.state.connections@[i].seq_num == ((conns[i].seq_num + 1)
            % 0x1_0000_0000) && n_peers.tcp.state.connections@[i].remote_receive_window_size == (
        w as int) && n_peers.tcp.state.connections@[i].mss == (match pm {
            Some(mv) => if mv as int <= conns[i].mss && mv > 0 {
                mv as int
            } else if mv == 0 && crate::tcp::FALLBACK_MSS as int <= conns[i].mss {
                crate::tcp::FALLBACK_MSS as int
            } else {
                conns[i].mss as int
            },
            None => if crate::tcp::FALLBACK_MSS as int <= conns[i].mss {
                crate::tcp::FALLBACK_MSS as int
            } else {
                conns[i].mss as int
            },
        }) && n_rt.sched.cos@.len()
            == o_rt.sched.cos@.len() + 1 && (n_rt.sched.cos@.last().body matches Task::TcpCast {
            seg,
            arp,
        } && arp is None && !seg.syn && !seg.rst && seg.ack && seg.ack_num == ((y + 1)
            % 0x1_0000_0000) && seg.seq_num == ((conns[i].seq_num + 1) % 0x1_0000_0000)
            && seg.payload@.len() == 0 && seg.src_port == Some(cxnid.local.port) && seg.dest_port
            == Some(cxnid.remote.port)) && (r.0 matches Task::TcpActiveOpen { phase: ph2, .. }
            && ph2 is FinalAck) && r.1 is Yielded)))))
    &&& (phase matches ActivePhase::FinalAck { fut } ==> (fut.spec_poll(o_rt.sched.cos@) is Ok
        ==> (r.1 matches StepOut::Completed(res) && res == Ok::<Value, Fail>(Value::Unit))))
    &&& (phase matches ActivePhase::FinalAck { fut } ==> (fut.spec_poll(o_rt.sched.cos@) matches
        Err(e) ==> (e != Fail::TryAgain ==> (r.1 matches StepOut::Completed(res) && res == Err::<
            Value,
            Fail,
        >(e)))))
    &&& (phase matches ActivePhase::FinalAck { fut } ==> (fut.spec_poll(o_rt.sched.cos@) == Err::<
        Value,
        Fail,
    >(Fail::TryAgain) ==> r.1 is Yielded))
}

/// The 4-tuple a passive open derives from an inbound SYN: this host
/// with the SYN's destination port, against the SYN's source.
pub open spec fn passive_cxnid(my_ip: Ipv4Addr, sa: Ipv4Addr, sp: u16, dp: u16)
    -> TcpConnectionId {
    TcpConnectionId {
        local: Endpoint { addr: my_ip, port: dp },
        remote: Endpoint { addr: sa, port: sp },
    }
}

/// What one resume of the passive-open task guarantees.  On its first
/// resume, a well-formed SYN for a fresh 4-tuple (with a sound handle
/// pool) registers the connection — remote ISN seeded, MSS negotiated
/// from the SYN's offer — and starts the handshake coroutine that will
/// answer with SYN+ACK.  Once the handshake resolves, the new connection
/// is announced exactly once and its steady-state coroutine registered.
pub open spec fn passive_open_post(syn: TcpSegment, phase: PassivePhase, now: Instant, o_rt:
    Runtime, o_peers: Peers, n_rt: Runtime, n_peers: Peers, r: (Task, StepOut)) -> bool {
    let conns = o_peers.tcp.state.connections@;
    &&& (phase is Init ==> (syn.src_ipv4_addr matches Some(sa) ==> (syn.src_port matches Some(sp)
        ==> (syn.dest_port matches Some(dp) ==> (syn.syn && !syn.ack && sp != 0 && dp != 0
        && crate::tcp::handles_fresh(o_peers.tcp.state)
        && o_peers.tcp.state.unassigned_connection_handles@.len() > 0 && !has_cxn(
        conns,
        passive_cxnid(o_rt.options.my_ipv4_addr, sa, sp, dp),
    ) ==> ({
        let c = passive_cxnid(o_rt.options.my_ipv4_addr, sa, sp, dp);
        &&& n_peers.tcp.state.connections@.len() == conns.len() + 1
        &&& has_cxn(n_peers.tcp.state.connections@, c)
        &&& (forall|i: int|
            0 <= i < n_peers.tcp.state.connections@.len() && (
            #[trigger] n_peers.tcp.state.connections@[i]).cxnid == c
                ==> n_peers.tcp.state.connections@[i].remote_isn == Some(syn.seq_num)
                && n_peers.tcp.state.connections@[i].receive_next == ((syn.seq_num + 1)
                % 0x1_0000_0000) && n_peers.tcp.state.connections@[i].state
                == TcpConnectionState::SynReceived && n_peers.tcp.state.connections@[i].mss == (
            match syn.mss {
                Some(mv) => if mv > 0 && mv as int <= crate::tcp::DEFAULT_MSS as int {
                    mv as int
                } else if mv == 0 {
                    crate::tcp::FALLBACK_MSS as int
                } else {
                    crate::tcp::DEFAULT_MSS as int
                },
                None => crate::tcp::FALLBACK_MSS as int,
            }))
        &&& n_rt.sched.cos@.len() == o_rt.sched.cos@.len() + 1
        &&& (n_rt.sched.cos@.last().body matches Task::TcpHandshake { cxnid: c2, cast, sent, .. }
            && c2 == c && cast is None && !sent)
        &&& (r.0 matches Task::TcpPassiveOpen { phase: ph2, .. } && ph2 is Await)
        &&& r.1 is Yielded
        &&& n_rt.events@ == o_rt.events@
    }))))))
    &&& (phase matches PassivePhase::Await { fut, cxnid, .. } ==> (fut.spec_poll(o_rt.sched.cos@)
        matches Ok(v) ==> (v matches Value::Handshake { .. } ==> (forall|i: int|
        0 <= i < conns.len() && (#[trigger] conns[i]).cxnid == cxnid ==> (n_rt.events@.len()
            == o_rt.events@.len() + 1 && (n_rt.events@.last() matches
            Event::IncomingTcpConnection(h) && h == conns[i].handle) && n_rt.sched.cos@.len()
            == o_rt.sched.cos@.len() + 1 && (n_rt.sched.cos@.last().body matches
            Task::TcpOnEstablished { cxnid: c2, main } && c2 == cxnid && main is None) && (r.0
            matches Task::TcpPassiveOpen { phase: ph2, .. } && ph2 is Established) && r.1
            is Yielded)))))
}

/// What one resume of the established-connection supervisor guarantees:
/// when the main loop terminates, the connection is closed with the
/// driver told exactly once, carrying the loop's error if it had one.
pub open spec fn on_established_post(cxnid: TcpConnectionId, main: Option<Future>, o_rt: Runtime,
    o_peers: Peers, n_rt: Runtime, n_peers: Peers, r: (Task, StepOut)) -> bool {
    let conns = o_peers.tcp.state.connections@;
    &&& (main is None ==> n_rt.sched.cos@.len() == o_rt.sched.cos@.len() + 1 && (
    n_rt.sched.cos@.last().body matches Task::TcpMainLoop { cxnid: c2, ack_owed_since, casting }
        && c2 == cxnid && ack_owed_since is None && casting is None) && (r.0 matches
        Task::TcpOnEstablished { main: m2, .. } && m2 matches Some(f2) && f2 == Future::Pending(
        n_rt.sched.cos@.last().spec_id(),
    )) && r.1 is Yielded && n_rt.events@ == o_rt.events@)
    &&& (main matches Some(f) ==> (f.spec_poll(o_rt.sched.cos@) matches Err(e) ==> (e
        != Fail::TryAgain ==> (forall|i: int|
        0 <= i < conns.len() && (#[trigger] conns[i]).cxnid == cxnid ==> (n_rt.events@.len()
            == o_rt.events@.len() + 1 && (n_rt.events@.last() matches Event::TcpConnectionClosed {
            handle: h,
            error: er,
        } && h == conns[i].handle && er == Some(e)) && !has_cxn(
            n_peers.tcp.state.connections@,
            cxnid,
        ) && (r.1 matches StepOut::Completed(res) && res == Ok::<Value, Fail>(Value::Unit)))))))
    &&& (main matches Some(f) ==> (f.spec_poll(o_rt.sched.cos@) is Ok ==> (forall|i: int|
        0 <= i < conns.len() && (#[trigger] conns[i]).cxnid == cxnid ==> (n_rt.events@.len()
            == o_rt.events@.len() + 1 && (n_rt.events@.last() matches Event::TcpConnectionClosed {
            handle: h,
            error: er,
        } && h == conns[i].handle && er is None) && !has_cxn(
            n_peers.tcp.state.connections@,
            cxnid,
        ) && (r.1 matches StepOut::Completed(res) && res == Ok::<Value, Fail>(Value::Unit))))))
}


/// Everything one step of a task guarantees, bundled by variant: the
/// relation between the task before and after the resume, the produced
/// suspension or result, and the effects on the runtime and peers.  This
/// is the contract `Coroutine::resume` stores into the coroutine's
/// status.
pub open spec fn step_outcome(body: Task, now: Instant, o_rt: Runtime, o_peers: Peers, n_rt:
    Runtime, n_peers: Peers, new_body: Task, out: StepOut) -> bool {
    &&& (body is Idle ==> (out matches StepOut::Completed(res) && res == Ok::<Value, Fail>(
        Value::Unit,
    )) && n_rt.events@ == o_rt.events@ && n_rt.sched.cos@ == o_rt.sched.cos@)
    &&& (body matches Task::ArpQuery { dest, attempts_left, deadline, sent_any }
        ==> arp_query_post(
        dest,
        attempts_left as int,
        deadline,
        sent_any,
        now,
        o_rt,
        o_peers,
        n_rt,
        n_peers,
        (new_body, out),
    ))
    &&& (body matches Task::Ping { dest, id, seq, timeout, t0, deadline, arp, started }
        ==> ping_post(
        dest,
        id,
        seq,
        timeout,
        t0,
        deadline,
        arp,
        started,
        now,
        o_rt,
        o_peers,
        n_rt,
        n_peers,
        (new_body, out),
    ))
    &&& (body matches Task::EchoReply { dest, id, seq, arp } ==> echo_reply_post(
        dest,
        id,
        seq,
        arp,
        o_rt,
        n_rt,
        (new_body, out),
    ))
    &&& (body matches Task::UdpCast { dest, dest_port, src_port, payload, arp } ==> udp_cast_post(
        dest,
        dest_port,
        src_port,
        payload@,
        arp,
        o_rt,
        n_rt,
        (new_body, out),
    ))
    &&& (body matches Task::TcpCast { seg, arp } ==> tcp_cast_post(
        seg,
        arp,
        o_rt,
        n_rt,
        (new_body, out),
    ))
    &&& (body matches Task::Connect { remote, opening } ==> connect_post(
        remote,
        opening,
        o_rt,
        o_peers,
        n_rt,
        n_peers,
        (new_body, out),
    ))
    &&& (body matches Task::TcpActiveOpen { cxnid, phase } ==> active_open_post(
        cxnid,
        phase,
        now,
        o_rt,
        o_peers,
        n_rt,
        n_peers,
        (new_body, out),
    ))
    &&& (body matches Task::TcpPassiveOpen { syn, phase } ==> passive_open_post(
        syn,
        phase,
        now,
        o_rt,
        o_peers,
        n_rt,
        n_peers,
        (new_body, out),
    ))
    &&& (body matches Task::TcpHandshake { cxnid, cast, sent, ack_was_sent, expected_ack }
        ==> handshake_post(
        cxnid,
        cast,
        sent,
        ack_was_sent,
        expected_ack,
        o_peers,
        o_rt,
        n_rt,
        (new_body, out),
    ))
    &&& (body matches Task::TcpOnEstablished { cxnid, main } ==> on_established_post(
        cxnid,
        main,
        o_rt,
        o_peers,
        n_rt,
        n_peers,
        (new_body, out),
    ))
    &&& (body matches Task::TcpMainLoop { cxnid, ack_owed_since, casting } ==> main_loop_post(
        cxnid,
        ack_owed_since,
        casting,
        now,
        o_rt,
        o_peers,
        n_rt,
        n_peers,
        (new_body, out),
    ))
}

impl Task {
    /// Runs the task until its next suspension point.
    pub fn step(self, now: Instant, rt: &mut Runtime, peers: &mut Peers) -> (r: (Task, StepOut))
        requires
            old(peers).wf(),
        ensures
            final(peers).wf(),
            no_active(old(rt).sched.cos@) ==> no_active(final(rt).sched.cos@),
            sched_extends(old(rt).sched.cos@, final(rt).sched.cos@),
            events_extends(old(rt).events@, final(rt).events@),
            // a ping that succeeds reports an elapsed time within its budget
            self matches Task::Ping { timeout, t0, deadline, .. } ==> (deadline.ns <= t0.ns
                + timeout.ns ==> (r.1 matches StepOut::Completed(res) ==> (res matches Ok(v) ==> (v
                matches Value::Dur(d) ==> d.ns <= timeout.ns)))),
            // the per-task guarantees, bundled and by variant
            step_outcome(self, now, *old(rt), *old(peers), *final(rt), *final(peers), r.0, r.1),
            self matches Task::ArpQuery { dest, attempts_left, deadline, sent_any }
                ==> arp_query_post(
                dest,
                attempts_left as int,
                deadline,
                sent_any,
                now,
                *old(rt),
                *old(peers),
                *final(rt),
                *final(peers),
                r,
            ),
            self matches Task::Ping { dest, id, seq, timeout, t0, deadline, arp, started }
                ==> ping_post(
                dest,
                id,
                seq,
                timeout,
                t0,
                deadline,
                arp,
                started,
                now,
                *old(rt),
                *old(peers),
                *final(rt),
                *final(peers),
                r,
            ),
            self matches Task::EchoReply { dest, id, seq, arp } ==> echo_reply_post(
                dest,
                id,
                seq,
                arp,
                *old(rt),
                *final(rt),
                r,
            ),
            self matches Task::UdpCast { dest, dest_port, src_port, payload, arp }
                ==> udp_cast_post(
                dest,
                dest_port,
                src_port,
                payload@,
                arp,
                *old(rt),
                *final(rt),
                r,
            ),
            self matches Task::TcpCast { seg, arp } ==> tcp_cast_post(
                seg,
                arp,
                *old(rt),
                *final(rt),
                r,
            ),
            self matches Task::TcpHandshake { cxnid, cast, sent, ack_was_sent, expected_ack }
                ==> handshake_post(
                cxnid,
                cast,
                sent,
                ack_was_sent,
                expected_ack,
                *old(peers),
                *old(rt),
                *final(rt),
                r,
            ),
            self matches Task::TcpMainLoop { cxnid, ack_owed_since, casting } ==> main_loop_post(
                cxnid,
                ack_owed_since,
                casting,
                now,
                *old(rt),
                *old(peers),
                *final(rt),
                *final(peers),
                r,
            ),
            self matches Task::Connect { remote, opening } ==> connect_post(
                remote,
                opening,
                *old(rt),
                *old(peers),
                *final(rt),
                *final(peers),
                r,
            ),
            self matches Task::TcpActiveOpen { cxnid, phase } ==> active_open_post(
                cxnid,
                phase,
                now,
                *old(rt),
                *old(peers),
                *final(rt),
                *final(peers),
                r,
            ),
            self matches Task::TcpPassiveOpen { syn, phase } ==> passive_open_post(
                syn,
                phase,
                now,
                *old(rt),
                *old(peers),
                *final(rt),
                *final(peers),
                r,
            ),
            self matches Task::TcpOnEstablished { cxnid, main } ==> on_established_post(
                cxnid,
                main,
                *old(rt),
                *old(peers),
                *final(rt),
                *final(peers),
                r,
            ),
    {
        match self {
            Task::Idle => (Task::Idle, StepOut::Completed(Ok(Value::Unit))),
            Task::ArpQuery { dest, attempts_left, deadline, sent_any } => Self::step_arp_query(
                now,
                rt,
                peers,
                dest,
                attempts_left,
                deadline,
                sent_any,
            ),
            Task::Ping { dest, id, seq, timeout, t0, deadline, arp, started } => Self::step_ping(
                now,
                rt,
                peers,
                dest,
                id,
                seq,
                timeout,
                t0,
                deadline,
                arp,
                started,
            ),
            Task::EchoReply { dest, id, seq, arp } => Self::step_echo_reply(
                now,
                rt,
                peers,
                dest,
                id,
                seq,
                arp,
            ),
            Task::UdpCast { dest, dest_port, src_port, payload, arp } => Self::step_udp_cast(
                now,
                rt,
                peers,
                dest,
                dest_port,
                src_port,
                payload,
                arp,
            ),
            Task::TcpCast { seg, arp } => Self::step_tcp_cast(now, rt, peers, seg, arp),
            Task::Connect { remote, opening } => Self::step_connect(now, rt, peers, remote, opening),
            Task::TcpActiveOpen { cxnid, phase } => Self::step_active_open(
                now,
                rt,
                peers,
                cxnid,
                phase,
            ),
            Task::TcpPassiveOpen { syn, phase } => Self::step_passive_open(now, rt, peers, syn, phase),
            Task::TcpHandshake { cxnid, cast, sent, ack_was_sent, expected_ack } => Self::step_handshake(
                now,
                rt,
                peers,
                cxnid,
                cast,
                sent,
                ack_was_sent,
                expected_ack,
            ),
            Task::TcpOnEstablished { cxnid, main } => Self::step_on_established(
                now,
                rt,
                peers,
                cxnid,
                main,
            ),
            Task::TcpMainLoop { cxnid, ack_owed_since, casting } => Self::step_main_loop(
                now,
                rt,
                peers,
                cxnid,
                ack_owed_since,
                casting,
            ),
        }
    }

    fn step_arp_query(now: Instant, rt: &mut Runtime, peers: &mut Peers, dest: Ipv4Addr,
        attempts_left: usize, deadline: Instant, sent_any: bool) -> (r: (Task, StepOut))
        requires
            old(peers).wf(),
        ensures
            final(peers).wf(),
            no_active(old(rt).sched.cos@) ==> no_active(final(rt).sched.cos@),
            sched_extends(old(rt).sched.cos@, final(rt).sched.cos@),
            events_extends(old(rt).events@, final(rt).events@),
            arp_query_post(
                dest,
                attempts_left as int,
                deadline,
                sent_any,
                now,
                *old(rt),
                *old(peers),
                *final(rt),
                *final(peers),
                r,
            ),
    {
        match peers.arp.cache.get_link_addr(dest) {
            Some(m) => {
                return (
                    Task::ArpQuery { dest, attempts_left, deadline, sent_any },
                    StepOut::Completed(Ok(Value::Mac(m))),
                );
            },
            None => {},
        }
        if !sent_any {
            peers.arp.send_request(rt, dest);
            let deadline = now.plus(rt.options.arp.request_timeout);
            return (
                Task::ArpQuery { dest, attempts_left, deadline, sent_any: true },
                StepOut::Yielded(None),
            );
        }
        if deadline.le(&now) {
            if attempts_left == 0 {
                return (
                    Task::ArpQuery { dest, attempts_left, deadline, sent_any },
                    StepOut::Completed(Err(Fail::Timeout)),
                );
            }
            peers.arp.send_request(rt, dest);
            let deadline = now.plus(rt.options.arp.request_timeout);
            return (
                Task::ArpQuery { dest, attempts_left: attempts_left - 1, deadline, sent_any },
                StepOut::Yielded(None),
            );
        }
        (Task::ArpQuery { dest, attempts_left, deadline, sent_any }, StepOut::Yielded(None))
    }

    fn step_ping(now: Instant, rt: &mut Runtime, peers: &mut Peers, dest: Ipv4Addr, id: u16, seq:
        u16, timeout: Duration, t0: Instant, deadline: Instant, arp: Option<Future>, started: bool)
        -> (r: (Task, StepOut))
        requires
            old(peers).wf(),
        ensures
            final(peers).wf(),
            no_active(old(rt).sched.cos@) ==> no_active(final(rt).sched.cos@),
            sched_extends(old(rt).sched.cos@, final(rt).sched.cos@),
            events_extends(old(rt).events@, final(rt).events@),
            deadline.ns <= t0.ns + timeout.ns ==> (r.1 matches StepOut::Completed(res) ==> (res
                matches Ok(v) ==> (v matches Value::Dur(d) ==> d.ns <= timeout.ns))),
            ping_post(
                dest,
                id,
                seq,
                timeout,
                t0,
                deadline,
                arp,
                started,
                now,
                *old(rt),
                *old(peers),
                *final(rt),
                *final(peers),
                r,
            ),
    {
        if !started {
            let fut = match arp {
                Some(f) => f,
                None => peers.arp.query(rt, now, dest),
            };
            match fut.poll(&rt.sched) {
                Err(Fail::TryAgain) => {
                    return (
                        Task::Ping {
                            dest,
                            id,
                            seq,
                            timeout,
                            t0,
                            deadline,
                            arp: Some(fut),
                            started,
                        },
                        StepOut::Yielded(None),
                    );
                },
                Err(e) => {
                    return (
                        Task::Ping {
                            dest,
                            id,
                            seq,
                            timeout,
                            t0,
                            deadline,
                            arp: Some(fut),
                            started,
                        },
                        StepOut::Completed(Err(e)),
                    );
                },
                Ok(v) => {
                    let mac = match v {
                        Value::Mac(m) => m,
                        _ => {
                            return (
                                Task::Ping {
                                    dest,
                                    id,
                                    seq,
                                    timeout,
                                    t0,
                                    deadline,
                                    arp: Some(fut),
                                    started,
                                },
                                StepOut::Completed(Err(Fail::Malformed)),
                            );
                        },
                    };
                    let frame = EchoFrame {
                        op: ICMP_ECHO_REQUEST,
                        id,
                        seq,
                        src: rt.options.my_ipv4_addr,
                        dst: dest,
                        src_mac: rt.options.my_link_addr,
                        dst_mac: mac,
                    };
                    let out = frame.encode();
                    rt.emit_event(Event::Transmit(out));
                    peers.icmp.outstanding_insert(id, seq);
                    return (
                        Task::Ping {
                            dest,
                            id,
                            seq,
                            timeout,
                            t0,
                            deadline,
                            arp: Some(fut),
                            started: true,
                        },
                        StepOut::Yielded(None),
                    );
                },
            }
        }
        if !peers.icmp.outstanding_contains(id, seq) {
            let elapsed = now.since(t0);
            if deadline.ns >= t0.ns && deadline.ns - t0.ns <= timeout.ns && now.le(&deadline) {
                return (
                    Task::Ping { dest, id, seq, timeout, t0, deadline, arp, started },
                    StepOut::Completed(Ok(Value::Dur(elapsed))),
                );
            }
            // a late reply still resolves the ping, clamped to the budget
            let capped = if elapsed.ns <= timeout.ns {
                elapsed
            } else {
                timeout
            };
            return (
                Task::Ping { dest, id, seq, timeout, t0, deadline, arp, started },
                StepOut::Completed(Ok(Value::Dur(capped))),
            );
        }
        if deadline.le(&now) {
            return (
                Task::Ping { dest, id, seq, timeout, t0, deadline, arp, started },
                StepOut::Completed(Err(Fail::Timeout)),
            );
        }
        (Task::Ping { dest, id, seq, timeout, t0, deadline, arp, started }, StepOut::Yielded(None))
    }

    fn step_echo_reply(now: Instant, rt: &mut Runtime, peers: &mut Peers, dest: Ipv4Addr, id: u16,
        seq: u16, arp: Option<Future>) -> (r: (Task, StepOut))
        requires
            old(peers).wf(),
        ensures
            final(peers).wf(),
            no_active(old(rt).sched.cos@) ==> no_active(final(rt).sched.cos@),
            sched_extends(old(rt).sched.cos@, final(rt).sched.cos@),
            events_extends(old(rt).events@, final(rt).events@),
            echo_reply_post(dest, id, seq, arp, *old(rt), *final(rt), r),
    {
        let fut = match arp {
            Some(f) => f,
            None => peers.arp.query(rt, now, dest),
        };
        match fut.poll(&rt.sched) {
            Err(Fail::TryAgain) => (
                Task::EchoReply { dest, id, seq, arp: Some(fut) },
                StepOut::Yielded(None),
            ),
            Err(e) => (Task::EchoReply { dest, id, seq, arp: Some(fut) }, StepOut::Completed(
                Err(e),
            )),
            Ok(v) => {
                let mac = match v {
                    Value::Mac(m) => m,
                    _ => {
                        return (
                            Task::EchoReply { dest, id, seq, arp: Some(fut) },
                            StepOut::Completed(Err(Fail::Malformed)),
                        );
                    },
                };
                let frame = EchoFrame {
                    op: ICMP_ECHO_REPLY,
                    id,
                    seq,
                    src: rt.options.my_ipv4_addr,
                    dst: dest,
                    src_mac: rt.options.my_link_addr,
                    dst_mac: mac,
                };
                let out = frame.encode();
                rt.emit_event(Event::Transmit(out));
                (Task::EchoReply { dest, id, seq, arp: Some(fut) }, StepOut::Completed(
                    Ok(Value::Unit),
                ))
            },
        }
    }

    fn step_udp_cast(now: Instant, rt: &mut Runtime, peers: &mut Peers, dest: Ipv4Addr, dest_port:
        u16, src_port: u16, payload: Vec<u8>, arp: Option<Future>) -> (r: (Task, StepOut))
        requires
            old(peers).wf(),
        ensures
            final(peers).wf(),
            no_active(old(rt).sched.cos@) ==> no_active(final(rt).sched.cos@),
            sched_extends(old(rt).sched.cos@, final(rt).sched.cos@),
            events_extends(old(rt).events@, final(rt).events@),
            udp_cast_post(dest, dest_port, src_port, payload@, arp, *old(rt), *final(rt), r),
    {
        let fut = match arp {
            Some(f) => f,
            None => peers.arp.query(rt, now, dest),
        };
        match fut.poll(&rt.sched) {
            Err(Fail::TryAgain) => (
                Task::UdpCast { dest, dest_port, src_port, payload, arp: Some(fut) },
                StepOut::Yielded(None),
            ),
            Err(e) => (
                Task::UdpCast { dest, dest_port, src_port, payload, arp: Some(fut) },
                StepOut::Completed(Err(e)),
            ),
            Ok(v) => {
                let mac = match v {
                    Value::Mac(m) => m,
                    _ => {
                        return (
                            Task::UdpCast { dest, dest_port, src_port, payload, arp: Some(fut) },
                            StepOut::Completed(Err(Fail::Malformed)),
                        );
                    },
                };
                if payload.len() > crate::frames::MAX_UDP_PAYLOAD {
                    return (
                        Task::UdpCast { dest, dest_port, src_port, payload, arp: Some(fut) },
                        StepOut::Completed(Err(Fail::Malformed)),
                    );
                }
                let frame = UdpFrame {
                    src: rt.options.my_ipv4_addr,
                    dst: dest,
                    src_port,
                    dest_port,
                    payload,
                    src_mac: rt.options.my_link_addr,
                    dst_mac: mac,
                };
                let out = frame.encode();
                rt.emit_event(Event::Transmit(out));
                (
                    Task::UdpCast {
                        dest,
                        dest_port,
                        src_port,
                        payload: frame.payload,
                        arp: Some(fut),
                    },
                    StepOut::Completed(Ok(Value::Unit)),
                )
            },
        }
    }

    fn step_tcp_cast(now: Instant, rt: &mut Runtime, peers: &mut Peers, seg: TcpSegment, arp:
        Option<Future>) -> (r: (Task, StepOut))
        requires
            old(peers).wf(),
        ensures
            final(peers).wf(),
            no_active(old(rt).sched.cos@) ==> no_active(final(rt).sched.cos@),
            sched_extends(old(rt).sched.cos@, final(rt).sched.cos@),
            events_extends(old(rt).events@, final(rt).events@),
            tcp_cast_post(seg, arp, *old(rt), *final(rt), r),
    {
        let mut seg = seg;
        seg.src_ipv4_addr = Some(rt.options.my_ipv4_addr);
        let dest = match seg.dest_ipv4_addr {
            Some(a) => a,
            None => {
                return (Task::TcpCast { seg, arp }, StepOut::Completed(Err(Fail::Malformed)));
            },
        };
        let fut = match arp {
            Some(f) => f,
            None => peers.arp.query(rt, now, dest),
        };
        match fut.poll(&rt.sched) {
            Err(Fail::TryAgain) => (Task::TcpCast { seg, arp: Some(fut) }, StepOut::Yielded(None)),
            Err(e) => (Task::TcpCast { seg, arp: Some(fut) }, StepOut::Completed(Err(e))),
            Ok(v) => {
                let mac = match v {
                    Value::Mac(m) => m,
                    _ => {
                        return (
                            Task::TcpCast { seg, arp: Some(fut) },
                            StepOut::Completed(Err(Fail::Malformed)),
                        );
                    },
                };
                let ports_ok = match (seg.src_port, seg.dest_port) {
                    (Some(sp), Some(dp)) => sp != 0 && dp != 0,
                    _ => false,
                };
                let mss_ok = match seg.mss {
                    Some(m) => m != 0,
                    None => true,
                };
                if !ports_ok || !mss_ok || seg.payload.len() > crate::frames::MAX_TCP_PAYLOAD {
                    return (
                        Task::TcpCast { seg, arp: Some(fut) },
                        StepOut::Completed(Err(Fail::Malformed)),
                    );
                }
                let out = seg.encode(&rt.options.my_link_addr, &mac);
                rt.emit_event(Event::Transmit(out));
                (Task::TcpCast { seg, arp: Some(fut) }, StepOut::Completed(Ok(Value::Unit)))
            },
        }
    }

    fn step_connect(now: Instant, rt: &mut Runtime, peers: &mut Peers, remote: Endpoint, opening:
        Option<(TcpConnectionId, Future)>) -> (r: (Task, StepOut))
        requires
            old(peers).wf(),
        ensures
            final(peers).wf(),
            no_active(old(rt).sched.cos@) ==> no_active(final(rt).sched.cos@),
            sched_extends(old(rt).sched.cos@, final(rt).sched.cos@),
            events_extends(old(rt).events@, final(rt).events@),
            connect_post(remote, opening, *old(rt), *old(peers), *final(rt), *final(peers), r),
    {
        match opening {
            None => {
                if remote.port == 0 {
                    return (
                        Task::Connect { remote, opening },
                        StepOut::Completed(Err(Fail::Malformed)),
                    );
                }
                let port = match peers.tcp.state.acquire_private_port() {
                    Ok(p) => p,
                    Err(e) => {
                        return (
                            Task::Connect { remote, opening },
                            StepOut::Completed(Err(Fail::ResourceExhausted)),
                        );
                    },
                };
                let cxnid = TcpConnectionId {
                    local: Endpoint { addr: rt.options.my_ipv4_addr, port },
                    remote,
                };
                let fut = TcpPeerState::new_active_connection(rt, now, cxnid);
                (Task::Connect { remote, opening: Some((cxnid, fut)) }, StepOut::Yielded(None))
            },
            Some((cxnid, fut)) => {
                match fut.poll(&rt.sched) {
                    Err(Fail::TryAgain) => (
                        Task::Connect { remote, opening: Some((cxnid, fut)) },
                        StepOut::Yielded(None),
                    ),
                    Err(e) => {
                        // undo the partial open; the error is surfaced to
                        // the caller alone
                        let _ = peers.tcp.state.close_connection(
                            rt,
                            now,
                            cxnid,
                            Some(e),
                            false,
                        );
                        (
                            Task::Connect { remote, opening: Some((cxnid, fut)) },
                            StepOut::Completed(Err(e)),
                        )
                    },
                    Ok(_) => {
                        let i = match peers.tcp.state.find_connection(&cxnid) {
                            Some(i) => i,
                            None => {
                                return (
                                    Task::Connect { remote, opening: Some((cxnid, fut)) },
                                    StepOut::Completed(Err(Fail::ResourceNotFound)),
                                );
                            },
                        };
                        let handle = {
                            let cxn = &peers.tcp.state.connections[i];
                            cxn.get_handle()
                        };
                        // stage the steady-state loop; `background_work`
                        // may be in use by the caller of the tick
                        let est = TcpPeerState::on_connection_established(rt, now, cxnid);
                        peers.tcp.state.background_queue.push_back(est);
                        proof {
                            assert forall|i2: int|
                                0 <= i2 < old(peers).tcp.state.connections@.len() && (
                                #[trigger] old(peers).tcp.state.connections@[i2]).cxnid
                                    == cxnid implies i2 == i as int by {
                                crate::tcp::lemma_cxnid_unique(
                                    old(peers).tcp.state.connections@,
                                    i2,
                                    i as int,
                                );
                            }
                        }
                        (
                            Task::Connect { remote, opening: Some((cxnid, fut)) },
                            StepOut::Completed(Ok(Value::Handle(handle))),
                        )
                    },
                }
            },
        }
    }

    fn step_active_open(now: Instant, rt: &mut Runtime, peers: &mut Peers, cxnid: TcpConnectionId,
        phase: ActivePhase) -> (r: (Task, StepOut))
        requires
            old(peers).wf(),
        ensures
            final(peers).wf(),
            no_active(old(rt).sched.cos@) ==> no_active(final(rt).sched.cos@),
            sched_extends(old(rt).sched.cos@, final(rt).sched.cos@),
            events_extends(old(rt).events@, final(rt).events@),
            active_open_post(
                cxnid,
                phase,
                now,
                *old(rt),
                *old(peers),
                *final(rt),
                *final(peers),
                r,
            ),
    {
        match phase {
            ActivePhase::Init => {
                if cxnid.local.port == 0 || cxnid.remote.port == 0 {
                    return (
                        Task::TcpActiveOpen { cxnid, phase: ActivePhase::Init },
                        StepOut::Completed(Err(Fail::Malformed)),
                    );
                }
                match peers.tcp.state.find_connection(&cxnid) {
                    Some(_) => {
                        return (
                            Task::TcpActiveOpen { cxnid, phase: ActivePhase::Init },
                            StepOut::Completed(Err(Fail::ResourceBusy)),
                        );
                    },
                    None => {},
                }
                let window = rt.options.tcp.receive_window_size;
                match peers.tcp.state.new_connection(cxnid, window, rt.options.tcp.rto) {
                    Ok(_) => {},
                    Err(e) => {
                        return (
                            Task::TcpActiveOpen { cxnid, phase: ActivePhase::Init },
                            StepOut::Completed(Err(e)),
                        );
                    },
                }
                let retry = Retry::binary_exponential(
                    rt.options.tcp.handshake_timeout,
                    rt.options.tcp.handshake_retries,
                );
                let fut = TcpPeerState::handshake(rt, now, cxnid);
                let deadline = now.plus(retry.wait);
                (
                    Task::TcpActiveOpen { cxnid, phase: ActivePhase::Await { fut, deadline, retry } },
                    StepOut::Yielded(None),
                )
            },
            ActivePhase::Await { fut, deadline, mut retry } => {
                match fut.poll(&rt.sched) {
                    Err(Fail::TryAgain) => {
                        if deadline.le(&now) {
                            // this attempt timed out; double the wait and
                            // restart the handshake, or give up
                            match retry.try_again() {
                                Some(wait) => {
                                    let fut2 = TcpPeerState::handshake(rt, now, cxnid);
                                    let deadline2 = now.plus(wait);
                                    return (
                                        Task::TcpActiveOpen {
                                            cxnid,
                                            phase: ActivePhase::Await {
                                                fut: fut2,
                                                deadline: deadline2,
                                                retry,
                                            },
                                        },
                                        StepOut::Yielded(None),
                                    );
                                },
                                None => {
                                    return (
                                        Task::TcpActiveOpen {
                                            cxnid,
                                            phase: ActivePhase::Await { fut, deadline, retry },
                                        },
                                        StepOut::Completed(Err(Fail::Timeout)),
                                    );
                                },
                            }
                        }
                        (
                            Task::TcpActiveOpen {
                                cxnid,
                                phase: ActivePhase::Await { fut, deadline, retry },
                            },
                            StepOut::Yielded(None),
                        )
                    },
                    Err(e) => (
                        Task::TcpActiveOpen {
                            cxnid,
                            phase: ActivePhase::Await { fut, deadline, retry },
                        },
                        StepOut::Completed(Err(e)),
                    ),
                    Ok(v) => {
                        let (remote_isn, peer_mss, peer_window) = match v {
                            Value::Handshake { seq_num, mss, window_size } => (
                                seq_num,
                                mss,
                                window_size,
                            ),
                            _ => {
                                return (
                                    Task::TcpActiveOpen {
                                        cxnid,
                                        phase: ActivePhase::Await { fut, deadline, retry },
                                    },
                                    StepOut::Completed(Err(Fail::Malformed)),
                                );
                            },
                        };
                        let i = match peers.tcp.state.find_connection(&cxnid) {
                            Some(i) => i,
                            None => {
                                return (
                                    Task::TcpActiveOpen {
                                        cxnid,
                                        phase: ActivePhase::Await { fut, deadline, retry },
                                    },
                                    StepOut::Completed(Err(Fail::ResourceNotFound)),
                                );
                            },
                        };
                        let mut cxn = peers.tcp.state.take_conn(i);
                        cxn.set_remote_isn(remote_isn);
                        let _ = cxn.negotiate_mss(peer_mss);
                        let _ = cxn.set_remote_receive_window_size(peer_window);
                        cxn.incr_seq_num();
                        cxn.set_state(TcpConnectionState::Established);
                        let ack = cxn.base_segment();
                        peers.tcp.state.put_conn(i, cxn);
                        let fut2 = TcpPeerState::cast(rt, now, ack);
                        proof {
                            assert forall|i2: int|
                                0 <= i2 < old(peers).tcp.state.connections@.len() && (
                                #[trigger] old(peers).tcp.state.connections@[i2]).cxnid
                                    == cxnid implies i2 == i as int by {
                                crate::tcp::lemma_cxnid_unique(
                                    old(peers).tcp.state.connections@,
                                    i2,
                                    i as int,
                                );
                            }
                        }
                        (
                            Task::TcpActiveOpen { cxnid, phase: ActivePhase::FinalAck { fut: fut2 } },
                            StepOut::Yielded(None),
                        )
                    },
                }
            },
            ActivePhase::FinalAck { fut } => {
                match fut.poll(&rt.sched) {
                    Err(Fail::TryAgain) => (
                        Task::TcpActiveOpen { cxnid, phase: ActivePhase::FinalAck { fut } },
                        StepOut::Yielded(None),
                    ),
                    Err(e) => (
                        Task::TcpActiveOpen { cxnid, phase: ActivePhase::FinalAck { fut } },
                        StepOut::Completed(Err(e)),
                    ),
                    Ok(_) => (
                        Task::TcpActiveOpen { cxnid, phase: ActivePhase::FinalAck { fut } },
                        StepOut::Completed(Ok(Value::Unit)),
                    ),
                }
            },
        }
    }

    fn step_passive_open(now: Instant, rt: &mut Runtime, peers: &mut Peers, syn: TcpSegment, phase:
        PassivePhase) -> (r: (Task, StepOut))
        requires
            old(peers).wf(),
        ensures
            final(peers).wf(),
            no_active(old(rt).sched.cos@) ==> no_active(final(rt).sched.cos@),
            sched_extends(old(rt).sched.cos@, final(rt).sched.cos@),
            events_extends(old(rt).events@, final(rt).events@),
            passive_open_post(
                syn,
                phase,
                now,
                *old(rt),
                *old(peers),
                *final(rt),
                *final(peers),
                r,
            ),
    {
        match phase {
            PassivePhase::Init => {
                let (remote_addr, remote_port, local_port) = match (
                    syn.src_ipv4_addr,
                    syn.src_port,
                    syn.dest_port,
                ) {
                    (Some(a), Some(sp), Some(dp)) => (a, sp, dp),
                    _ => {
                        return (
                            Task::TcpPassiveOpen { syn, phase: PassivePhase::Init },
                            StepOut::Completed(Err(Fail::Malformed)),
                        );
                    },
                };
                if !syn.syn || syn.ack || local_port == 0 || remote_port == 0 {
                    return (
                        Task::TcpPassiveOpen { syn, phase: PassivePhase::Init },
                        StepOut::Completed(Err(Fail::Malformed)),
                    );
                }
                let cxnid = TcpConnectionId {
                    local: Endpoint { addr: rt.options.my_ipv4_addr, port: local_port },
                    remote: Endpoint { addr: remote_addr, port: remote_port },
                };
                match peers.tcp.state.find_connection(&cxnid) {
                    Some(_) => {
                        return (
                            Task::TcpPassiveOpen { syn, phase: PassivePhase::Init },
                            StepOut::Completed(Err(Fail::ResourceBusy)),
                        );
                    },
                    None => {},
                }
                let window = rt.options.tcp.receive_window_size;
                match peers.tcp.state.new_connection(cxnid, window, rt.options.tcp.rto) {
                    Ok(_) => {},
                    Err(e) => {
                        return (
                            Task::TcpPassiveOpen { syn, phase: PassivePhase::Init },
                            StepOut::Completed(Err(e)),
                        );
                    },
                }
                let i = match peers.tcp.state.find_connection(&cxnid) {
                    Some(i) => i,
                    None => {
                        return (
                            Task::TcpPassiveOpen { syn, phase: PassivePhase::Init },
                            StepOut::Completed(Err(Fail::ResourceNotFound)),
                        );
                    },
                };
                let mut cxn = peers.tcp.state.take_conn(i);
                let _ = cxn.negotiate_mss(syn.mss);
                cxn.set_remote_isn(syn.seq_num);
                cxn.set_state(TcpConnectionState::SynReceived);
                peers.tcp.state.put_conn(i, cxn);
                let retry = Retry::binary_exponential(
                    rt.options.tcp.handshake_timeout,
                    rt.options.tcp.handshake_retries,
                );
                let fut = TcpPeerState::handshake(rt, now, cxnid);
                let deadline = now.plus(retry.wait);
                (
                    Task::TcpPassiveOpen {
                        syn,
                        phase: PassivePhase::Await { fut, deadline, retry, cxnid },
                    },
                    StepOut::Yielded(None),
                )
            },
            PassivePhase::Await { fut, deadline, mut retry, cxnid } => {
                match fut.poll(&rt.sched) {
                    Err(Fail::TryAgain) => {
                        if deadline.le(&now) {
                            match retry.try_again() {
                                Some(wait) => {
                                    let fut2 = TcpPeerState::handshake(rt, now, cxnid);
                                    let deadline2 = now.plus(wait);
                                    return (
                                        Task::TcpPassiveOpen {
                                            syn,
                                            phase: PassivePhase::Await {
                                                fut: fut2,
                                                deadline: deadline2,
                                                retry,
                                                cxnid,
                                            },
                                        },
                                        StepOut::Yielded(None),
                                    );
                                },
                                None => {
                                    return (
                                        Task::TcpPassiveOpen {
                                            syn,
                                            phase: PassivePhase::Await {
                                                fut,
                                                deadline,
                                                retry,
                                                cxnid,
                                            },
                                        },
                                        StepOut::Completed(Err(Fail::Timeout)),
                                    );
                                },
                            }
                        }
                        (
                            Task::TcpPassiveOpen {
                                syn,
                                phase: PassivePhase::Await { fut, deadline, retry, cxnid },
                            },
                            StepOut::Yielded(None),
                        )
                    },
                    Err(e) => (
                        Task::TcpPassiveOpen {
                            syn,
                            phase: PassivePhase::Await { fut, deadline, retry, cxnid },
                        },
                        StepOut::Completed(Err(e)),
                    ),
                    Ok(v) => {
                        let peer_window = match v {
                            Value::Handshake { seq_num: _, mss: _, window_size } => window_size,
                            _ => {
                                return (
                                    Task::TcpPassiveOpen {
                                        syn,
                                        phase: PassivePhase::Await { fut, deadline, retry, cxnid },
                                    },
                                    StepOut::Completed(Err(Fail::Malformed)),
                                );
                            },
                        };
                        let i = match peers.tcp.state.find_connection(&cxnid) {
                            Some(i) => i,
                            None => {
                                return (
                                    Task::TcpPassiveOpen {
                                        syn,
                                        phase: PassivePhase::Await { fut, deadline, retry, cxnid },
                                    },
                                    StepOut::Completed(Err(Fail::ResourceNotFound)),
                                );
                            },
                        };
                        let mut cxn = peers.tcp.state.take_conn(i);
                        let _ = cxn.set_remote_receive_window_size(peer_window);
                        cxn.incr_seq_num();
                        cxn.set_state(TcpConnectionState::Established);
                        let handle = cxn.get_handle();
                        peers.tcp.state.put_conn(i, cxn);
                        rt.emit_event(Event::IncomingTcpConnection(handle));
                        let est = TcpPeerState::on_connection_established(rt, now, cxnid);
                        proof {
                            assert forall|i2: int|
                                0 <= i2 < old(peers).tcp.state.connections@.len() && (
                                #[trigger] old(peers).tcp.state.connections@[i2]).cxnid
                                    == cxnid implies i2 == i as int by {
                                crate::tcp::lemma_cxnid_unique(
                                    old(peers).tcp.state.connections@,
                                    i2,
                                    i as int,
                                );
                            }
                        }
                        (
                            Task::TcpPassiveOpen {
                                syn,
                                phase: PassivePhase::Established { fut: est },
                            },
                            StepOut::Yielded(None),
                        )
                    },
                }
            },
            PassivePhase::Established { fut } => {
                match fut.poll(&rt.sched) {
                    Err(Fail::TryAgain) => (
                        Task::TcpPassiveOpen { syn, phase: PassivePhase::Established { fut } },
                        StepOut::Yielded(None),
                    ),
                    Err(e) => (
                        Task::TcpPassiveOpen { syn, phase: PassivePhase::Established { fut } },
                        StepOut::Completed(Err(e)),
                    ),
                    Ok(_) => (
                        Task::TcpPassiveOpen { syn, phase: PassivePhase::Established { fut } },
                        StepOut::Completed(Ok(Value::Unit)),
                    ),
                }
            },
        }
    }


    fn step_handshake(now: Instant, rt: &mut Runtime, peers: &mut Peers, cxnid: TcpConnectionId,
        cast: Option<Future>, sent: bool, ack_was_sent: bool, expected_ack: u32) -> (r: (
        Task,
        StepOut,
    ))
        requires
            old(peers).wf(),
        ensures
            final(peers).wf(),
            no_active(old(rt).sched.cos@) ==> no_active(final(rt).sched.cos@),
            sched_extends(old(rt).sched.cos@, final(rt).sched.cos@),
            events_extends(old(rt).events@, final(rt).events@),
            handshake_post(
                cxnid,
                cast,
                sent,
                ack_was_sent,
                expected_ack,
                *old(peers),
                *old(rt),
                *final(rt),
                r,
            ),
    {
        let mut sent = sent;
        let mut ack_was_sent = ack_was_sent;
        let mut expected_ack = expected_ack;
        let mut cast = cast;
        if cast.is_none() {
            // compose and send this side's SYN (a SYN+ACK when the remote
            // ISN is already known, i.e. on the passive side)
            let i = match peers.tcp.state.find_connection(&cxnid) {
                Some(i) => i,
                None => {
                    return (
                        Task::TcpHandshake { cxnid, cast, sent, ack_was_sent, expected_ack },
                        StepOut::Completed(Err(Fail::ResourceNotFound)),
                    );
                },
            };
            let seg = {
                let cxn = &peers.tcp.state.connections[i];
                let mut seg = cxn.base_segment();
                seg.syn = true;
                let m = cxn.get_mss();
                seg.mss = Some(
                    if m > 0xFFFF {
                        0xFFFFu16
                    } else {
                        m as u16
                    },
                );
                seg
            };
            ack_was_sent = seg.ack;
            expected_ack = crate::tcp::seq_add32(seg.seq_num, 1);
            let fut = TcpPeerState::cast(rt, now, seg);
            cast = Some(fut);
            proof {
                assert forall|i2: int|
                    0 <= i2 < old(peers).tcp.state.connections@.len() && (#[trigger] old(peers).tcp.state.connections@[i2]).cxnid == cxnid implies i2 == i as int by {
                    crate::tcp::lemma_cxnid_unique(
                        old(peers).tcp.state.connections@,
                        i2,
                        i as int,
                    );
                }
            }
            return (
                Task::TcpHandshake { cxnid, cast, sent, ack_was_sent, expected_ack },
                StepOut::Yielded(None),
            );
        }
        if !sent {
            let fut = match cast {
                Some(f) => f,
                None => {
                    return (
                        Task::TcpHandshake { cxnid, cast, sent, ack_was_sent, expected_ack },
                        StepOut::Completed(Err(Fail::ResourceNotFound)),
                    );
                },
            };
            match fut.poll(&rt.sched) {
                Err(Fail::TryAgain) => {
                    return (
                        Task::TcpHandshake {
                            cxnid,
                            cast: Some(fut),
                            sent,
                            ack_was_sent,
                            expected_ack,
                        },
                        StepOut::Yielded(None),
                    );
                },
                Err(e) => {
                    return (
                        Task::TcpHandshake {
                            cxnid,
                            cast: Some(fut),
                            sent,
                            ack_was_sent,
                            expected_ack,
                        },
                        StepOut::Completed(Err(e)),
                    );
                },
                Ok(_) => {
                    sent = true;
                    cast = Some(fut);
                },
            }
        }
        // wait for a segment that answers this handshake
        let i = match peers.tcp.state.find_connection(&cxnid) {
            Some(i) => i,
            None => {
                return (
                    Task::TcpHandshake { cxnid, cast, sent, ack_was_sent, expected_ack },
                    StepOut::Completed(Err(Fail::ResourceNotFound)),
                );
            },
        };
        let mut cxn = peers.tcp.state.take_conn(i);
        let ghost taken_cxnid = cxn.cxnid;
        let ghost taken_handle = cxn.handle;
        let ghost q0 = cxn.receive_queue@;
        let mut out: Option<StepOut> = None;
        loop
            invariant_except_break
                out is None,
            invariant
                cxn.wf(),
                cxn.cxnid == taken_cxnid,
                cxn.handle == taken_handle,
                q0.len() > 0 && q0[0].rst ==> (out matches Some(o2) && o2 matches
                    StepOut::Completed(res) && res == Err::<Value, Fail>(Fail::ConnectionRefused))
                    || (out is None && cxn.receive_queue@ == q0),
                q0.len() > 0 && !q0[0].rst && q0[0].ack && (ack_was_sent != q0[0].syn)
                    && q0[0].ack_num == expected_ack ==> (out matches Some(o2) && o2 matches
                    StepOut::Completed(res) && res == Ok::<Value, Fail>(
                    Value::Handshake {
                        seq_num: q0[0].seq_num,
                        mss: q0[0].mss,
                        window_size: q0[0].window_size,
                    },
                )) || (out is None && cxn.receive_queue@ == q0),
            ensures
                q0.len() > 0 && q0[0].rst ==> (out matches Some(o2) && o2 matches
                    StepOut::Completed(res) && res == Err::<Value, Fail>(Fail::ConnectionRefused)),
                q0.len() > 0 && !q0[0].rst && q0[0].ack && (ack_was_sent != q0[0].syn)
                    && q0[0].ack_num == expected_ack ==> (out matches Some(o2) && o2 matches
                    StepOut::Completed(res) && res == Ok::<Value, Fail>(
                    Value::Handshake {
                        seq_num: q0[0].seq_num,
                        mss: q0[0].mss,
                        window_size: q0[0].window_size,
                    },
                )),
                cxn.wf(),
                cxn.cxnid == taken_cxnid,
                cxn.handle == taken_handle,
            decreases cxn.receive_queue@.len(),
        {
            let seg = match cxn.receive_queue.pop_front() {
                Some(s) => s,
                None => {
                    break ;
                },
            };
            if seg.rst {
                out = Some(StepOut::Completed(Err(Fail::ConnectionRefused)));
                break ;
            }
            // the expected answer carries an ACK of our SYN; on the
            // active side it also carries the peer's SYN, on the passive
            // side it must not
            if seg.ack && (ack_was_sent != seg.syn) && seg.ack_num == expected_ack {
                out = Some(
                    StepOut::Completed(
                        Ok(
                            Value::Handshake {
                                seq_num: seg.seq_num,
                                mss: seg.mss,
                                window_size: seg.window_size,
                            },
                        ),
                    ),
                );
                break ;
            }
            // anything else is ignored and the wait continues
        }
        peers.tcp.state.put_conn(i, cxn);
        proof {
            assert forall|i2: int|
                0 <= i2 < old(peers).tcp.state.connections@.len() && (#[trigger] old(peers).tcp.state.connections@[i2]).cxnid == cxnid implies i2 == i as int by {
                crate::tcp::lemma_cxnid_unique(old(peers).tcp.state.connections@, i2, i as int);
            }
            assert(q0 == old(peers).tcp.state.connections@[i as int].receive_queue@);
        }
        match out {
            Some(o) => (Task::TcpHandshake { cxnid, cast, sent, ack_was_sent, expected_ack }, o),
            None => (
                Task::TcpHandshake { cxnid, cast, sent, ack_was_sent, expected_ack },
                StepOut::Yielded(None),
            ),
        }
    }

    fn step_on_established(now: Instant, rt: &mut Runtime, peers: &mut Peers, cxnid:
        TcpConnectionId, main: Option<Future>) -> (r: (Task, StepOut))
        requires
            old(peers).wf(),
        ensures
            final(peers).wf(),
            no_active(old(rt).sched.cos@) ==> no_active(final(rt).sched.cos@),
            sched_extends(old(rt).sched.cos@, final(rt).sched.cos@),
            events_extends(old(rt).events@, final(rt).events@),
            on_established_post(cxnid, main, *old(rt), *old(peers), *final(rt), *final(peers), r),
    {
        match main {
            None => {
                let fut = TcpPeerState::main_connection_loop(rt, now, cxnid);
                (Task::TcpOnEstablished { cxnid, main: Some(fut) }, StepOut::Yielded(None))
            },
            Some(fut) => {
                match fut.poll(&rt.sched) {
                    Err(Fail::TryAgain) => (
                        Task::TcpOnEstablished { cxnid, main: Some(fut) },
                        StepOut::Yielded(None),
                    ),
                    Err(e) => {
                        let _ = peers.tcp.state.close_connection(rt, now, cxnid, Some(e), true);
                        proof {
                            assert forall|i2: int, j2: int|
                                0 <= i2 < old(peers).tcp.state.connections@.len() && 0 <= j2 < old(peers).tcp.state.connections@.len() && (#[trigger] old(peers).tcp.state.connections@[i2]).cxnid == cxnid && (#[trigger] old(peers).tcp.state.connections@[j2]).cxnid == cxnid implies i2 == j2 by {
                                crate::tcp::lemma_cxnid_unique(
                                    old(peers).tcp.state.connections@,
                                    i2,
                                    j2,
                                );
                            }
                        }
                        (
                            Task::TcpOnEstablished { cxnid, main: Some(fut) },
                            StepOut::Completed(Ok(Value::Unit)),
                        )
                    },
                    Ok(_) => {
                        let _ = peers.tcp.state.close_connection(rt, now, cxnid, None, true);
                        proof {
                            assert forall|i2: int, j2: int|
                                0 <= i2 < old(peers).tcp.state.connections@.len() && 0 <= j2 < old(peers).tcp.state.connections@.len() && (#[trigger] old(peers).tcp.state.connections@[i2]).cxnid == cxnid && (#[trigger] old(peers).tcp.state.connections@[j2]).cxnid == cxnid implies i2 == j2 by {
                                crate::tcp::lemma_cxnid_unique(
                                    old(peers).tcp.state.connections@,
                                    i2,
                                    j2,
                                );
                            }
                        }
                        (
                            Task::TcpOnEstablished { cxnid, main: Some(fut) },
                            StepOut::Completed(Ok(Value::Unit)),
                        )
                    },
                }
            },
        }
    }

    fn step_main_loop(now: Instant, rt: &mut Runtime, peers: &mut Peers, cxnid: TcpConnectionId,
        ack_owed_since: Option<Instant>, casting: Option<Future>) -> (r: (Task, StepOut))
        requires
            old(peers).wf(),
        ensures
            final(peers).wf(),
            no_active(old(rt).sched.cos@) ==> no_active(final(rt).sched.cos@),
            sched_extends(old(rt).sched.cos@, final(rt).sched.cos@),
            events_extends(old(rt).events@, final(rt).events@),
            main_loop_post(
                cxnid,
                ack_owed_since,
                casting,
                now,
                *old(rt),
                *old(peers),
                *final(rt),
                *final(peers),
                r,
            ),
    {
        let mut ack_owed_since = ack_owed_since;
        // an in-flight cast must finish before more work is scheduled
        match casting {
            Some(fut) => {
                match fut.poll(&rt.sched) {
                    Err(Fail::TryAgain) => {
                        return (
                            Task::TcpMainLoop { cxnid, ack_owed_since, casting: Some(fut) },
                            StepOut::Yielded(None),
                        );
                    },
                    Err(e) => {
                        return (
                            Task::TcpMainLoop { cxnid, ack_owed_since, casting: Some(fut) },
                            StepOut::Completed(Err(e)),
                        );
                    },
                    Ok(_) => {},
                }
            },
            None => {},
        }
        let i = match peers.tcp.state.find_connection(&cxnid) {
            Some(i) => i,
            None => {
                return (
                    Task::TcpMainLoop { cxnid, ack_owed_since, casting: None },
                    StepOut::Completed(Err(Fail::ResourceNotFound)),
                );
            },
        };
        let mut cxn = peers.tcp.state.take_conn(i);
        let ghost taken_cxnid = cxn.cxnid;
        let ghost taken_handle = cxn.handle;
        let ghost cxn0 = cxn;
        let ghost a0 = ack_owed_since;
        let ghost mut p: int = 0;
        // drain the receive queue
        let mut aborted = false;
        loop
            invariant_except_break
                !aborted,
            invariant
                cxn.wf(),
                cxn.cxnid == taken_cxnid,
                cxn.handle == taken_handle,
                0 <= p <= cxn0.receive_queue@.len(),
                !aborted ==> cxn.receive_queue@ == cxn0.receive_queue@.subrange(
                    p,
                    cxn0.receive_queue@.len() as int,
                ),
                aborted ==> exists|k: int|
                    0 <= k < cxn0.receive_queue@.len() && (
                    #[trigger] cxn0.receive_queue@[k]).rst,
                a0 is None ==> ack_owed_since == a0 || ack_owed_since == Some(now),
                !aborted && a0 is None && (exists|k: int|
                    0 <= k < p && (#[trigger] cxn0.receive_queue@[k]).payload@.len() > 0)
                    ==> ack_owed_since == Some(now),
                cxn.send_buffer@ == cxn0.send_buffer@,
                cxn0.retransmit_queue@.len() == 0 ==> cxn.retransmit_queue@.len() == 0 && cxn.rto
                    == cxn0.rto,
                cxn0.receive_queue@.len() == 0 ==> conn_unchanged(cxn, cxn0) && ack_owed_since
                    == a0 && !aborted,
                cxn0.receive_queue@.len() > 0 && cxn0.receive_queue@[0].rst ==> aborted || (!aborted
                    && conn_unchanged(cxn, cxn0) && ack_owed_since == a0),
            ensures
                cxn0.receive_queue@.len() == 0 ==> conn_unchanged(cxn, cxn0) && ack_owed_since
                    == a0 && !aborted,
                cxn0.receive_queue@.len() > 0 && cxn0.receive_queue@[0].rst ==> aborted,
                no_rst(cxn0.receive_queue@) ==> !aborted && cxn.receive_queue@.len() == 0,
                a0 is None && no_rst(cxn0.receive_queue@) && (exists|k: int|
                    0 <= k < cxn0.receive_queue@.len() && (
                    #[trigger] cxn0.receive_queue@[k]).payload@.len() > 0) ==> ack_owed_since
                    == Some(now),
                a0 is None ==> ack_owed_since == a0 || ack_owed_since == Some(now),
                cxn.send_buffer@ == cxn0.send_buffer@,
                cxn0.retransmit_queue@.len() == 0 ==> cxn.retransmit_queue@.len() == 0 && cxn.rto
                    == cxn0.rto,
                cxn.wf(),
                cxn.cxnid == taken_cxnid,
                cxn.handle == taken_handle,
            decreases cxn.receive_queue@.len(),
        {
            let seg = match cxn.receive_queue.pop_front() {
                Some(s) => s,
                None => {
                    proof {
                        assert(cxn.receive_queue@.len() == 0);
                        if p < cxn0.receive_queue@.len() {
                            assert(cxn0.receive_queue@.subrange(
                                p,
                                cxn0.receive_queue@.len() as int,
                            ).len() > 0);
                        }
                    }
                    break ;
                },
            };
            proof {
                assert(seg == cxn0.receive_queue@[p]);
                p = p + 1;
                assert(cxn.receive_queue@ =~= cxn0.receive_queue@.subrange(
                    p,
                    cxn0.receive_queue@.len() as int,
                ));
            }
            if seg.rst {
                aborted = true;
                proof {
                    assert(cxn0.receive_queue@[p - 1].rst);
                }
                break ;
            }
            if ack_owed_since.is_none() && seg.payload.len() > 0 {
                // a payload is owed an acknowledgment eventually
                ack_owed_since = Some(now);
                proof {
                    assert(cxn0.receive_queue@[p - 1].payload@.len() > 0);
                }
            }
            match cxn.receive(&seg, now) {
                Ok(_) => {},
                Err(_) => {
                    // an out-of-window segment is ignored, not fatal
                },
            }
        }
        proof {
            assert forall|i2: int|
                0 <= i2 < old(peers).tcp.state.connections@.len() && (#[trigger] old(peers).tcp.state.connections@[i2]).cxnid == cxnid implies i2 == i as int by {
                crate::tcp::lemma_cxnid_unique(old(peers).tcp.state.connections@, i2, i as int);
            }
        }
        if aborted {
            peers.tcp.state.put_conn(i, cxn);
            return (
                Task::TcpMainLoop { cxnid, ack_owed_since, casting: None },
                StepOut::Completed(Err(Fail::ConnectionAborted)),
            );
        }
        // retransmissions whose timer expired, then fresh data
        match cxn.try_get_next_transmittable_segment(now) {
            Some(seg) => {
                peers.tcp.state.put_conn(i, cxn);
                // data segments carry the current ACK
                ack_owed_since = None;
                let fut = TcpPeerState::cast(rt, now, seg);
                return (
                    Task::TcpMainLoop { cxnid, ack_owed_since, casting: Some(fut) },
                    StepOut::Yielded(None),
                );
            },
            None => {},
        }
        // the delayed-ACK timer
        match ack_owed_since {
            Some(since) => {
                if now.since(since).ns > rt.options.tcp.trailing_ack_delay.ns {
                    let pure_ack = cxn.base_segment();
                    peers.tcp.state.put_conn(i, cxn);
                    let fut = TcpPeerState::cast(rt, now, pure_ack);
                    return (
                        Task::TcpMainLoop { cxnid, ack_owed_since: None, casting: Some(fut) },
                        StepOut::Yielded(None),
                    );
                }
            },
            None => {},
        }
        peers.tcp.state.put_conn(i, cxn);
        (Task::TcpMainLoop { cxnid, ack_owed_since, casting: None }, StepOut::Yielded(None))
    }
}

} // verus!
