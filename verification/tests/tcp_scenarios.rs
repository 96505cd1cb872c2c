use catnip_core::clock::{Duration, Instant};
use catnip_core::engine::Engine;
use catnip_core::event::Event;
use catnip_core::fail::Fail;
use catnip_core::ip::{Endpoint, Ipv4Addr};
use catnip_core::mac::MacAddress;
use catnip_core::options::Options;
use catnip_core::runtime::Value;
use catnip_core::segment::TcpSegment;
use catnip_core::tcp::TcpConnectionHandle;

fn mac(b: u8) -> MacAddress {
    MacAddress::new([b; 6])
}

fn ip(a: u8, b: u8, c: u8, d: u8) -> Ipv4Addr {
    Ipv4Addr::from_octets(a, b, c, d)
}

fn ms(n: u64) -> Instant {
    Instant::from_nanos(n * 1_000_000)
}

fn host_a() -> Engine {
    let mut options = Options::new(mac(0x01), ip(10, 0, 0, 1));
    options.tcp.handshake_timeout = Duration::from_millis(500);
    options.tcp.handshake_retries = 2;
    options.tcp.trailing_ack_delay = Duration::from_millis(200);
    let mut eng = Engine::new(options, 11, Instant::from_nanos(0));
    eng.peers.arp.cache.insert(ip(10, 0, 0, 2), mac(0x02));
    eng
}

fn transmits(events: Vec<Event>) -> Vec<Vec<u8>> {
    let mut out = Vec::new();
    for e in events {
        if let Event::Transmit(b) = e {
            out.push(b);
        }
    }
    out
}

fn tick_times(eng: &mut Engine, t: Instant, times: usize) {
    // consecutive ticks advance the clock by a nanosecond so that
    // coroutines that yielded become due again
    for k in 0..times {
        eng.advance_clock(Instant::from_nanos(t.ns + k as u64));
    }
}

fn tcp_transmits(eng: &mut Engine) -> Vec<TcpSegment> {
    let mut out = Vec::new();
    for b in transmits(eng.take_events()) {
        if let Ok((seg, _, _)) = TcpSegment::decode(&b) {
            out.push(seg);
        }
    }
    out
}

#[test]
fn three_way_handshake_active_open() {
    let mut eng = host_a();
    let fut = eng.peers.tcp.connect(&mut eng.rt, ms(0), Endpoint::new(ip(10, 0, 0, 2), 80));
    tick_times(&mut eng, ms(0), 6);
    let sent = tcp_transmits(&mut eng);
    assert_eq!(sent.len(), 1);
    let syn = &sent[0];
    assert!(syn.syn && !syn.ack && !syn.rst);
    assert_eq!(syn.ack_num, 0);
    assert!(syn.mss.is_some());
    assert_eq!(syn.dest_port, Some(80));
    let x = syn.seq_num;
    let local_port = syn.src_port.expect("allocated private port");
    // peer answers SYN+ACK with seq = Y, ack = X + 1
    let y: u32 = 777_000;
    let synack = TcpSegment {
        dest_ipv4_addr: Some(ip(10, 0, 0, 1)),
        dest_port: Some(local_port),
        src_ipv4_addr: Some(ip(10, 0, 0, 2)),
        src_port: Some(80),
        seq_num: y,
        ack_num: x.wrapping_add(1),
        window_size: 0xFFFF,
        syn: true,
        ack: true,
        rst: false,
        mss: Some(1460),
        payload: Vec::new(),
    };
    eng.receive(ms(1), &synack.encode(&mac(0x02), &mac(0x01))).unwrap();
    tick_times(&mut eng, ms(1), 6);
    let sent2 = tcp_transmits(&mut eng);
    assert_eq!(sent2.len(), 1);
    let ack = &sent2[0];
    assert!(!ack.syn && ack.ack && !ack.rst);
    assert_eq!(ack.seq_num, x.wrapping_add(1));
    assert_eq!(ack.ack_num, y.wrapping_add(1));
    // the connect future resolves to a handle, and no incoming-connection
    // event is emitted on the active side
    let handle = match fut.poll(&eng.rt.sched) {
        Ok(Value::Handle(h)) => h,
        other => panic!("connect did not resolve: {:?}", other),
    };
    assert!(handle.v != 0);
    let events = eng.take_events();
    assert!(!events.iter().any(|e| matches!(e, Event::IncomingTcpConnection(_))));
    let cxnid = eng.peers.tcp.get_connection_id(handle).unwrap();
    assert_eq!(cxnid.remote.port, 80);
    assert_eq!(cxnid.local.port, local_port);
    assert_eq!(eng.peers.tcp.get_mss(handle).unwrap(), 1460);
}

fn establish_passive(eng: &mut Engine) -> (TcpConnectionHandle, u32, u32) {
    // returns (handle, our next seq X+1, peer next seq)
    eng.peers.tcp.listen(80).unwrap();
    let y0: u32 = 31_000;
    let syn = TcpSegment {
        dest_ipv4_addr: Some(ip(10, 0, 0, 1)),
        dest_port: Some(80),
        src_ipv4_addr: Some(ip(10, 0, 0, 2)),
        src_port: Some(9999),
        seq_num: y0,
        ack_num: 0,
        window_size: 0xFFFF,
        syn: true,
        ack: false,
        rst: false,
        mss: Some(1460),
        payload: Vec::new(),
    };
    eng.receive(ms(0), &syn.encode(&mac(0x02), &mac(0x01))).unwrap();
    tick_times(eng, ms(0), 6);
    let sent = tcp_transmits(eng);
    assert_eq!(sent.len(), 1);
    let synack = &sent[0];
    assert!(synack.syn && synack.ack);
    assert_eq!(synack.ack_num, y0.wrapping_add(1));
    let x0 = synack.seq_num;
    let ack = TcpSegment {
        dest_ipv4_addr: Some(ip(10, 0, 0, 1)),
        dest_port: Some(80),
        src_ipv4_addr: Some(ip(10, 0, 0, 2)),
        src_port: Some(9999),
        seq_num: y0.wrapping_add(1),
        ack_num: x0.wrapping_add(1),
        window_size: 0xFFFF,
        syn: false,
        ack: true,
        rst: false,
        mss: None,
        payload: Vec::new(),
    };
    eng.receive(ms(1), &ack.encode(&mac(0x02), &mac(0x01))).unwrap();
    tick_times(eng, ms(1), 4);
    let events = eng.take_events();
    let handle = events
        .iter()
        .find_map(
            |e| match e {
                Event::IncomingTcpConnection(h) => Some(*h),
                _ => None,
            },
        )
        .expect("passive open announced");
    (handle, x0.wrapping_add(1), y0.wrapping_add(1))
}

#[test]
fn passive_open_announces_connection() {
    let mut eng = host_a();
    let (handle, _x1, _y1) = establish_passive(&mut eng);
    assert!(handle.v != 0);
    assert!(eng.peers.tcp.get_rto(handle).unwrap().ns > 0);
}

#[test]
fn delayed_ack_scenario() {
    let mut eng = host_a();
    let (_handle, x1, y1) = establish_passive(&mut eng);
    // a 100-byte data segment arrives at t = 10 ms
    let data = TcpSegment {
        dest_ipv4_addr: Some(ip(10, 0, 0, 1)),
        dest_port: Some(80),
        src_ipv4_addr: Some(ip(10, 0, 0, 2)),
        src_port: Some(9999),
        seq_num: y1,
        ack_num: x1,
        window_size: 0xFFFF,
        syn: false,
        ack: true,
        rst: false,
        mss: None,
        payload: vec![0xAB; 100],
    };
    eng.receive(ms(10), &data.encode(&mac(0x02), &mac(0x01))).unwrap();
    eng.advance_clock(ms(10));
    assert_eq!(tcp_transmits(&mut eng).len(), 0, "no immediate ACK");
    eng.advance_clock(ms(10 + 199));
    assert_eq!(tcp_transmits(&mut eng).len(), 0, "no ACK before the delay elapses");
    tick_times(&mut eng, ms(10 + 201), 3);
    let sent = tcp_transmits(&mut eng);
    assert_eq!(sent.len(), 1, "exactly one pure ACK");
    let ack = &sent[0];
    assert!(ack.ack && !ack.syn && !ack.rst);
    assert_eq!(ack.ack_num, y1.wrapping_add(100));
    assert_eq!(ack.payload.len(), 0);
    // the timer was cleared: nothing further is emitted
    tick_times(&mut eng, ms(10 + 600), 3);
    assert_eq!(tcp_transmits(&mut eng).len(), 0);
}

#[test]
fn rst_on_closed_port_scenario() {
    let mut eng = host_a();
    let seq: u32 = 12_345;
    let syn = TcpSegment {
        dest_ipv4_addr: Some(ip(10, 0, 0, 1)),
        dest_port: Some(9999),
        src_ipv4_addr: Some(ip(10, 0, 0, 2)),
        src_port: Some(40000),
        seq_num: seq,
        ack_num: 0,
        window_size: 0xFFFF,
        syn: true,
        ack: false,
        rst: false,
        mss: None,
        payload: Vec::new(),
    };
    eng.receive(ms(0), &syn.encode(&mac(0x02), &mac(0x01))).unwrap();
    tick_times(&mut eng, ms(0), 2);
    let sent = tcp_transmits(&mut eng);
    assert_eq!(sent.len(), 1, "exactly one RST");
    let rst = &sent[0];
    assert!(rst.rst);
    assert!(rst.ack, "the RST carries its acknowledgment");
    // the SYN consumes one byte of sequence space
    assert_eq!(rst.ack_num, seq.wrapping_add(1));
    assert_eq!(rst.dest_port, Some(40000));
    assert_eq!(rst.src_port, Some(9999));
    // the connection table is unchanged
    assert_eq!(eng.peers.tcp.state.connections.len(), 0);
}

#[test]
fn handshake_timeout_with_exponential_backoff() {
    let mut eng = host_a();
    // the peer at 10.0.0.3 resolves but never answers
    eng.peers.arp.cache.insert(ip(10, 0, 0, 3), mac(0x03));
    let ports_before = eng.peers.tcp.state.unassigned_private_ports.len();
    let fut = eng.peers.tcp.connect(&mut eng.rt, ms(0), Endpoint::new(ip(10, 0, 0, 3), 80));
    tick_times(&mut eng, ms(0), 6);
    let s0 = tcp_transmits(&mut eng);
    assert_eq!(s0.len(), 1, "SYN at t = 0");
    assert!(s0[0].syn);
    let isn = s0[0].seq_num;
    tick_times(&mut eng, ms(400), 4);
    assert_eq!(tcp_transmits(&mut eng).len(), 0, "no retransmit before the timeout");
    tick_times(&mut eng, ms(500), 4);
    let s1 = tcp_transmits(&mut eng);
    assert_eq!(s1.len(), 1, "retransmit at t = 500 ms");
    assert_eq!(s1[0].seq_num, isn);
    tick_times(&mut eng, ms(1400), 4);
    assert_eq!(tcp_transmits(&mut eng).len(), 0, "the wait doubled");
    tick_times(&mut eng, ms(1500), 4);
    let s2 = tcp_transmits(&mut eng);
    assert_eq!(s2.len(), 1, "retransmit at t = 1500 ms");
    tick_times(&mut eng, ms(3400), 4);
    assert!(matches!(fut.poll(&eng.rt.sched), Err(Fail::TryAgain)), "still trying at 3400 ms");
    tick_times(&mut eng, ms(3500), 4);
    assert!(matches!(fut.poll(&eng.rt.sched), Err(Fail::Timeout)), "final failure at 3500 ms");
    // the private port returned to the pool; nothing was announced
    assert_eq!(eng.peers.tcp.state.unassigned_private_ports.len(), ports_before);
    let events = eng.take_events();
    assert!(!events.iter().any(|e| matches!(e, Event::IncomingTcpConnection(_))));
    assert!(!events.iter().any(|e| matches!(e, Event::TcpConnectionClosed { .. })));
}

#[test]
fn listen_conflict_is_busy() {
    let mut eng = host_a();
    eng.peers.tcp.listen(80).unwrap();
    assert!(matches!(eng.peers.tcp.listen(80), Err(Fail::ResourceBusy)));
}

#[test]
fn write_read_peek_round_trip() {
    let mut eng = host_a();
    let (handle, _x1, y1) = establish_passive(&mut eng);
    // peer data is readable after the main loop processed it
    let data = TcpSegment {
        dest_ipv4_addr: Some(ip(10, 0, 0, 1)),
        dest_port: Some(80),
        src_ipv4_addr: Some(ip(10, 0, 0, 2)),
        src_port: Some(9999),
        seq_num: y1,
        ack_num: 0,
        window_size: 0xFFFF,
        syn: false,
        ack: false,
        rst: false,
        mss: None,
        payload: vec![1, 2, 3],
    };
    eng.receive(ms(5), &data.encode(&mac(0x02), &mac(0x01))).unwrap();
    eng.advance_clock(ms(5));
    assert_eq!(eng.peers.tcp.peek(handle).unwrap(), vec![1, 2, 3]);
    assert_eq!(eng.peers.tcp.read(handle).unwrap(), vec![1, 2, 3]);
    assert!(matches!(eng.peers.tcp.read(handle), Err(Fail::ResourceExhausted)));
    // our own write is packetized and transmitted with the right sequence
    eng.peers.tcp.write(handle, &vec![7, 8, 9, 10]).unwrap();
    tick_times(&mut eng, ms(6), 3);
    let sent = tcp_transmits(&mut eng);
    let data_out = sent.iter().find(|s| s.payload == vec![7, 8, 9, 10]).expect("data sent");
    // the peer's acknowledgment feeds the smoothed retransmission timeout
    let rto_before = eng.peers.tcp.get_rto(handle).unwrap();
    let peer_ack = TcpSegment {
        dest_ipv4_addr: Some(ip(10, 0, 0, 1)),
        dest_port: Some(80),
        src_ipv4_addr: Some(ip(10, 0, 0, 2)),
        src_port: Some(9999),
        seq_num: y1.wrapping_add(3),
        ack_num: data_out.seq_num.wrapping_add(4),
        window_size: 0xFFFF,
        syn: false,
        ack: true,
        rst: false,
        mss: None,
        payload: Vec::new(),
    };
    eng.receive(ms(8), &peer_ack.encode(&mac(0x02), &mac(0x01))).unwrap();
    tick_times(&mut eng, ms(8), 2);
    let rto_after = eng.peers.tcp.get_rto(handle).unwrap();
    assert!(rto_after.ns < rto_before.ns, "a quick acknowledgment shrinks the timeout");
}

#[test]
fn unknown_handle_is_not_found() {
    let eng = host_a();
    let bogus = TcpConnectionHandle { v: 4321 };
    assert!(matches!(eng.peers.tcp.get_mss(bogus), Err(Fail::ResourceNotFound)));
    assert!(matches!(eng.peers.tcp.peek(bogus), Err(Fail::ResourceNotFound)));
    assert!(matches!(eng.peers.tcp.get_connection_id(bogus), Err(Fail::ResourceNotFound)));
}

#[test]
fn rst_aborts_established_connection() {
    let mut eng = host_a();
    let (handle, x1, y1) = establish_passive(&mut eng);
    let rst = TcpSegment {
        dest_ipv4_addr: Some(ip(10, 0, 0, 1)),
        dest_port: Some(80),
        src_ipv4_addr: Some(ip(10, 0, 0, 2)),
        src_port: Some(9999),
        seq_num: y1,
        ack_num: x1,
        window_size: 0,
        syn: false,
        ack: false,
        rst: true,
        mss: None,
        payload: Vec::new(),
    };
    eng.receive(ms(20), &rst.encode(&mac(0x02), &mac(0x01))).unwrap();
    tick_times(&mut eng, ms(20), 3);
    let events = eng.take_events();
    let closed = events.iter().find_map(
        |e| match e {
            Event::TcpConnectionClosed { handle: h, error } => Some((*h, *error)),
            _ => None,
        },
    );
    let (h, err) = closed.expect("the close was announced once");
    assert_eq!(h, handle);
    assert_eq!(err, Some(Fail::ConnectionAborted));
    // the 4-tuple is gone from the table
    assert!(matches!(eng.peers.tcp.get_connection_id(handle), Err(Fail::ResourceNotFound)));
}

#[test]
fn rst_during_handshake_refuses_connection() {
    let mut eng = host_a();
    let fut = eng.peers.tcp.connect(&mut eng.rt, ms(0), Endpoint::new(ip(10, 0, 0, 2), 80));
    tick_times(&mut eng, ms(0), 6);
    let sent = tcp_transmits(&mut eng);
    assert_eq!(sent.len(), 1);
    let local_port = sent[0].src_port.unwrap();
    let rst = TcpSegment {
        dest_ipv4_addr: Some(ip(10, 0, 0, 1)),
        dest_port: Some(local_port),
        src_ipv4_addr: Some(ip(10, 0, 0, 2)),
        src_port: Some(80),
        seq_num: 0,
        ack_num: 0,
        window_size: 0,
        syn: false,
        ack: false,
        rst: true,
        mss: None,
        payload: Vec::new(),
    };
    eng.receive(ms(1), &rst.encode(&mac(0x02), &mac(0x01))).unwrap();
    tick_times(&mut eng, ms(1), 6);
    assert!(matches!(fut.poll(&eng.rt.sched), Err(Fail::ConnectionRefused)));
    assert_eq!(eng.peers.tcp.state.connections.len(), 0);
}

#[test]
fn out_of_order_segment_is_ignored_without_killing_the_connection() {
    let mut eng = host_a();
    let (handle, _x1, y1) = establish_passive(&mut eng);
    let data = TcpSegment {
        dest_ipv4_addr: Some(ip(10, 0, 0, 1)),
        dest_port: Some(80),
        src_ipv4_addr: Some(ip(10, 0, 0, 2)),
        src_port: Some(9999),
        seq_num: y1.wrapping_add(50),  // a gap: not the next expected byte
        ack_num: 0,
        window_size: 0xFFFF,
        syn: false,
        ack: false,
        rst: false,
        mss: None,
        payload: vec![1, 2, 3],
    };
    eng.receive(ms(5), &data.encode(&mac(0x02), &mac(0x01))).unwrap();
    tick_times(&mut eng, ms(5), 2);
    // nothing was delivered, but the connection survives
    assert!(matches!(eng.peers.tcp.read(handle), Err(Fail::ResourceExhausted)));
    assert!(eng.peers.tcp.get_mss(handle).is_ok());
}

#[test]
fn tcp_segment_for_another_host_is_rejected() {
    let mut eng = host_a();
    eng.peers.tcp.listen(80).unwrap();
    let syn = TcpSegment {
        dest_ipv4_addr: Some(ip(10, 0, 0, 9)),  // not this host
        dest_port: Some(80),
        src_ipv4_addr: Some(ip(10, 0, 0, 2)),
        src_port: Some(9999),
        seq_num: 1,
        ack_num: 0,
        window_size: 0xFFFF,
        syn: true,
        ack: false,
        rst: false,
        mss: None,
        payload: Vec::new(),
    };
    assert!(matches!(
        eng.receive(ms(0), &syn.encode(&mac(0x02), &mac(0x01))),
        Err(Fail::Malformed)
    ));
    tick_times(&mut eng, ms(0), 2);
    assert_eq!(tcp_transmits(&mut eng).len(), 0, "no RST for another host's segment");
}
