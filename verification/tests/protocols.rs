use catnip_core::clock::{Duration, Instant};
use catnip_core::engine::Engine;
use catnip_core::event::Event;
use catnip_core::frames::{ArpFrame, EchoFrame, ARP_OP_REPLY, ARP_OP_REQUEST, ICMP_ECHO_REPLY, ICMP_ECHO_REQUEST};
use catnip_core::ip::Ipv4Addr;
use catnip_core::mac::MacAddress;
use catnip_core::options::Options;
use catnip_core::runtime::{Future, Value};
use catnip_core::fail::Fail;

fn mac(b: u8) -> MacAddress {
    MacAddress::new([b; 6])
}

fn ip(a: u8, b: u8, c: u8, d: u8) -> Ipv4Addr {
    Ipv4Addr::from_octets(a, b, c, d)
}

fn host_a() -> Engine {
    let options = Options::new(mac(0x01), ip(10, 0, 0, 1));
    Engine::new(options, 7, Instant::from_nanos(0))
}

fn ms(n: u64) -> Instant {
    Instant::from_nanos(n * 1_000_000)
}

fn transmits(events: Vec<Event>) -> Vec<Vec<u8>> {
    let mut out = Vec::new();
    for e in events {
        if let Event::Transmit(b) = e {
            out.push(b);
        }
    }
    out
}

#[test]
fn arp_learning_scenario() {
    // empty cache at t=0: query emits one broadcast request
    let mut eng = host_a();
    let fut = eng.peers.arp.query(&mut eng.rt, ms(0), ip(10, 0, 0, 2));
    eng.advance_clock(ms(0));
    let frames = transmits(eng.take_events());
    assert_eq!(frames.len(), 1);
    let req = ArpFrame::decode(&frames[0]).expect("ARP request on the wire");
    assert_eq!(req.op, ARP_OP_REQUEST);
    assert_eq!(req.tpa, ip(10, 0, 0, 2));
    assert_eq!(req.spa, ip(10, 0, 0, 1));
    assert!(req.dst.is_broadcast());
    // the reply at t=5ms resolves the future and populates both directions
    let reply = ArpFrame {
        op: ARP_OP_REPLY,
        sha: mac(0x02),
        spa: ip(10, 0, 0, 2),
        tha: mac(0x01),
        tpa: ip(10, 0, 0, 1),
        dst: mac(0x01),
        src: mac(0x02),
    };
    eng.receive(ms(5), &reply.encode()).unwrap();
    eng.advance_clock(ms(5));
    match fut.poll(&eng.rt.sched) {
        Ok(Value::Mac(m)) => assert_eq!(m, mac(0x02)),
        other => panic!("query did not resolve to the learned address: {:?}", other),
    }
    assert_eq!(eng.peers.arp.cache.get_link_addr(ip(10, 0, 0, 2)), Some(mac(0x02)));
    assert_eq!(eng.peers.arp.cache.get_ipv4_addr(mac(0x02)), Some(ip(10, 0, 0, 2)));
}

#[test]
fn arp_request_for_local_address_is_answered() {
    let mut eng = host_a();
    let request = ArpFrame {
        op: ARP_OP_REQUEST,
        sha: mac(0x02),
        spa: ip(10, 0, 0, 2),
        tha: MacAddress::nil(),
        tpa: ip(10, 0, 0, 1),
        dst: MacAddress::broadcast(),
        src: mac(0x02),
    };
    eng.receive(ms(0), &request.encode()).unwrap();
    let frames = transmits(eng.take_events());
    assert_eq!(frames.len(), 1);
    let reply = ArpFrame::decode(&frames[0]).unwrap();
    assert_eq!(reply.op, ARP_OP_REPLY);
    assert_eq!(reply.sha, mac(0x01));
    assert_eq!(reply.tpa, ip(10, 0, 0, 2));
    assert_eq!(reply.dst, mac(0x02));
    // the requester was learned on the way (gratuitous learning)
    assert_eq!(eng.peers.arp.cache.get_link_addr(ip(10, 0, 0, 2)), Some(mac(0x02)));
}

#[test]
fn arp_query_times_out_after_retries() {
    let mut eng = host_a();
    let fut = eng.peers.arp.query(&mut eng.rt, ms(0), ip(10, 0, 0, 9));
    // default schedule: 1 s timeout, 5 retries
    let mut t: u64 = 0;
    while t <= 7_000 {
        eng.advance_clock(ms(t));
        t += 100;
    }
    assert_eq!(fut.poll(&eng.rt.sched), Err(Fail::Timeout));
}

#[test]
fn icmp_ping_rtt_scenario() {
    let mut eng = host_a();
    // ARP pre-populated
    eng.peers.arp.cache.insert(ip(10, 0, 0, 2), mac(0x02));
    let fut = eng.peers.icmp.ping(&mut eng.rt, ms(0), ip(10, 0, 0, 2), Some(Duration::from_secs(5)));
    eng.advance_clock(ms(0));
    let frames = transmits(eng.take_events());
    assert_eq!(frames.len(), 1);
    let echo = EchoFrame::decode(&frames[0]).expect("echo request on the wire");
    assert_eq!(echo.op, ICMP_ECHO_REQUEST);
    assert_eq!(echo.seq, 0);
    assert_eq!(echo.dst, ip(10, 0, 0, 2));
    // matching reply at t = 3 ms
    let reply = EchoFrame {
        op: ICMP_ECHO_REPLY,
        id: echo.id,
        seq: echo.seq,
        src: ip(10, 0, 0, 2),
        dst: ip(10, 0, 0, 1),
        src_mac: mac(0x02),
        dst_mac: mac(0x01),
    };
    eng.receive(ms(3), &reply.encode()).unwrap();
    eng.advance_clock(ms(3));
    match fut.poll(&eng.rt.sched) {
        Ok(Value::Dur(d)) => assert_eq!(d.ns, 3_000_000),
        other => panic!("ping did not resolve: {:?}", other),
    }
    // the next ping uses the next sequence number
    let _fut2 = eng.peers.icmp.ping(&mut eng.rt, ms(4), ip(10, 0, 0, 2), None);
    eng.advance_clock(ms(4));
    let frames2 = transmits(eng.take_events());
    assert_eq!(frames2.len(), 1);
    let echo2 = EchoFrame::decode(&frames2[0]).unwrap();
    assert_eq!(echo2.seq, 1);
}

#[test]
fn icmp_ping_times_out() {
    let mut eng = host_a();
    eng.peers.arp.cache.insert(ip(10, 0, 0, 2), mac(0x02));
    let fut = eng.peers.icmp.ping(
        &mut eng.rt,
        ms(0),
        ip(10, 0, 0, 2),
        Some(Duration::from_millis(10)),
    );
    eng.advance_clock(ms(0));
    eng.advance_clock(ms(5));
    assert_eq!(fut.poll(&eng.rt.sched), Err(Fail::TryAgain));
    eng.advance_clock(ms(11));
    assert_eq!(fut.poll(&eng.rt.sched), Err(Fail::Timeout));
}

#[test]
fn icmp_echo_request_is_answered() {
    let mut eng = host_a();
    eng.peers.arp.cache.insert(ip(10, 0, 0, 2), mac(0x02));
    let request = EchoFrame {
        op: ICMP_ECHO_REQUEST,
        id: 0x4242,
        seq: 9,
        src: ip(10, 0, 0, 2),
        dst: ip(10, 0, 0, 1),
        src_mac: mac(0x02),
        dst_mac: mac(0x01),
    };
    eng.receive(ms(0), &request.encode()).unwrap();
    eng.advance_clock(ms(0));
    let frames = transmits(eng.take_events());
    assert_eq!(frames.len(), 1);
    let reply = EchoFrame::decode(&frames[0]).unwrap();
    assert_eq!(reply.op, ICMP_ECHO_REPLY);
    assert_eq!(reply.id, 0x4242);
    assert_eq!(reply.seq, 9);
    assert_eq!(reply.dst, ip(10, 0, 0, 2));
}

#[test]
fn udp_receive_and_cast() {
    let mut eng = host_a();
    eng.peers.arp.cache.insert(ip(10, 0, 0, 2), mac(0x02));
    // a datagram for a closed port is rejected
    let f = catnip_core::frames::UdpFrame {
        src: ip(10, 0, 0, 2),
        dst: ip(10, 0, 0, 1),
        src_port: 9000,
        dest_port: 7,
        payload: vec![1, 2, 3],
        src_mac: mac(0x02),
        dst_mac: mac(0x01),
    };
    assert!(eng.receive(ms(0), &f.encode()).is_err());
    // the rejection is answered with an ICMPv4 port-unreachable message
    let rejected = transmits(eng.take_events());
    assert_eq!(rejected.len(), 1);
    assert_eq!(rejected[0][34], 3, "destination unreachable");
    assert_eq!(rejected[0][35], 3, "port unreachable");
    // an open port surfaces the payload
    eng.peers.udp.open_port(7);
    assert!(eng.peers.udp.is_port_open(7));
    eng.receive(ms(0), &f.encode()).unwrap();
    let events = eng.take_events();
    assert_eq!(events.len(), 1);
    match &events[0] {
        Event::BytesReceived { src_port, dest_port, payload, .. } => {
            assert_eq!(*src_port, 9000);
            assert_eq!(*dest_port, 7);
            assert_eq!(payload, &vec![1, 2, 3]);
        },
        other => panic!("expected a delivery event: {:?}", other),
    }
    // casting resolves the destination and emits the framed datagram
    let _fut = eng.peers.udp.cast(&mut eng.rt, ms(1), ip(10, 0, 0, 2), 9000, 7, vec![4, 5]);
    eng.advance_clock(ms(1));
    let frames = transmits(eng.take_events());
    assert_eq!(frames.len(), 1);
    let sent = catnip_core::frames::UdpFrame::decode(&frames[0]).unwrap();
    assert_eq!(sent.dest_port, 9000);
    assert_eq!(sent.src_port, 7);
    assert_eq!(sent.payload, vec![4, 5]);
    assert_eq!(sent.dst, ip(10, 0, 0, 2));
    eng.peers.udp.close_port(7);
    assert!(!eng.peers.udp.is_port_open(7));
}

#[test]
fn coroutine_yield_rewrite_schedules_next_nanosecond() {
    // an unresolved ARP query yields every tick: after a resume its
    // wakeup is strictly later than now (the one-nanosecond rewrite)
    let mut eng = host_a();
    let _fut = eng.peers.arp.query(&mut eng.rt, ms(0), ip(10, 0, 0, 9));
    eng.advance_clock(ms(0));
    match eng.rt.sched.cos[0].status() {
        catnip_core::runtime::CoroutineStatus::AsleepUntil(w) => {
            assert_eq!(w.ns, 1);
        },
        other => panic!("expected a sleeping coroutine: {:?}", other),
    }
}

#[test]
fn when_any_first_success_and_last_error() {
    let sched = catnip_core::runtime::Sched::new();
    let mut w = catnip_core::runtime::WhenAny::new();
    w.add(Future::Ready(Value::Unit));
    w.add(Future::Ready(Value::Mac(mac(0x05))));
    match w.poll(&sched) {
        Some(Ok(Value::Unit)) => {},
        other => panic!("expected the first success: {:?}", other),
    }
    assert_eq!(w.len(), 1);
    match w.poll(&sched) {
        Some(Ok(Value::Mac(m))) => assert_eq!(m, mac(0x05)),
        other => panic!("expected the remaining success: {:?}", other),
    }
    assert_eq!(w.len(), 0);
    assert!(w.poll(&sched).is_none());
}

#[test]
fn frames_for_another_host_are_rejected() {
    // the local address is matched on ingress
    let mut eng = host_a();
    eng.peers.arp.cache.insert(ip(10, 0, 0, 2), mac(0x02));
    let echo = EchoFrame {
        op: ICMP_ECHO_REQUEST,
        id: 1,
        seq: 1,
        src: ip(10, 0, 0, 2),
        dst: ip(10, 0, 0, 9),
        src_mac: mac(0x02),
        dst_mac: mac(0x01),
    };
    assert!(matches!(eng.receive(ms(0), &echo.encode()), Err(Fail::Malformed)));
    let udp = catnip_core::frames::UdpFrame {
        src: ip(10, 0, 0, 2),
        dst: ip(10, 0, 0, 9),
        src_port: 1,
        dest_port: 2,
        payload: vec![],
        src_mac: mac(0x02),
        dst_mac: mac(0x01),
    };
    assert!(matches!(eng.receive(ms(0), &udp.encode()), Err(Fail::Malformed)));
    assert_eq!(eng.take_events().len(), 0);
}
