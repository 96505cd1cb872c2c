use catnip_core::arp_cache::ArpCache;
use catnip_core::clock::{Duration, Instant};
use catnip_core::fail::Fail;
use catnip_core::frames::{ArpFrame, EchoFrame, UdpFrame, ARP_OP_REQUEST, ICMP_ECHO_REQUEST};
use catnip_core::ip::Ipv4Addr;
use catnip_core::mac::MacAddress;
use catnip_core::runtime::Retry;
use catnip_core::tcp::seq_add32;
use catnip_core::segment::TcpSegment;

fn mac(b: u8) -> MacAddress {
    MacAddress::new([b; 6])
}

fn ip(a: u8, b: u8, c: u8, d: u8) -> Ipv4Addr {
    Ipv4Addr::from_octets(a, b, c, d)
}

#[test]
fn seq_arithmetic_wraps_without_panic() {
    assert_eq!(seq_add32(0xFFFF_FFFF, 1), 0);
    assert_eq!(seq_add32(0xFFFF_FFFF, 0xFFFF_FFFF), 0xFFFF_FFFE);
    assert_eq!(seq_add32(1, 2), 3);
}

#[test]
fn mac_address_predicates() {
    assert!(MacAddress::nil().is_nil());
    assert!(MacAddress::broadcast().is_broadcast());
    assert!(mac(0x02).is_unicast());
    assert!(!mac(0x01).is_unicast());
    assert_eq!(mac(0xAB).to_array(), [0xAB; 6]);
}

#[test]
fn mac_canonical_rendering() {
    let m = MacAddress::new([0x01, 0x02, 0x03, 0xAA, 0xBB, 0xCC]);
    assert_eq!(m.to_canonical(), "01-02-03-aa-bb-cc");
}

#[test]
fn ipv4_predicates_and_octets() {
    assert!(ip(255, 255, 255, 255).is_broadcast());
    assert!(ip(224, 0, 0, 1).is_multicast());
    assert!(ip(0, 0, 0, 0).is_unspecified());
    let a = ip(10, 0, 0, 2);
    assert_eq!(a.octet(0), 10);
    assert_eq!(a.octet(3), 2);
}

#[test]
fn arp_frame_round_trip() {
    let f = ArpFrame {
        op: ARP_OP_REQUEST,
        sha: mac(0x01),
        spa: ip(10, 0, 0, 1),
        tha: MacAddress::nil(),
        tpa: ip(10, 0, 0, 2),
        dst: MacAddress::broadcast(),
        src: mac(0x01),
    };
    let bytes = f.encode();
    assert_eq!(bytes.len(), 42);
    let g = ArpFrame::decode(&bytes).expect("well-formed ARP frame");
    assert_eq!(g.op, ARP_OP_REQUEST);
    assert_eq!(g.sha, mac(0x01));
    assert_eq!(g.spa, ip(10, 0, 0, 1));
    assert_eq!(g.tha, MacAddress::nil());
    assert_eq!(g.tpa, ip(10, 0, 0, 2));
    assert_eq!(g.dst, MacAddress::broadcast());
    assert!(ArpFrame::decode(&bytes[..41]).is_none());
}

#[test]
fn echo_frame_round_trip() {
    let f = EchoFrame {
        op: ICMP_ECHO_REQUEST,
        id: 0xBEEF,
        seq: 7,
        src: ip(10, 0, 0, 1),
        dst: ip(10, 0, 0, 2),
        src_mac: mac(0x01),
        dst_mac: mac(0x02),
    };
    let bytes = f.encode();
    assert_eq!(bytes.len(), 42);
    let g = EchoFrame::decode(&bytes).expect("well-formed echo frame");
    assert_eq!(g.op, ICMP_ECHO_REQUEST);
    assert_eq!(g.id, 0xBEEF);
    assert_eq!(g.seq, 7);
    assert_eq!(g.src, ip(10, 0, 0, 1));
    assert_eq!(g.dst, ip(10, 0, 0, 2));
}

#[test]
fn udp_frame_round_trip() {
    let f = UdpFrame {
        src: ip(10, 0, 0, 1),
        dst: ip(10, 0, 0, 2),
        src_port: 1234,
        dest_port: 53,
        payload: vec![1, 2, 3, 4, 5],
        src_mac: mac(0x01),
        dst_mac: mac(0x02),
    };
    let bytes = f.encode();
    let g = UdpFrame::decode(&bytes).expect("well-formed UDP frame");
    assert_eq!(g.src_port, 1234);
    assert_eq!(g.dest_port, 53);
    assert_eq!(g.payload, vec![1, 2, 3, 4, 5]);
}

#[test]
fn tcp_segment_round_trip() {
    let seg = TcpSegment {
        dest_ipv4_addr: Some(ip(10, 0, 0, 2)),
        dest_port: Some(80),
        src_ipv4_addr: Some(ip(10, 0, 0, 1)),
        src_port: Some(49500),
        seq_num: 0xDEAD_BEEF,
        ack_num: 0x0102_0304,
        window_size: 0xFFFF,
        syn: true,
        ack: false,
        rst: false,
        mss: Some(1460),
        payload: vec![9, 8, 7],
    };
    let bytes = seg.encode(&mac(0x01), &mac(0x02));
    let (got, src_mac, dst_mac) = TcpSegment::decode(&bytes).expect("well-formed TCP frame");
    assert_eq!(got.dest_ipv4_addr, Some(ip(10, 0, 0, 2)));
    assert_eq!(got.dest_port, Some(80));
    assert_eq!(got.src_ipv4_addr, Some(ip(10, 0, 0, 1)));
    assert_eq!(got.src_port, Some(49500));
    assert_eq!(got.seq_num, 0xDEAD_BEEF);
    assert_eq!(got.ack_num, 0x0102_0304);
    assert_eq!(got.window_size, 0xFFFF);
    assert!(got.syn && !got.ack && !got.rst);
    assert_eq!(got.mss, Some(1460));
    assert_eq!(got.payload, vec![9, 8, 7]);
    assert_eq!(src_mac, mac(0x01));
    assert_eq!(dst_mac, mac(0x02));
    assert_eq!(TcpSegment::decode(&bytes[..20]).unwrap_err(), Fail::Malformed);
}

#[test]
fn retry_doubles_and_gives_up() {
    let mut r = Retry::binary_exponential(Duration::from_millis(500), 2);
    assert_eq!(r.wait.ns, 500_000_000);
    assert_eq!(r.try_again().unwrap().ns, 1_000_000_000);
    assert_eq!(r.try_again().unwrap().ns, 2_000_000_000);
    assert!(r.try_again().is_none());
}

#[test]
fn arp_cache_learns_and_reverses() {
    let mut cache = ArpCache::new(Instant::from_nanos(0), Some(Duration::from_secs(15)));
    assert!(cache.insert(ip(10, 0, 0, 2), mac(0x02)).is_none());
    assert_eq!(cache.get_link_addr(ip(10, 0, 0, 2)), Some(mac(0x02)));
    assert_eq!(cache.get_ipv4_addr(mac(0x02)), Some(ip(10, 0, 0, 2)));
    // a second insert under the same key returns the displaced address
    assert_eq!(cache.insert(ip(10, 0, 0, 2), mac(0x03)), Some(mac(0x02)));
    assert_eq!(cache.get_ipv4_addr(mac(0x02)), None);
    assert_eq!(cache.get_ipv4_addr(mac(0x03)), Some(ip(10, 0, 0, 2)));
}

#[test]
fn arp_cache_ttl_expiry() {
    let mut cache = ArpCache::new(Instant::from_nanos(0), Some(Duration::from_millis(10)));
    cache.insert(ip(10, 0, 0, 2), mac(0x02));
    cache.advance_clock(Instant::from_nanos(5_000_000));
    assert_eq!(cache.get_link_addr(ip(10, 0, 0, 2)), Some(mac(0x02)));
    cache.advance_clock(Instant::from_nanos(10_000_001));
    assert_eq!(cache.get_link_addr(ip(10, 0, 0, 2)), None);
    assert_eq!(cache.get_ipv4_addr(mac(0x02)), None);
}

#[test]
fn arp_cache_evict_more_than_size_empties_both_maps() {
    let mut cache = ArpCache::new(Instant::from_nanos(0), None);
    cache.insert(ip(10, 0, 0, 2), mac(0x02));
    cache.insert(ip(10, 0, 0, 3), mac(0x03));
    let evicted = cache.try_evict(10);
    assert_eq!(evicted.len(), 2);
    assert_eq!(cache.export().len(), 0);
    assert_eq!(cache.get_link_addr(ip(10, 0, 0, 2)), None);
    assert_eq!(cache.get_ipv4_addr(mac(0x03)), None);
}

#[test]
fn arp_cache_evict_bounded() {
    let mut cache = ArpCache::new(Instant::from_nanos(0), None);
    cache.insert(ip(10, 0, 0, 2), mac(0x02));
    cache.insert(ip(10, 0, 0, 3), mac(0x03));
    cache.insert(ip(10, 0, 0, 4), mac(0x04));
    let evicted = cache.try_evict(2);
    assert_eq!(evicted.len(), 2);
    assert_eq!(cache.export().len(), 1);
}

#[test]
fn arp_cache_import_export_round_trip() {
    let mut cache = ArpCache::new(Instant::from_nanos(0), Some(Duration::from_secs(15)));
    cache.insert(ip(10, 0, 0, 2), mac(0x02));
    cache.insert(ip(10, 0, 0, 3), mac(0x03));
    let exported = cache.export();
    let mut other = ArpCache::new(Instant::from_nanos(0), Some(Duration::from_secs(15)));
    other.import(&exported);
    let again = other.export();
    assert_eq!(exported, again);
    assert_eq!(other.get_link_addr(ip(10, 0, 0, 3)), Some(mac(0x03)));
}

#[test]
fn arp_cache_remove() {
    let mut cache = ArpCache::new(Instant::from_nanos(0), None);
    cache.insert(ip(10, 0, 0, 2), mac(0x02));
    cache.remove(ip(10, 0, 0, 2));
    assert_eq!(cache.get_link_addr(ip(10, 0, 0, 2)), None);
    assert_eq!(cache.export().len(), 0);
}

#[test]
fn port_pool_exhaustion_and_release() {
    let options = catnip_core::options::Options::new(mac(0x01), ip(10, 0, 0, 1));
    let mut rt = catnip_core::runtime::Runtime::new(options, 3);
    let mut state = catnip_core::tcp::TcpPeerState::new(&mut rt);
    let total = state.unassigned_private_ports.len();
    let mut last: u16 = 0;
    for _ in 0..total {
        last = state.acquire_private_port().expect("pool not yet empty");
        assert!(last >= 49152);
    }
    // a full pool is exhaustion; releasing one entry re-enables allocation
    assert!(matches!(state.acquire_private_port(), Err(Fail::ResourceExhausted)));
    state.release_private_port(last);
    assert_eq!(state.acquire_private_port().unwrap(), last);
}

#[test]
fn arp_cache_insert_with_explicit_ttl() {
    let mut cache = ArpCache::new(Instant::from_nanos(0), Some(Duration::from_secs(15)));
    cache.insert_with_ttl(ip(10, 0, 0, 2), mac(0x02), Some(Duration::from_millis(5)));
    cache.advance_clock(Instant::from_nanos(4_000_000));
    assert_eq!(cache.get_link_addr(ip(10, 0, 0, 2)), Some(mac(0x02)));
    cache.advance_clock(Instant::from_nanos(5_000_001));
    assert_eq!(cache.get_link_addr(ip(10, 0, 0, 2)), None);
}
