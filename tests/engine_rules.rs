use mozim::{
    decode, encode, ipv4, ClientState, DhcpError, DhcpOption, DhcpV4Config, DhcpV4Engine,
    DhcpV4Event, Message,
};

const MAC: [u8; 6] = [0, 0x23, 0x45, 0x67, 0x89, 0x1a];

fn engine() -> DhcpV4Engine {
    let mut config = DhcpV4Config::new("dhcpcli");
    config.set_host_name("foo1");
    DhcpV4Engine::new(config, &MAC).unwrap()
}

fn reply(xid: u32, kind: u8, extra: Vec<DhcpOption>) -> Vec<u8> {
    let mut chaddr = MAC.to_vec();
    chaddr.resize(16, 0);
    let mut options = vec![
        DhcpOption { code: 53, data: vec![kind] },
        DhcpOption { code: 54, data: vec![192, 0, 2, 1] },
    ];
    options.extend(extra);
    encode(&Message {
        op: 2,
        htype: 1,
        hlen: 6,
        hops: 0,
        xid,
        secs: 0,
        flags: 0,
        ciaddr: 0,
        yiaddr: ipv4(192, 0, 2, 99),
        siaddr: 0,
        giaddr: 0,
        chaddr,
        sname: vec![0; 64],
        file: vec![0; 128],
        options,
    })
}

fn lease_time(secs: u32) -> DhcpOption {
    DhcpOption { code: 51, data: secs.to_be_bytes().to_vec() }
}

fn current_xid(e: &DhcpV4Engine) -> u32 {
    match e.state() {
        ClientState::Selecting { xid, .. }
        | ClientState::Requesting { xid, .. }
        | ClientState::Renewing { xid, .. }
        | ClientState::Rebinding { xid, .. } => *xid,
        _ => panic!("no transaction in flight"),
    }
}

fn sent_type(e: &mut DhcpV4Engine) -> (u32, u32, u8) {
    let out = e.take_outgoing();
    let last = out.last().unwrap();
    let m = decode(&last.frame).unwrap();
    (last.dest, m.xid, m.options[0].data[0])
}

fn bound(e: &mut DhcpV4Engine, extra: Vec<DhcpOption>) {
    e.start(77, 0);
    let xid = current_xid(e);
    e.process(DhcpV4Event::Packet(reply(xid, 2, vec![])), 1).unwrap();
    let lease = e.process(DhcpV4Event::Packet(reply(xid, 5, extra)), 2).unwrap();
    assert!(lease.is_some());
    e.take_outgoing();
}

#[test]
fn start_broadcasts_discover() {
    let mut e = engine();
    e.start(1234, 10);
    assert!(matches!(e.state(), ClientState::Selecting { xid: 1234, attempt: 0 }));
    assert_eq!(sent_type(&mut e), (0xffff_ffff, 1234, 1));
    assert_eq!(e.next_deadline(), Some(14));
}

#[test]
fn foreign_xid_is_ignored() {
    let mut e = engine();
    e.start(1234, 0);
    let r = e.process(DhcpV4Event::Packet(reply(1235, 2, vec![])), 1);
    assert_eq!(r, Ok(None));
    assert!(matches!(e.state(), ClientState::Selecting { xid: 1234, .. }));
    let r = e.process(DhcpV4Event::Packet(vec![1, 2, 3]), 1);
    assert_eq!(r, Ok(None));
    assert!(matches!(e.state(), ClientState::Selecting { .. }));
}

#[test]
fn offer_then_ack_binds_with_default_timers() {
    let mut e = engine();
    e.start(42, 0);
    e.take_outgoing();
    assert_eq!(e.process(DhcpV4Event::Packet(reply(42, 2, vec![])), 1), Ok(None));
    assert!(matches!(e.state(), ClientState::Requesting { xid: 42, .. }));
    assert_eq!(sent_type(&mut e), (0xffff_ffff, 42, 3));
    let lease = e.process(DhcpV4Event::Packet(reply(42, 5, vec![lease_time(3600)])), 5).unwrap().unwrap();
    assert_eq!(lease.t1, 1800);
    assert_eq!(lease.t2, 3150);
    assert_eq!(lease.acquired_at, 5);
    assert!(matches!(e.state(), ClientState::Bound { .. }));
    assert_eq!(e.next_deadline(), Some(1805));
}

#[test]
fn explicit_timers_used_only_when_ordered() {
    let t = |a: u32, b: u32| {
        vec![
            lease_time(1000),
            DhcpOption { code: 58, data: a.to_be_bytes().to_vec() },
            DhcpOption { code: 59, data: b.to_be_bytes().to_vec() },
        ]
    };
    let mut e = engine();
    e.start(5, 0);
    e.process(DhcpV4Event::Packet(reply(5, 2, vec![])), 0).unwrap();
    let l = e.process(DhcpV4Event::Packet(reply(5, 5, t(100, 200))), 0).unwrap().unwrap();
    assert_eq!((l.t1, l.t2), (100, 200));
    let mut e = engine();
    e.start(5, 0);
    e.process(DhcpV4Event::Packet(reply(5, 2, vec![])), 0).unwrap();
    let l = e.process(DhcpV4Event::Packet(reply(5, 5, t(300, 200))), 0).unwrap().unwrap();
    assert_eq!((l.t1, l.t2), (500, 875));
}

#[test]
fn nak_returns_to_init_and_next_xid_differs() {
    let mut e = engine();
    e.start(9, 0);
    e.process(DhcpV4Event::Packet(reply(9, 2, vec![])), 1).unwrap();
    let r = e.process(DhcpV4Event::Packet(reply(9, 6, vec![])), 2);
    assert_eq!(r, Err(DhcpError::Nak));
    assert!(matches!(e.state(), ClientState::Init));
    assert_eq!(e.next_deadline(), None);
    e.start(9, 3);
    assert_ne!(current_xid(&e), 9);
}

#[test]
fn nak_while_renewing_and_rebinding() {
    let mut e = engine();
    bound(&mut e, vec![lease_time(3600)]);
    e.process(DhcpV4Event::Renew, 1802).unwrap();
    let xid = current_xid(&e);
    assert_eq!(e.process(DhcpV4Event::Packet(reply(xid, 6, vec![])), 1803), Err(DhcpError::Nak));
    assert!(matches!(e.state(), ClientState::Init));

    let mut e = engine();
    bound(&mut e, vec![lease_time(3600)]);
    e.process(DhcpV4Event::Rebind, 3152).unwrap();
    let xid = current_xid(&e);
    assert_eq!(e.process(DhcpV4Event::Packet(reply(xid, 6, vec![])), 3153), Err(DhcpError::Nak));
    assert!(matches!(e.state(), ClientState::Init));
}

#[test]
fn retransmission_backs_off_then_gives_up() {
    let mut e = engine();
    e.start(1, 0);
    e.take_outgoing();
    let mut now = 0u64;
    let mut intervals = Vec::new();
    loop {
        let deadline = e.next_deadline().unwrap();
        intervals.push(deadline - now);
        now = deadline;
        match e.process(DhcpV4Event::Retransmit, now) {
            Ok(None) => assert_eq!(sent_type(&mut e).2, 1),
            Err(err) => {
                assert_eq!(err, DhcpError::NoOffer);
                break;
            }
            Ok(Some(_)) => panic!("no lease without a server"),
        }
    }
    assert_eq!(intervals, vec![4, 8, 16, 32, 64]);
    assert!(matches!(e.state(), ClientState::Init));
}

#[test]
fn custom_backoff_respects_ceiling() {
    let mut config = DhcpV4Config::new("dhcpcli");
    config.set_timeout(3, 10);
    let mut e = DhcpV4Engine::new(config, &MAC).unwrap();
    e.start(1, 0);
    let mut now = 0u64;
    let mut intervals = Vec::new();
    while let Some(deadline) = e.next_deadline() {
        intervals.push(deadline - now);
        now = deadline;
        if e.process(DhcpV4Event::Retransmit, now).is_err() {
            break;
        }
    }
    assert_eq!(intervals, vec![3, 6, 10]);
}

#[test]
fn renew_unicasts_and_rebind_broadcasts() {
    let mut e = engine();
    bound(&mut e, vec![lease_time(3600)]);
    let old_xid = 77;
    assert_eq!(e.process(DhcpV4Event::Renew, 1802), Ok(None));
    assert!(matches!(e.state(), ClientState::Renewing { .. }));
    let (dest, xid, kind) = sent_type(&mut e);
    assert_eq!((dest, kind), (ipv4(192, 0, 2, 1), 3));
    assert_ne!(xid, old_xid);
    assert_eq!(e.process(DhcpV4Event::Rebind, 3152), Ok(None));
    assert!(matches!(e.state(), ClientState::Rebinding { .. }));
    let (dest, _, kind) = sent_type(&mut e);
    assert_eq!((dest, kind), (0xffff_ffff, 3));
    let xid = current_xid(&e);
    let renewed = e.process(DhcpV4Event::Packet(reply(xid, 5, vec![lease_time(60)])), 3160).unwrap();
    assert_eq!(renewed.unwrap().t1, 30);
    assert!(matches!(e.state(), ClientState::Bound { .. }));
}

#[test]
fn expiry_drops_the_lease() {
    let mut e = engine();
    bound(&mut e, vec![lease_time(3600)]);
    assert_eq!(e.process(DhcpV4Event::Expire, 3602), Err(DhcpError::LeaseExpired));
    assert!(matches!(e.state(), ClientState::Init));
    assert_eq!(e.process(DhcpV4Event::Expire, 3603), Ok(None));
}

#[test]
fn ack_without_lease_time_is_ignored() {
    let mut e = engine();
    e.start(3, 0);
    e.process(DhcpV4Event::Packet(reply(3, 2, vec![])), 0).unwrap();
    assert_eq!(e.process(DhcpV4Event::Packet(reply(3, 5, vec![])), 0), Ok(None));
    assert!(matches!(e.state(), ClientState::Requesting { .. }));
}

#[test]
fn packets_come_before_due_timers() {
    let mut e = engine();
    e.start(1, 0);
    let events = e.events_for(&vec![vec![1u8], vec![2u8]], 100);
    assert_eq!(events.len(), 3);
    assert!(matches!(&events[0], DhcpV4Event::Packet(b) if b == &vec![1u8]));
    assert!(matches!(&events[1], DhcpV4Event::Packet(b) if b == &vec![2u8]));
    assert!(matches!(events[2], DhcpV4Event::Retransmit));
    assert!(e.events_for(&vec![], 1).is_empty());
}

#[test]
fn bad_configuration_is_refused() {
    let c = DhcpV4Config::new("x");
    assert_eq!(DhcpV4Engine::new(c, &MAC[..5]).err(), Some(DhcpError::Config));
    let mut c = DhcpV4Config::new("x");
    c.set_timeout(0, 64);
    assert_eq!(DhcpV4Engine::new(c, &MAC).err(), Some(DhcpError::Config));
    let mut c = DhcpV4Config::new("x");
    c.set_timeout(65, 64);
    assert_eq!(DhcpV4Engine::new(c, &MAC).err(), Some(DhcpError::Config));
    let mut c = DhcpV4Config::new("x");
    c.set_custom_client_id(&[7u8; 256]);
    assert_eq!(DhcpV4Engine::new(c, &MAC).err(), Some(DhcpError::Config));
}

#[test]
fn client_id_strategies() {
    let mut c = DhcpV4Config::new("x");
    c.use_mac_as_client_id();
    let e = DhcpV4Engine::new(c, &MAC).unwrap();
    assert_eq!(e.client_id(), &vec![1, 0, 0x23, 0x45, 0x67, 0x89, 0x1a]);
    let mut c = DhcpV4Config::new("x");
    c.use_host_name_as_client_id();
    c.set_host_name("ab");
    assert_eq!(c.client_id, vec![0, b'a', b'b']);
    let mut c = DhcpV4Config::new("x");
    c.set_custom_client_id(&[5, 6]);
    assert_eq!(DhcpV4Engine::new(c, &MAC).unwrap().client_id(), &vec![5, 6]);
}

#[test]
fn wait_stops_at_next_timer() {
    let mut e = engine();
    assert_eq!(e.wait_time(5, 0), 5);
    e.start(1, 100);
    assert_eq!(e.wait_time(5, 100), 4);
    assert_eq!(e.wait_time(3, 100), 3);
    assert_eq!(e.wait_time(5, 200), 0);
}

#[test]
fn only_server_port_admitted() {
    assert!(mozim::engine::admits_source_port(67));
    assert!(!mozim::engine::admits_source_port(68));
    assert!(!mozim::engine::admits_source_port(53));
}

#[test]
fn host_name_comes_from_the_ack() {
    let mut config = DhcpV4Config::new("dhcpcli");
    config.use_mac_as_client_id();
    let mut e = DhcpV4Engine::new(config, &MAC).unwrap();
    e.start(8, 0);
    e.process(DhcpV4Event::Packet(reply(8, 2, vec![])), 0).unwrap();
    let name = DhcpOption { code: 12, data: b"foo1".to_vec() };
    let l = e.process(DhcpV4Event::Packet(reply(8, 5, vec![lease_time(60), name])), 0).unwrap().unwrap();
    assert_eq!(l.host_name, Some("foo1".to_string()));

    let mut e = engine();
    e.start(8, 0);
    e.process(DhcpV4Event::Packet(reply(8, 2, vec![])), 0).unwrap();
    let l = e.process(DhcpV4Event::Packet(reply(8, 5, vec![lease_time(60)])), 0).unwrap().unwrap();
    assert_eq!(l.host_name, None);

    let mut e = engine();
    e.start(8, 0);
    e.process(DhcpV4Event::Packet(reply(8, 2, vec![])), 0).unwrap();
    let bad = DhcpOption { code: 12, data: vec![0xff, 0xfe] };
    let l = e.process(DhcpV4Event::Packet(reply(8, 5, vec![lease_time(60), bad])), 0).unwrap().unwrap();
    assert_eq!(l.host_name, None);
}

#[test]
fn ack_without_server_id_uses_offer_server() {
    let mut e = engine();
    e.start(4, 0);
    e.process(DhcpV4Event::Packet(reply(4, 2, vec![])), 0).unwrap();
    let mut chaddr = MAC.to_vec();
    chaddr.resize(16, 0);
    let ack = encode(&Message {
        op: 2,
        htype: 1,
        hlen: 6,
        hops: 0,
        xid: 4,
        secs: 0,
        flags: 0,
        ciaddr: 0,
        yiaddr: ipv4(192, 0, 2, 99),
        siaddr: 0,
        giaddr: 0,
        chaddr,
        sname: vec![0; 64],
        file: vec![0; 128],
        options: vec![DhcpOption { code: 53, data: vec![5] }, lease_time(3600)],
    });
    let l = e.process(DhcpV4Event::Packet(ack), 0).unwrap().unwrap();
    assert_eq!(l.srv_id, ipv4(192, 0, 2, 1));
    assert_eq!((l.t1, l.t2), (1800, 3150));
}

#[test]
fn one_given_timer_is_kept() {
    let only_t1 = vec![lease_time(1000), DhcpOption { code: 58, data: 100u32.to_be_bytes().to_vec() }];
    let mut e = engine();
    e.start(6, 0);
    e.process(DhcpV4Event::Packet(reply(6, 2, vec![])), 0).unwrap();
    let l = e.process(DhcpV4Event::Packet(reply(6, 5, only_t1)), 0).unwrap().unwrap();
    assert_eq!((l.t1, l.t2), (100, 875));
    let only_t2 = vec![lease_time(1000), DhcpOption { code: 59, data: 900u32.to_be_bytes().to_vec() }];
    let mut e = engine();
    e.start(6, 0);
    e.process(DhcpV4Event::Packet(reply(6, 2, vec![])), 0).unwrap();
    let l = e.process(DhcpV4Event::Packet(reply(6, 5, only_t2)), 0).unwrap().unwrap();
    assert_eq!((l.t1, l.t2), (500, 900));
}

#[test]
fn due_timers_in_order() {
    let mut e = engine();
    bound(&mut e, vec![lease_time(100)]);
    let events = e.events_for(&vec![], 1000);
    assert_eq!(events.len(), 3);
    assert!(matches!(events[0], DhcpV4Event::Expire));
    assert!(matches!(events[1], DhcpV4Event::Rebind));
    assert!(matches!(events[2], DhcpV4Event::Renew));
}

#[test]
fn retransmission_rearms_and_resends() {
    let mut e = engine();
    e.start(2, 0);
    e.process(DhcpV4Event::Packet(reply(2, 2, vec![])), 1).unwrap();
    e.take_outgoing();
    assert_eq!(e.next_deadline(), Some(5));
    assert_eq!(e.process(DhcpV4Event::Retransmit, 5), Ok(None));
    assert_eq!(sent_type(&mut e), (0xffff_ffff, 2, 3));
    assert_eq!(e.next_deadline(), Some(13));
}
