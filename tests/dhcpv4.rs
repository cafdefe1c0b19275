use mozim::{
    decode, encode, get_test_veth_cli_mac, ipv4, DhcpOption, DhcpServerLease, DhcpV4Config,
    DhcpV4Engine, DhcpV4Lease, Message,
};

const TEST_NIC_CLI: &str = "dhcpcli";
const IP_CMD_OUTPUT: &str = "00:23:45:67:89:1a\n";

fn foo1_static_ip() -> u32 {
    ipv4(192, 0, 2, 99)
}

fn opt(code: u8, data: Vec<u8>) -> DhcpOption {
    DhcpOption { code, data }
}

fn be(x: u32) -> Vec<u8> {
    x.to_be_bytes().to_vec()
}

/// A stand-in for the test network's DHCP server: host "foo1" is mapped to
/// 192.0.2.99, and each acknowledged lease is written down as a lease-file
/// line.
struct FakeServer {
    lease_lines: Vec<String>,
}

impl FakeServer {
    fn new() -> Self {
        FakeServer { lease_lines: Vec::new() }
    }

    fn reply(req: &Message, kind: u8, yiaddr: u32) -> Vec<u8> {
        let mut options = vec![opt(53, vec![kind]), opt(54, be(ipv4(192, 0, 2, 1)))];
        if let Some(host) = Self::find(req, 12) {
            options.push(opt(12, host));
        }
        if kind != 6 {
            options.push(opt(51, be(3600)));
            options.push(opt(1, be(ipv4(255, 255, 255, 0))));
            options.push(opt(3, be(ipv4(192, 0, 2, 1))));
            options.push(opt(6, vec![8, 8, 8, 8, 1, 1, 1, 1]));
        }
        let m = Message {
            op: 2,
            htype: 1,
            hlen: 6,
            hops: 0,
            xid: req.xid,
            secs: 0,
            flags: req.flags,
            ciaddr: 0,
            yiaddr,
            siaddr: 0,
            giaddr: 0,
            chaddr: req.chaddr.clone(),
            sname: vec![0; 64],
            file: vec![0; 128],
            options,
        };
        encode(&m)
    }

    fn find(m: &Message, code: u8) -> Option<Vec<u8>> {
        m.options.iter().find(|o| o.code == code).map(|o| o.data.clone())
    }

    fn handle(&mut self, frame: &[u8]) -> Option<Vec<u8>> {
        let m = decode(frame).ok()?;
        let kind = Self::find(&m, 53)?;
        let host = Self::find(&m, 12).map(|h| String::from_utf8(h).unwrap());
        let ip = if host.as_deref() == Some("foo1") {
            foo1_static_ip()
        } else {
            ipv4(192, 0, 2, 10)
        };
        match kind.as_slice() {
            [1] => Some(Self::reply(&m, 2, ip)),
            [3] => {
                let mac: Vec<String> = m.chaddr[..6].iter().map(|b| format!("{b:02x}")).collect();
                let client_id: Vec<String> = Self::find(&m, 61)
                    .unwrap_or_default()
                    .iter()
                    .map(|b| format!("{b:02x}"))
                    .collect();
                let ip_text = format!("192.0.2.{}", ip & 0xff);
                self.lease_lines.push(format!(
                    "1700003600 {} {} {} {}",
                    mac.join(":"),
                    ip_text,
                    host.unwrap_or_else(|| "*".to_string()),
                    if client_id.is_empty() { "*".to_string() } else { client_id.join(":") }
                ));
                Some(Self::reply(&m, 5, ip))
            }
            _ => None,
        }
    }

    fn get_latest_lease(&self) -> Option<DhcpServerLease> {
        self.lease_lines.last().and_then(|l| DhcpServerLease::from_str(l).ok())
    }
}

fn mac_bytes(mac: &str) -> Vec<u8> {
    mac.split(':').map(|h| u8::from_str_radix(h, 16).unwrap()).collect()
}

fn init(config: DhcpV4Config) -> DhcpV4Engine {
    let mac = mac_bytes(&get_test_veth_cli_mac(IP_CMD_OUTPUT));
    DhcpV4Engine::new(config, &mac).unwrap()
}

fn get_lease(cli: &mut DhcpV4Engine, srv: &mut FakeServer) -> Option<DhcpV4Lease> {
    cli.start(0x2f3e_4d5c, 0);
    let mut now: u64 = 0;
    for _ in 0..32 {
        let mut packets = Vec::new();
        for out in cli.take_outgoing() {
            if let Some(reply) = srv.handle(&out.frame) {
                packets.push(reply);
            }
        }
        now += 1;
        for event in cli.events_for(&packets, now) {
            match cli.process(event, now) {
                Ok(Some(lease)) => return Some(lease),
                Ok(None) => (),
                Err(_) => return None,
            }
        }
    }
    None
}

#[test]
fn test_dhcpv4_get_ip() {
    let mut srv = FakeServer::new();

    let mut config = DhcpV4Config::new(TEST_NIC_CLI);
    config.set_host_name("foo1");

    let mut cli = init(config);

    let lease = get_lease(&mut cli, &mut srv);
    assert!(lease.is_some());
    if let Some(lease) = lease {
        assert_eq!(lease.yiaddr, foo1_static_ip(),);
    }
}

#[test]
fn test_dhcpv4_host_name() {
    let mut srv = FakeServer::new();

    let mut config = DhcpV4Config::new(TEST_NIC_CLI);
    config.set_host_name("foo1");

    let mut cli = init(config);

    let lease = get_lease(&mut cli, &mut srv);
    assert!(lease.is_some());
    if let Some(lease) = lease {
        assert_eq!(lease.host_name.as_ref(), Some(&"foo1".to_string()));
    }
}

#[test]
fn test_dhcpv4_use_host_name_as_client_id() {
    let mut srv = FakeServer::new();
    let mut config = DhcpV4Config::new(TEST_NIC_CLI);
    config.set_host_name("foo1");
    config.use_host_name_as_client_id();
    let expected_client_id = config.client_id.clone();

    let mut cli = init(config);

    let lease = get_lease(&mut cli, &mut srv);
    let srv_lease = srv.get_latest_lease();

    assert!(lease.is_some());
    assert!(srv_lease.is_some());

    if let Some(srv_lease) = srv_lease {
        assert_eq!(srv_lease.client_id, expected_client_id,);
        assert_eq!(srv_lease.client_id, vec![0, b'f', b'o', b'o', b'1']);
    }
}

#[test]
fn test_dhcpv4_use_mac_as_client_id() {
    let mut srv = FakeServer::new();
    let mut config = DhcpV4Config::new(TEST_NIC_CLI);
    config.use_mac_as_client_id();
    let mut cli: DhcpV4Engine = init(config);

    let lease = get_lease(&mut cli, &mut srv);
    let srv_lease = srv.get_latest_lease();
    let cli_mac = get_test_veth_cli_mac(IP_CMD_OUTPUT);

    assert!(lease.is_some());
    assert!(srv_lease.is_some());
    assert!(!cli_mac.is_empty());

    if let Some(srv_lease) = srv_lease {
        assert_eq!(srv_lease.mac, cli_mac);
        let mut id = vec![1u8];
        id.extend(mac_bytes(&cli_mac));
        assert_eq!(srv_lease.client_id, id);
    }
}

#[test]
fn lease_carries_server_options() {
    let mut srv = FakeServer::new();
    let mut config = DhcpV4Config::new(TEST_NIC_CLI);
    config.set_host_name("foo1");
    let mut cli = init(config);
    let lease = get_lease(&mut cli, &mut srv).unwrap();
    assert_eq!(lease.srv_id, ipv4(192, 0, 2, 1));
    assert_eq!(lease.subnet_mask, ipv4(255, 255, 255, 0));
    assert_eq!(lease.gateways, vec![ipv4(192, 0, 2, 1)]);
    assert_eq!(lease.dns_srvs, vec![ipv4(8, 8, 8, 8), ipv4(1, 1, 1, 1)]);
    assert_eq!(lease.lease_time, 3600);
    assert_eq!(lease.t1, 1800);
    assert_eq!(lease.t2, 3150);
}
