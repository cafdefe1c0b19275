use vstd::prelude::*;

use crate::bytes::be32_at;
use crate::codec::{opt_lookup, Message, MessageView};
use vstd::utf8::{decode_utf8, valid_utf8};

verus! {

pub const OPT_SUBNET_MASK: u8 = 1;

pub const OPT_ROUTERS: u8 = 3;

pub const OPT_DNS_SERVERS: u8 = 6;

pub const OPT_HOST_NAME: u8 = 12;

pub const OPT_REQUESTED_IP: u8 = 50;

pub const OPT_LEASE_TIME: u8 = 51;

pub const OPT_MESSAGE_TYPE: u8 = 53;

pub const OPT_SERVER_ID: u8 = 54;

pub const OPT_PARAMETER_LIST: u8 = 55;

pub const OPT_RENEWAL_TIME: u8 = 58;

pub const OPT_REBINDING_TIME: u8 = 59;

pub const OPT_CLIENT_ID: u8 = 61;

pub const DHCP_DISCOVER: u8 = 1;

pub const DHCP_OFFER: u8 = 2;

pub const DHCP_REQUEST: u8 = 3;

pub const DHCP_ACK: u8 = 5;

pub const DHCP_NAK: u8 = 6;

/// A lease granted by a server. Times are in seconds; `acquired_at` is the
/// moment the acknowledgement was processed, on the caller's clock.
/// `host_name` is the name the server sent back (option 12), if it sent one
/// that is valid UTF-8.
#[derive(Debug, PartialEq, Eq)]
pub struct DhcpV4Lease {
    pub yiaddr: u32,
    pub srv_id: u32,
    pub subnet_mask: u32,
    pub gateways: Vec<u32>,
    pub dns_srvs: Vec<u32>,
    pub host_name: Option<String>,
    pub lease_time: u32,
    pub t1: u32,
    pub t2: u32,
    pub acquired_at: u64,
}

/// A lease as plain values.
pub struct LeaseView {
    pub yiaddr: u32,
    pub srv_id: u32,
    pub subnet_mask: u32,
    pub gateways: Seq<u32>,
    pub dns_srvs: Seq<u32>,
    pub host_name: Option<Seq<char>>,
    pub lease_time: u32,
    pub t1: u32,
    pub t2: u32,
    pub acquired_at: u64,
}

pub open spec fn name_view(h: Option<String>) -> Option<Seq<char>> {
    match h {
        Some(s) => Some(s@),
        None => None,
    }
}

impl View for DhcpV4Lease {
    type V = LeaseView;

    open spec fn view(&self) -> LeaseView {
        LeaseView {
            yiaddr: self.yiaddr,
            srv_id: self.srv_id,
            subnet_mask: self.subnet_mask,
            gateways: self.gateways@,
            dns_srvs: self.dns_srvs@,
            host_name: name_view(self.host_name),
            lease_time: self.lease_time,
            t1: self.t1,
            t2: self.t2,
            acquired_at: self.acquired_at,
        }
    }
}

impl LeaseView {
    /// Renewal comes no later than rebinding, which comes no later than
    /// expiry; strictly so once the lease lasts three seconds or more.
    pub open spec fn wf(self) -> bool {
        &&& self.t1 <= self.t2 <= self.lease_time
        &&& self.lease_time >= 3 ==> self.t1 < self.t2 < self.lease_time
    }
}

/// The DHCP message type (option 53) of a message.
pub open spec fn msg_type(m: MessageView) -> Option<u8> {
    match opt_lookup(m.options, OPT_MESSAGE_TYPE) {
        Some(v) => if v.len() == 1 {
            Some(v[0])
        } else {
            None
        },
        None => None,
    }
}

/// The 32-bit value of a four-byte option.
pub open spec fn opt_u32(m: MessageView, code: u8) -> Option<u32> {
    match opt_lookup(m.options, code) {
        Some(v) => if v.len() == 4 {
            Some(be32_at(v, 0))
        } else {
            None
        },
        None => None,
    }
}

/// The addresses of an address-list option; a trailing partial address is ignored.
pub open spec fn addr_list(v: Seq<u8>) -> Seq<u32> {
    Seq::new(v.len() / 4, |i: int| be32_at(v, 4 * i))
}

pub open spec fn opt_addrs(m: MessageView, code: u8) -> Seq<u32> {
    match opt_lookup(m.options, code) {
        Some(v) => addr_list(v),
        None => seq![],
    }
}

/// Renewal time when the server gives none: half the lease.
pub open spec fn default_t1(lease_time: u32) -> u32 {
    (lease_time / 2) as u32
}

/// Rebinding time when the server gives none: seven eighths of the lease.
pub open spec fn default_t2(lease_time: u32) -> u32 {
    (lease_time as nat * 7 / 8) as u32
}

/// A server-given time when it falls inside the lease; the default otherwise.
pub open spec fn given_or(t: Option<u32>, lease_time: u32, default: u32) -> u32 {
    match t {
        Some(x) => if x < lease_time {
            x
        } else {
            default
        },
        None => default,
    }
}

/// Renewal and rebinding times: each one the server gives is kept and each
/// one it omits takes its default; when the two that result are not ordered
/// below the lease time, both defaults are used.
pub open spec fn lease_timers(lease_time: u32, t1: Option<u32>, t2: Option<u32>) -> (u32, u32) {
    let a = given_or(t1, lease_time, default_t1(lease_time));
    let b = given_or(t2, lease_time, default_t2(lease_time));
    if a < b {
        (a, b)
    } else {
        (default_t1(lease_time), default_t2(lease_time))
    }
}

/// An acknowledgement from which a lease can be built: it gives the lease time.
pub open spec fn ack_complete(m: MessageView) -> bool {
    opt_u32(m, OPT_LEASE_TIME).is_some()
}

/// The host name that a message carries: option 12 decoded as UTF-8, when
/// it is present and valid.
pub open spec fn host_name_of(m: MessageView) -> Option<Seq<char>> {
    match opt_lookup(m.options, OPT_HOST_NAME) {
        Some(v) => if valid_utf8(v) {
            Some(decode_utf8(v))
        } else {
            None
        },
        None => None,
    }
}

/// The lease that a complete acknowledgement grants at time `now`. The
/// server is the one the acknowledgement names, or `server` when it names none.
pub open spec fn lease_from_ack(m: MessageView, now: u64, server: u32) -> LeaseView {
    let lt = opt_u32(m, OPT_LEASE_TIME).unwrap();
    let (t1, t2) = lease_timers(lt, opt_u32(m, OPT_RENEWAL_TIME), opt_u32(m, OPT_REBINDING_TIME));
    LeaseView {
        yiaddr: m.yiaddr,
        srv_id: match opt_u32(m, OPT_SERVER_ID) {
            Some(x) => x,
            None => server,
        },
        subnet_mask: match opt_u32(m, OPT_SUBNET_MASK) {
            Some(x) => x,
            None => 0,
        },
        gateways: opt_addrs(m, OPT_ROUTERS),
        dns_srvs: opt_addrs(m, OPT_DNS_SERVERS),
        host_name: host_name_of(m),
        lease_time: lt,
        t1,
        t2,
        acquired_at: now,
    }
}

/// The default timers keep the lease's order.
pub proof fn lemma_default_timers_ordered(lease_time: u32)
    ensures
        default_t1(lease_time) <= default_t2(lease_time) <= lease_time,
        lease_time >= 3 ==> default_t1(lease_time) < default_t2(lease_time) < lease_time,
{
}

/// With no renewal or rebinding time from the server, the lease's timers are
/// half and seven eighths of its duration (1800 and 3150 for one hour).
pub proof fn lemma_default_timer_derivation(m: MessageView, now: u64, server: u32)
    requires
        ack_complete(m),
        opt_u32(m, OPT_RENEWAL_TIME).is_none(),
        opt_u32(m, OPT_REBINDING_TIME).is_none(),
    ensures
        lease_from_ack(m, now, server).t1 == opt_u32(m, OPT_LEASE_TIME).unwrap() / 2,
        lease_from_ack(m, now, server).t2 == opt_u32(m, OPT_LEASE_TIME).unwrap() as nat * 7 / 8,
        opt_u32(m, OPT_LEASE_TIME) == Some(3600u32) ==> lease_from_ack(m, now, server).t1 == 1800
            && lease_from_ack(m, now, server).t2 == 3150,
{
}

/// The first option with tag `code`, when it holds four bytes, as a 32-bit value.
pub fn get_opt_u32(m: &Message, code: u8) -> (r: Option<u32>)
    ensures
        r == opt_u32(m@, code),
{
    match m.option(code) {
        Some(v) => {
            if v.len() == 4 {
                Some(crate::bytes::read_be32(v.as_slice(), 0))
            } else {
                None
            }
        },
        None => None,
    }
}

/// The message type of `m`.
pub fn get_msg_type(m: &Message) -> (r: Option<u8>)
    ensures
        r == msg_type(m@),
{
    match m.option(OPT_MESSAGE_TYPE) {
        Some(v) => {
            if v.len() == 1 {
                Some(v[0])
            } else {
                None
            }
        },
        None => None,
    }
}

/// The addresses of the first option with tag `code`.
pub fn get_opt_addrs(m: &Message, code: u8) -> (r: Vec<u32>)
    ensures
        r@ == opt_addrs(m@, code),
{
    let mut r: Vec<u32> = Vec::new();
    match m.option(code) {
        Some(v) => {
            let n = v.len() / 4;
            let mut i: usize = 0;
            while i < n
                invariant
                    n == v@.len() / 4,
                    4 * n <= v@.len(),
                    v@.len() == v.len(),
                    i <= n,
                    r@ =~= addr_list(v@).take(i as int),
                decreases n - i,
            {
                assert(4 * i + 4 <= 4 * n);
                r.push(crate::bytes::read_be32(v.as_slice(), 4 * i));
                i = i + 1;
            }
            assert(r@ =~= addr_list(v@));
        },
        None => {},
    }
    r
}

/// The renewal and rebinding times for a lease of `lease_time` seconds.
pub fn compute_timers(lease_time: u32, t1: Option<u32>, t2: Option<u32>) -> (r: (u32, u32))
    ensures
        r == lease_timers(lease_time, t1, t2),
{
    let d1 = lease_time / 2;
    let d2 = ((lease_time as u64) * 7 / 8) as u32;
    let a = match t1 {
        Some(x) => if x < lease_time {
            x
        } else {
            d1
        },
        None => d1,
    };
    let b = match t2 {
        Some(x) => if x < lease_time {
            x
        } else {
            d2
        },
        None => d2,
    };
    if a < b {
        (a, b)
    } else {
        (d1, d2)
    }
}

/// Relies on `std::str::from_utf8`: it succeeds exactly on valid UTF-8, and
/// the text then holds the chars that the bytes encode.
#[verifier::external_body]
fn utf8_text(b: &[u8]) -> (r: Option<String>)
    ensures
        r is Some <==> valid_utf8(b@),
        r is Some ==> r.unwrap()@ == decode_utf8(b@),
{
    std::str::from_utf8(b).ok().map(|s| s.to_owned())
}

/// The host name that a message carries, if it is valid UTF-8.
pub fn get_host_name(m: &Message) -> (r: Option<String>)
    ensures
        name_view(r) == host_name_of(m@),
{
    match m.option(OPT_HOST_NAME) {
        Some(v) => utf8_text(v.as_slice()),
        None => None,
    }
}

fn copy_u32s(v: &Vec<u32>) -> (r: Vec<u32>)
    ensures
        r@ == v@,
{
    let mut r: Vec<u32> = Vec::new();
    let mut i: usize = 0;
    while i < v.len()
        invariant
            i <= v@.len(),
            r@ =~= v@.take(i as int),
        decreases v@.len() - i,
    {
        r.push(v[i]);
        i = i + 1;
    }
    assert(r@ =~= v@);
    r
}

pub fn copy_name(h: &Option<String>) -> (r: Option<String>)
    ensures
        name_view(r) == name_view(*h),
{
    match h {
        Some(s) => Some(s.clone()),
        None => None,
    }
}

impl DhcpV4Lease {
    /// A field-by-field copy.
    pub fn copy(&self) -> (r: DhcpV4Lease)
        ensures
            r@ == self@,
    {
        DhcpV4Lease {
            yiaddr: self.yiaddr,
            srv_id: self.srv_id,
            subnet_mask: self.subnet_mask,
            gateways: copy_u32s(&self.gateways),
            dns_srvs: copy_u32s(&self.dns_srvs),
            host_name: copy_name(&self.host_name),
            lease_time: self.lease_time,
            t1: self.t1,
            t2: self.t2,
            acquired_at: self.acquired_at,
        }
    }

    /// The lease that a complete acknowledgement grants at time `now`, from
    /// `server` when the acknowledgement names no server.
    pub fn from_ack(m: &Message, now: u64, server: u32) -> (r: Option<DhcpV4Lease>)
        ensures
            r.is_some() == ack_complete(m@),
            r.is_some() ==> r.unwrap()@ == lease_from_ack(m@, now, server),
            r.is_some() ==> r.unwrap()@.wf(),
    {
        let srv_id = match get_opt_u32(m, OPT_SERVER_ID) {
            Some(x) => x,
            None => server,
        };
        let lease_time = match get_opt_u32(m, OPT_LEASE_TIME) {
            Some(x) => x,
            None => {
                return None;
            },
        };
        let (t1, t2) = compute_timers(
            lease_time,
            get_opt_u32(m, OPT_RENEWAL_TIME),
            get_opt_u32(m, OPT_REBINDING_TIME),
        );
        proof {
            lemma_default_timers_ordered(lease_time);
        }
        let subnet_mask = match get_opt_u32(m, OPT_SUBNET_MASK) {
            Some(x) => x,
            None => 0,
        };
        Some(
            DhcpV4Lease {
                yiaddr: m.yiaddr,
                srv_id,
                subnet_mask,
                gateways: get_opt_addrs(m, OPT_ROUTERS),
                dns_srvs: get_opt_addrs(m, OPT_DNS_SERVERS),
                host_name: get_host_name(m),
                lease_time,
                t1,
                t2,
                acquired_at: now,
            },
        )
    }
}

} // verus!
