use vstd::prelude::*;

use crate::codec::{
    decode, decode_spec, encode, lemma_round_trip, opt_lookup, opts_view, DhcpOption,
    Message, MessageView, OPT_END, OPT_OVERLOAD, OPT_PAD,
};
use crate::config::{host_bytes, host_name_bytes, mac_id, ClientIdStrategy, DhcpV4Config};
use crate::lease::{
    ack_complete, lease_from_ack, msg_type, name_view, opt_u32, get_msg_type,
    get_opt_u32, DhcpV4Lease, LeaseView, DHCP_ACK, DHCP_DISCOVER, DHCP_NAK, DHCP_OFFER,
    DHCP_REQUEST, OPT_CLIENT_ID, OPT_HOST_NAME, OPT_MESSAGE_TYPE, OPT_PARAMETER_LIST,
    OPT_REQUESTED_IP, OPT_SERVER_ID,
};

verus! {

pub const BOOTREQUEST: u8 = 1;

pub const BOOTREPLY: u8 = 2;

/// The limited broadcast address 255.255.255.255.
pub const BROADCAST_ADDR: u32 = 0xffff_ffff;

/// UDP port that clients listen on.
pub const CLIENT_PORT: u16 = 68;

/// UDP port that servers send from.
pub const SERVER_PORT: u16 = 67;

/// Length of an Ethernet hardware address.
pub const MAC_LEN: usize = 6;

/// Errors that reach the caller.
#[derive(Clone, Copy, Debug, PartialEq, Eq)]
pub enum DhcpError {
    /// The configuration or the interface address cannot be used.
    Config,
    /// The configured interface does not exist.
    NoSuchInterface,
    /// The process may not open or use the client's socket.
    PermissionDenied,
    /// The socket could not be opened, written or read for another reason.
    SocketError,
    /// No offer came before the retransmission budget ran out.
    NoOffer,
    /// The server refused the request.
    Nak,
    /// The lease ran out before it could be renewed or rebound.
    LeaseExpired,
}

/// What the engine is told: a datagram arrived, or one of its timers is due.
#[derive(Debug)]
pub enum DhcpV4Event {
    Packet(Vec<u8>),
    Retransmit,
    Renew,
    Rebind,
    Expire,
}

/// The address and server of an offer being requested.
#[derive(Clone, Copy, Debug, PartialEq, Eq)]
pub struct Offer {
    pub yiaddr: u32,
    pub srv_id: u32,
}

#[derive(Debug)]
pub enum ClientState {
    Init,
    Selecting { xid: u32, attempt: u32 },
    Requesting { xid: u32, offer: Offer },
    Bound { lease: DhcpV4Lease },
    Renewing { lease: DhcpV4Lease, xid: u32 },
    Rebinding { lease: DhcpV4Lease, xid: u32 },
}

/// A frame to send, and where: `BROADCAST_ADDR` or the server's address.
#[derive(Debug)]
pub struct Outgoing {
    pub dest: u32,
    pub frame: Vec<u8>,
}

/// The protocol engine of one client.
#[derive(Debug)]
pub struct DhcpV4Engine {
    config: DhcpV4Config,
    mac: Vec<u8>,
    client_id: Vec<u8>,
    host_bytes: Vec<u8>,
    state: ClientState,
    last_xid: u32,
    interval: u64,
    retransmit_at: Option<u64>,
    renew_at: Option<u64>,
    rebind_at: Option<u64>,
    expire_at: Option<u64>,
    pending: Vec<Outgoing>,
}

/// An engine as plain values.
pub struct EngineView {
    pub state: ClientState,
    pub mac: Seq<u8>,
    pub client_id: Seq<u8>,
    pub host_bytes: Seq<u8>,
    pub host_name: Option<Seq<char>>,
    pub last_xid: u32,
    pub interval: u64,
    pub initial: u64,
    pub ceiling: u64,
    pub retransmit_at: Option<u64>,
    pub renew_at: Option<u64>,
    pub rebind_at: Option<u64>,
    pub expire_at: Option<u64>,
    pub pending: Seq<Outgoing>,
}

impl View for DhcpV4Engine {
    type V = EngineView;

    closed spec fn view(&self) -> EngineView {
        EngineView {
            state: self.state,
            mac: self.mac@,
            client_id: self.client_id@,
            host_bytes: self.host_bytes@,
            host_name: name_view(self.config.host_name),
            last_xid: self.last_xid,
            interval: self.interval,
            initial: self.config.timeout_initial,
            ceiling: self.config.timeout_ceiling,
            retransmit_at: self.retransmit_at,
            renew_at: self.renew_at,
            rebind_at: self.rebind_at,
            expire_at: self.expire_at,
            pending: self.pending@,
        }
    }
}

/// The bytes of a datagram event.
pub open spec fn packet_bytes(e: DhcpV4Event) -> Seq<u8> {
    match e {
        DhcpV4Event::Packet(b) => b@,
        _ => seq![],
    }
}

/// 1 when a timer is armed and due at `now`.
pub open spec fn due(t: Option<u64>, now: u64) -> int {
    match t {
        Some(x) => if x <= now {
            1
        } else {
            0
        },
        None => 0,
    }
}

/// The timer events due at `now`, in the order expiry, rebinding, renewal,
/// retransmission; each one present exactly when its timer is armed and due.
pub open spec fn timer_events(v: EngineView, now: u64) -> Seq<DhcpV4Event> {
    (if due(v.expire_at, now) == 1 { seq![DhcpV4Event::Expire] } else { seq![] }) + (if due(
        v.rebind_at,
        now,
    ) == 1 {
        seq![DhcpV4Event::Rebind]
    } else {
        seq![]
    }) + (if due(v.renew_at, now) == 1 { seq![DhcpV4Event::Renew] } else { seq![] }) + (if due(
        v.retransmit_at,
        now,
    ) == 1 {
        seq![DhcpV4Event::Retransmit]
    } else {
        seq![]
    })
}

/// The transaction id in flight, if any.
pub open spec fn xid_of(st: ClientState) -> Option<u32> {
    match st {
        ClientState::Selecting { xid, .. } => Some(xid),
        ClientState::Requesting { xid, .. } => Some(xid),
        ClientState::Renewing { xid, .. } => Some(xid),
        ClientState::Rebinding { xid, .. } => Some(xid),
        _ => None,
    }
}

/// The lease held, if any.
pub open spec fn lease_of(st: ClientState) -> Option<LeaseView> {
    match st {
        ClientState::Bound { lease } => Some(lease@),
        ClientState::Renewing { lease, .. } => Some(lease@),
        ClientState::Rebinding { lease, .. } => Some(lease@),
        _ => None,
    }
}

/// The server that a request in flight went to: the offer's or the lease's.
pub open spec fn known_server(st: ClientState) -> u32 {
    match st {
        ClientState::Requesting { offer, .. } => offer.srv_id,
        ClientState::Renewing { lease, .. } => lease.srv_id,
        ClientState::Rebinding { lease, .. } => lease.srv_id,
        _ => 0,
    }
}

/// A retransmission from `o` to `n` at `now`: the state and its transaction
/// are kept (a selecting client counts one more attempt), the same request
/// goes out again to the same place, and the next retransmission is armed
/// one new interval ahead.
pub open spec fn resent(o: EngineView, n: EngineView, now: u64) -> bool {
    let f = n.pending.last();
    &&& n.pending.len() == o.pending.len() + 1
    &&& n.retransmit_at == Some(later_spec(now, n.interval))
    &&& identifies(f.frame@, o)
    &&& match o.state {
        ClientState::Selecting { xid, .. } => n.state is Selecting && xid_of(n.state) == Some(xid)
            && frame_is(f.frame@, xid, DHCP_DISCOVER) && f.dest == BROADCAST_ADDR,
        ClientState::Requesting { xid, offer } => n.state == o.state && frame_is(
            f.frame@,
            xid,
            DHCP_REQUEST,
        ) && f.dest == BROADCAST_ADDR && names_offer(f.frame@, offer),
        ClientState::Renewing { lease, xid } => n.state == o.state && frame_is(
            f.frame@,
            xid,
            DHCP_REQUEST,
        ) && f.dest == lease.srv_id,
        ClientState::Rebinding { xid, .. } => n.state == o.state && frame_is(
            f.frame@,
            xid,
            DHCP_REQUEST,
        ) && f.dest == BROADCAST_ADDR,
        _ => true,
    }
}

/// States in which the server's answer to a request is awaited.
pub open spec fn awaits_answer(st: ClientState) -> bool {
    st is Requesting || st is Renewing || st is Rebinding
}

/// The next retransmission interval: doubled, but never above the ceiling.
pub open spec fn next_interval(i: u64, ceiling: u64) -> u64 {
    if i >= ceiling - i {
        ceiling
    } else {
        (2 * i) as u64
    }
}

/// How many more retransmissions follow an interval of `i` before the
/// budget runs out.
pub open spec fn tries_left(i: u64, ceiling: u64) -> nat
    decreases ceiling - i,
{
    if i == 0 || i >= ceiling {
        0
    } else {
        1 + tries_left(next_interval(i, ceiling), ceiling)
    }
}

/// The transaction id chosen for a new exchange from a caller's random
/// `candidate`: the candidate, unless it repeats the previous id.
pub open spec fn fresh_xid(previous: u32, candidate: u32) -> u32 {
    if candidate != previous {
        candidate
    } else if candidate == u32::MAX {
        0
    } else {
        (candidate + 1) as u32
    }
}

/// The transaction id for a renewal or rebinding after `previous`.
pub open spec fn following_xid(previous: u32) -> u32 {
    if previous == u32::MAX {
        0
    } else {
        (previous + 1) as u32
    }
}

/// A frame that the engine sent: it decodes to a client message with this
/// transaction id and message type.
pub open spec fn frame_is(f: Seq<u8>, xid: u32, kind: u8) -> bool {
    match decode_spec(f) {
        Ok(m) => m.op == BOOTREQUEST && m.xid == xid && msg_type(m) == Some(kind),
        Err(_) => false,
    }
}

/// The message in a datagram, when it decodes and answers the transaction
/// in flight: a reply, with the in-flight id and this client's address.
pub open spec fn answer_in(v: EngineView, b: Seq<u8>) -> Option<MessageView> {
    match decode_spec(b) {
        Ok(m) => if m.op == BOOTREPLY && xid_of(v.state) == Some(m.xid) && m.chaddr.len() >= 6
            && m.chaddr.take(6) == v.mac {
            Some(m)
        } else {
            None
        },
        Err(_) => None,
    }
}

/// The value a client sends for an identity option: the bytes, when there are any.
pub open spec fn opt_if_nonempty(b: Seq<u8>) -> Option<Seq<u8>> {
    if b.len() > 0 {
        Some(b)
    } else {
        None
    }
}

/// A frame that names this client: its hardware address, and its client
/// identifier and host name when it has them.
pub open spec fn identifies(f: Seq<u8>, v: EngineView) -> bool {
    match decode_spec(f) {
        Ok(m) => m.chaddr.take(6) == v.mac && opt_lookup(m.options, OPT_CLIENT_ID) == opt_if_nonempty(
            v.client_id,
        ) && opt_lookup(m.options, OPT_HOST_NAME) == opt_if_nonempty(v.host_bytes),
        Err(_) => false,
    }
}

/// A frame whose requested address and server identifier are the offer's.
pub open spec fn names_offer(f: Seq<u8>, o: Offer) -> bool {
    match decode_spec(f) {
        Ok(m) => opt_lookup(m.options, OPT_REQUESTED_IP) == Some(crate::bytes::be32(o.yiaddr))
            && opt_lookup(m.options, OPT_SERVER_ID) == Some(crate::bytes::be32(o.srv_id)),
        Err(_) => false,
    }
}

proof fn lemma_lookup_push(o: Seq<(u8, Seq<u8>)>, x: (u8, Seq<u8>), code: u8)
    ensures
        opt_lookup(o.push(x), code) == if opt_lookup(o, code) is Some {
            opt_lookup(o, code)
        } else if x.0 == code {
            Some(x.1)
        } else {
            None::<Seq<u8>>
        },
    decreases o.len(),
{
    let p = o.push(x);
    assert(p[0] == if o.len() == 0 { x } else { o[0] });
    if o.len() == 0 {
        assert(p.drop_first() =~= seq![]);
        assert(opt_lookup(p.drop_first(), code) is None);
    } else {
        assert(p.drop_first() =~= o.drop_first().push(x));
        lemma_lookup_push(o.drop_first(), x, code);
    }
}

pub open spec fn opts_ok(o: Seq<(u8, Seq<u8>)>) -> bool {
    forall|i: int|
        0 <= i < o.len() ==> (#[trigger] o[i]).0 != OPT_PAD && o[i].0 != OPT_END && o[i].0
            != OPT_OVERLOAD && o[i].1.len() <= 255
}

impl EngineView {
    pub open spec fn wf(self) -> bool {
        &&& self.mac.len() == MAC_LEN
        &&& self.client_id.len() <= 255
        &&& self.host_bytes.len() <= 255
        &&& 0 < self.initial <= self.ceiling
        &&& self.interval <= self.ceiling
        &&& xid_of(self.state) is Some ==> xid_of(self.state) == Some(self.last_xid)
        &&& lease_of(self.state) is Some ==> lease_of(self.state).unwrap().wf()
    }
}

/// Retransmission intervals stay within the ceiling and never shrink, and
/// each retransmission uses up one try, so the number of attempts before
/// `NoOffer` is fixed by the first interval and the ceiling alone.
pub proof fn lemma_backoff(i: u64, ceiling: u64)
    requires
        0 < i <= ceiling,
    ensures
        i <= next_interval(i, ceiling) <= ceiling,
        i < ceiling ==> tries_left(next_interval(i, ceiling), ceiling) + 1 == tries_left(i, ceiling),
        i == ceiling ==> tries_left(i, ceiling) == 0,
{
}

/// After a refusal the engine is back in `Init` with the refused
/// transaction's id as its last one, and the id that the next discovery
/// uses differs from it, whatever the caller's random candidate.
pub proof fn lemma_nak_recovery(v: EngineView, candidate: u32)
    requires
        v.wf(),
        xid_of(v.state) is Some,
    ensures
        fresh_xid(v.last_xid, candidate) != xid_of(v.state).unwrap(),
{
}

fn zeros(n: usize) -> (r: Vec<u8>)
    ensures
        r@ == Seq::new(n as nat, |i: int| 0u8),
{
    let mut r: Vec<u8> = Vec::new();
    let mut i: usize = 0;
    while i < n
        invariant
            i <= n,
            r@ == Seq::new(i as nat, |j: int| 0u8),
        decreases n - i,
    {
        r.push(0u8);
        i = i + 1;
        assert(r@ =~= Seq::new(i as nat, |j: int| 0u8));
    }
    r
}

fn be32_vec(x: u32) -> (r: Vec<u8>)
    ensures
        r@ == crate::bytes::be32(x),
{
    let mut r: Vec<u8> = Vec::new();
    crate::bytes::push_be32(&mut r, x);
    r
}

fn push_opt(opts: &mut Vec<DhcpOption>, code: u8, data: Vec<u8>)
    requires
        code != OPT_PAD && code != OPT_END && code != OPT_OVERLOAD,
        data@.len() <= 255,
        opts_ok(opts_view(old(opts)@)),
    ensures
        opts_view(final(opts)@) == opts_view(old(opts)@).push((code, data@)),
        opts_ok(opts_view(final(opts)@)),
        forall|c: u8|
            #![trigger opt_lookup(opts_view(final(opts)@), c)]
            opt_lookup(opts_view(final(opts)@), c) == if opt_lookup(opts_view(old(opts)@), c) is Some {
                opt_lookup(opts_view(old(opts)@), c)
            } else if code == c {
                Some(data@)
            } else {
                None::<Seq<u8>>
            },
{
    let ghost before = opts_view(opts@);
    let ghost d = data@;
    opts.push(DhcpOption { code, data });
    assert(opts_view(opts@) =~= before.push((code, d)));
    assert forall|c: u8| #![trigger opt_lookup(opts_view(opts@), c)]
        opt_lookup(opts_view(opts@), c) == if opt_lookup(before, c) is Some {
            opt_lookup(before, c)
        } else if code == c {
            Some(d)
        } else {
            None::<Seq<u8>>
        } by {
        lemma_lookup_push(before, (code, d), c);
    }
}

fn later(now: u64, d: u64) -> (r: u64)
    ensures
        r == if now as int + d as int > u64::MAX { u64::MAX as int } else { now as int + d as int },
{
    now.saturating_add(d)
}

impl DhcpV4Engine {
    /// An engine in `Init` for `config`, on an interface whose hardware
    /// address is `mac`. Fails with `Config` unless `mac` has six bytes, the
    /// first interval is positive and not above the ceiling, and the client
    /// identifier and host name fit in an option.
    pub fn new(config: DhcpV4Config, mac: &[u8]) -> (r: Result<DhcpV4Engine, DhcpError>)
        ensures
            r is Err <==> (mac@.len() != MAC_LEN || config.timeout_initial == 0
                || config.timeout_initial > config.timeout_ceiling || host_bytes(config.host_name).len()
                > 255 || (if config.client_id_strategy is UseMac {
                mac@.len() + 1int
            } else {
                config.client_id@.len() as int
            }) > 255int),
            r is Err ==> r == Err::<DhcpV4Engine, DhcpError>(DhcpError::Config),
            r is Ok ==> r.unwrap()@.wf(),
            r is Ok ==> r.unwrap()@.state is Init,
            r is Ok ==> r.unwrap()@.mac == mac@,
            r is Ok ==> r.unwrap()@.pending.len() == 0,
            r is Ok ==> r.unwrap()@.last_xid == 0 && r.unwrap()@.interval == config.timeout_initial,
            r is Ok ==> r.unwrap()@.retransmit_at is None && r.unwrap()@.renew_at is None
                && r.unwrap()@.rebind_at is None && r.unwrap()@.expire_at is None,
            r is Ok ==> r.unwrap()@.host_name == name_view(config.host_name),
            r is Ok ==> r.unwrap()@.initial == config.timeout_initial,
            r is Ok ==> r.unwrap()@.ceiling == config.timeout_ceiling,
            r is Ok && config.client_id_strategy is UseMac ==> r.unwrap()@.client_id == seq![1u8]
                + mac@,
            r is Ok && !(config.client_id_strategy is UseMac) ==> r.unwrap()@.client_id
                == config.client_id@,
    {
        if mac.len() != MAC_LEN || config.timeout_initial == 0 || config.timeout_initial
            > config.timeout_ceiling {
            return Err(DhcpError::Config);
        }
        let host_bytes = host_name_bytes(&config.host_name);
        if host_bytes.len() > 255 {
            return Err(DhcpError::Config);
        }
        let client_id = if let ClientIdStrategy::UseMac = config.client_id_strategy {
            mac_id(mac)
        } else {
            crate::bytes::copy_all(config.client_id.as_slice())
        };
        if client_id.len() > 255 {
            return Err(DhcpError::Config);
        }
        let interval = config.timeout_initial;
        Ok(
            DhcpV4Engine {
                config,
                mac: crate::bytes::copy_all(mac),
                client_id,
                host_bytes,
                state: ClientState::Init,
                last_xid: 0,
                interval,
                retransmit_at: None,
                renew_at: None,
                rebind_at: None,
                expire_at: None,
                pending: Vec::new(),
            },
        )
    }

    /// The state of the exchange.
    pub fn state(&self) -> (r: &ClientState)
        ensures
            *r == self@.state,
    {
        &self.state
    }

    /// The configuration the engine was built from.
    pub fn config(&self) -> (r: &DhcpV4Config) {
        &self.config
    }

    /// The client identifier that is sent, if any.
    pub fn client_id(&self) -> (r: &Vec<u8>)
        ensures
            r@ == self@.client_id,
    {
        &self.client_id
    }

    /// Hands out the frames waiting to be sent, oldest first.
    pub fn take_outgoing(&mut self) -> (r: Vec<Outgoing>)
        ensures
            r@ == old(self)@.pending,
            final(self)@.pending.len() == 0,
            final(self)@.state == old(self)@.state,
            final(self)@.wf() == old(self)@.wf(),
    {
        let mut out: Vec<Outgoing> = Vec::new();
        std::mem::swap(&mut out, &mut self.pending);
        out
    }

    /// The earliest armed timer.
    pub fn next_deadline(&self) -> (r: Option<u64>)
        ensures
            r is None <==> (self@.retransmit_at is None && self@.renew_at is None
                && self@.rebind_at is None && self@.expire_at is None),
            r is Some ==> (self@.retransmit_at is Some ==> r.unwrap() <= self@.retransmit_at.unwrap())
                && (self@.renew_at is Some ==> r.unwrap() <= self@.renew_at.unwrap()) && (
            self@.rebind_at is Some ==> r.unwrap() <= self@.rebind_at.unwrap()) && (
            self@.expire_at is Some ==> r.unwrap() <= self@.expire_at.unwrap()),
            r is Some ==> (r == self@.retransmit_at || r == self@.renew_at || r == self@.rebind_at
                || r == self@.expire_at),
    {
        let mut r: Option<u64> = None;
        let timers = [self.retransmit_at, self.renew_at, self.rebind_at, self.expire_at];
        let mut i: usize = 0;
        while i < 4
            invariant
                i <= 4,
                timers@ == seq![self@.retransmit_at, self@.renew_at, self@.rebind_at, self@.expire_at],
                r is None <==> forall|j: int| 0 <= j < i ==> (#[trigger] timers@[j]) is None,
                r is Some ==> forall|j: int|
                    0 <= j < i && (#[trigger] timers@[j]) is Some ==> r.unwrap() <= timers@[j].unwrap(),
                r is Some ==> exists|j: int| 0 <= j < i && (#[trigger] timers@[j]) == r,
            decreases 4 - i,
        {
            let t = timers[i];
            match (r, t) {
                (None, Some(x)) => {
                    r = Some(x);
                },
                (Some(a), Some(x)) => {
                    if x < a {
                        r = Some(x);
                    }
                },
                _ => {},
            }
            assert(timers@[i as int] == t);
            i = i + 1;
        }
        assert(timers@[0] == self@.retransmit_at);
        assert(timers@[1] == self@.renew_at);
        assert(timers@[2] == self@.rebind_at);
        assert(timers@[3] == self@.expire_at);
        r
    }

    /// The events for one wake-up: the datagrams that arrived, in order,
    /// then each timer that is due at `now`, expiry first.
    pub fn events_for(&self, packets: &Vec<Vec<u8>>, now: u64) -> (r: Vec<DhcpV4Event>)
        ensures
            r@.len() >= packets@.len(),
            forall|i: int|
                0 <= i < packets@.len() ==> (#[trigger] r@[i]) is Packet && packet_bytes(r@[i])
                    == packets@[i]@,
            forall|i: int| packets@.len() <= i < r@.len() ==> !((#[trigger] r@[i]) is Packet),
            r@.subrange(packets@.len() as int, r@.len() as int) == timer_events(self@, now),
    {
        let mut r: Vec<DhcpV4Event> = Vec::new();
        let mut i: usize = 0;
        while i < packets.len()
            invariant
                i <= packets@.len(),
                r@.len() == i,
                forall|k: int|
                    0 <= k < i ==> (#[trigger] r@[k]) is Packet && packet_bytes(r@[k]) == packets@[k]@,
            decreases packets@.len() - i,
        {
            r.push(DhcpV4Event::Packet(crate::bytes::copy_all(packets[i].as_slice())));
            i = i + 1;
        }
        let ghost n = r@.len() as int;
        let ghost base = r@;
        if let Some(t) = self.expire_at {
            if t <= now {
                r.push(DhcpV4Event::Expire);
            }
        }
        if let Some(t) = self.rebind_at {
            if t <= now {
                r.push(DhcpV4Event::Rebind);
            }
        }
        if let Some(t) = self.renew_at {
            if t <= now {
                r.push(DhcpV4Event::Renew);
            }
        }
        if let Some(t) = self.retransmit_at {
            if t <= now {
                r.push(DhcpV4Event::Retransmit);
            }
        }
        assert(r@ =~= base + timer_events(self@, now));
        assert(r@.subrange(n, r@.len() as int) =~= timer_events(self@, now));
        r
    }
}


/// The spec value of `later`.
pub open spec fn later_spec(now: u64, d: u64) -> u64 {
    if now as int + d as int > u64::MAX {
        u64::MAX
    } else {
        (now + d) as u64
    }
}

impl DhcpV4Engine {
    /// A client message with this id and type, asking for `requested` when given.
    fn build_message(&self, xid: u32, kind: u8, ciaddr: u32, requested: Option<Offer>) -> (m:
        Message)
        requires
            self@.wf(),
        ensures
            m@.round_trips(),
            m.op == BOOTREQUEST,
            m.xid == xid,
            msg_type(m@) == Some(kind),
            m@.chaddr.take(6) == self@.mac,
            opt_lookup(m@.options, OPT_CLIENT_ID) == opt_if_nonempty(self@.client_id),
            opt_lookup(m@.options, OPT_HOST_NAME) == opt_if_nonempty(self@.host_bytes),
            requested is Some ==> opt_lookup(m@.options, OPT_REQUESTED_IP) == Some(
                crate::bytes::be32(requested.unwrap().yiaddr),
            ) && opt_lookup(m@.options, OPT_SERVER_ID) == Some(
                crate::bytes::be32(requested.unwrap().srv_id),
            ),
            requested is None ==> opt_lookup(m@.options, OPT_REQUESTED_IP) is None,
    {
        let mut chaddr = crate::bytes::copy_all(self.mac.as_slice());
        let pad = zeros(10);
        crate::bytes::push_all(&mut chaddr, pad.as_slice());
        assert(chaddr@.take(6) =~= self@.mac);
        let mut opts: Vec<DhcpOption> = Vec::new();
        assert(opts_view(opts@) =~= seq![]);
        push_opt(&mut opts, OPT_MESSAGE_TYPE, vec![kind]);
        assert(opts_view(opts@)[0] == (OPT_MESSAGE_TYPE, seq![kind]));
        if let Some(o) = requested {
            push_opt(&mut opts, OPT_REQUESTED_IP, be32_vec(o.yiaddr));
            push_opt(&mut opts, OPT_SERVER_ID, be32_vec(o.srv_id));
        }
        if self.client_id.len() > 0 {
            push_opt(&mut opts, OPT_CLIENT_ID, crate::bytes::copy_all(self.client_id.as_slice()));
        }
        if self.host_bytes.len() > 0 {
            push_opt(&mut opts, OPT_HOST_NAME, crate::bytes::copy_all(self.host_bytes.as_slice()));
        }
        push_opt(&mut opts, OPT_PARAMETER_LIST, vec![1u8, 3u8, 6u8, 12u8, 15u8, 51u8, 54u8, 58u8, 59u8]);
        let ghost ov = opts_view(opts@);
        assert(ov[0] == (OPT_MESSAGE_TYPE, seq![kind]));
        assert(opt_lookup(ov, OPT_MESSAGE_TYPE) == Some(seq![kind]));
        let m = Message {
            op: BOOTREQUEST,
            htype: 1,
            hlen: 6,
            hops: 0,
            xid,
            secs: 0,
            flags: 0x8000,
            ciaddr,
            yiaddr: 0,
            siaddr: 0,
            giaddr: 0,
            chaddr,
            sname: zeros(64),
            file: zeros(128),
            options: opts,
        };
        assert forall|i: int| 0 <= i < m@.options.len() implies crate::codec::encodable_opt(
            #[trigger] m@.options[i],
        ) by {}
        m
    }

    /// Queues the encoding of `m` for `dest`.
    fn send(&mut self, m: &Message, dest: u32)
        requires
            m@.round_trips(),
        ensures
            final(self).pending@ == old(self).pending@.push(final(self).pending@.last()),
            final(self).pending@.last().dest == dest,
            decode_spec(final(self).pending@.last().frame@) == Ok::<MessageView, crate::codec::CodecError>(m@),
            final(self).state == old(self).state,
            final(self).mac == old(self).mac,
            final(self).client_id == old(self).client_id,
            final(self).host_bytes == old(self).host_bytes,
            final(self).config == old(self).config,
            final(self).last_xid == old(self).last_xid,
            final(self).interval == old(self).interval,
            final(self).retransmit_at == old(self).retransmit_at,
            final(self).renew_at == old(self).renew_at,
            final(self).rebind_at == old(self).rebind_at,
            final(self).expire_at == old(self).expire_at,
    {
        let frame = encode(m);
        proof {
            lemma_round_trip(m@);
        }
        self.pending.push(Outgoing { dest, frame });
    }

    /// Starts a new exchange with a discovery. `candidate` is a random
    /// transaction id; it is used unless it repeats the previous one.
    pub fn start(&mut self, candidate: u32, now: u64)
        requires
            old(self)@.wf(),
        ensures
            final(self)@.wf(),
            final(self)@.state == (ClientState::Selecting {
                xid: fresh_xid(old(self)@.last_xid, candidate),
                attempt: 0,
            }),
            final(self)@.last_xid == fresh_xid(old(self)@.last_xid, candidate),
            final(self)@.last_xid != old(self)@.last_xid,
            final(self)@.interval == old(self)@.initial,
            final(self)@.retransmit_at == Some(later_spec(now, old(self)@.initial)),
            final(self)@.renew_at is None && final(self)@.rebind_at is None && final(self)@.expire_at is None,
            final(self)@.pending.len() == old(self)@.pending.len() + 1,
            final(self)@.pending.last().dest == BROADCAST_ADDR,
            frame_is(final(self)@.pending.last().frame@, final(self)@.last_xid, DHCP_DISCOVER),
            identifies(final(self)@.pending.last().frame@, old(self)@),
            final(self)@.mac == old(self)@.mac && final(self)@.initial == old(self)@.initial
                && final(self)@.ceiling == old(self)@.ceiling,
    {
        let xid = if candidate != self.last_xid {
            candidate
        } else if candidate == u32::MAX {
            0
        } else {
            candidate + 1
        };
        let m = self.build_message(xid, DHCP_DISCOVER, 0, None);
        self.send(&m, BROADCAST_ADDR);
        self.state = ClientState::Selecting { xid, attempt: 0 };
        self.last_xid = xid;
        self.interval = self.config.timeout_initial;
        self.retransmit_at = Some(later(now, self.config.timeout_initial));
        self.renew_at = None;
        self.rebind_at = None;
        self.expire_at = None;
    }

    /// Starts a new exchange by asking the server of an earlier lease to
    /// confirm it.
    pub fn start_with_lease(&mut self, candidate: u32, now: u64, previous: &DhcpV4Lease)
        requires
            old(self)@.wf(),
        ensures
            final(self)@.wf(),
            final(self)@.state == (ClientState::Requesting {
                xid: fresh_xid(old(self)@.last_xid, candidate),
                offer: Offer { yiaddr: previous.yiaddr, srv_id: previous.srv_id },
            }),
            final(self)@.last_xid == fresh_xid(old(self)@.last_xid, candidate),
            final(self)@.interval == old(self)@.initial,
            final(self)@.retransmit_at == Some(later_spec(now, old(self)@.initial)),
            final(self)@.pending.len() == old(self)@.pending.len() + 1,
            final(self)@.pending.last().dest == BROADCAST_ADDR,
            frame_is(final(self)@.pending.last().frame@, final(self)@.last_xid, DHCP_REQUEST),
            identifies(final(self)@.pending.last().frame@, old(self)@),
            names_offer(
                final(self)@.pending.last().frame@,
                Offer { yiaddr: previous.yiaddr, srv_id: previous.srv_id },
            ),
    {
        let xid = if candidate != self.last_xid {
            candidate
        } else if candidate == u32::MAX {
            0
        } else {
            candidate + 1
        };
        let offer = Offer { yiaddr: previous.yiaddr, srv_id: previous.srv_id };
        let m = self.build_message(xid, DHCP_REQUEST, 0, Some(offer));
        self.send(&m, BROADCAST_ADDR);
        self.state = ClientState::Requesting { xid, offer };
        self.last_xid = xid;
        self.interval = self.config.timeout_initial;
        self.retransmit_at = Some(later(now, self.config.timeout_initial));
        self.renew_at = None;
        self.rebind_at = None;
        self.expire_at = None;
    }

    fn reset(&mut self)
        ensures
            final(self).state is Init,
            final(self).retransmit_at is None && final(self).renew_at is None
                && final(self).rebind_at is None && final(self).expire_at is None,
            final(self).pending == old(self).pending,
            final(self).mac == old(self).mac,
            final(self).client_id == old(self).client_id,
            final(self).host_bytes == old(self).host_bytes,
            final(self).config == old(self).config,
            final(self).last_xid == old(self).last_xid,
            final(self).interval == old(self).interval,
    {
        self.state = ClientState::Init;
        self.retransmit_at = None;
        self.renew_at = None;
        self.rebind_at = None;
        self.expire_at = None;
    }
}


fn starts_with(a: &Vec<u8>, b: &Vec<u8>) -> (r: bool)
    requires
        a@.len() >= b@.len(),
    ensures
        r == (a@.take(b@.len() as int) == b@),
{
    let mut i: usize = 0;
    while i < b.len()
        invariant
            i <= b@.len() <= a@.len(),
            a@.take(i as int) == b@.take(i as int),
        decreases b@.len() - i,
    {
        if a[i] != b[i] {
            assert(a@.take(b@.len() as int)[i as int] != b@[i as int]);
            return false;
        }
        assert(a@.take(i + 1) =~= a@.take(i as int).push(a@[i as int]));
        assert(b@.take(i + 1) =~= b@.take(i as int).push(b@[i as int]));
        i = i + 1;
    }
    assert(b@.take(b@.len() as int) =~= b@);
    true
}

/// The lease timers armed when a lease is taken at `now`.
pub open spec fn bound_timers(v: EngineView, l: LeaseView, now: u64) -> bool {
    &&& v.retransmit_at is None
    &&& v.renew_at == Some(later_spec(now, l.t1 as u64))
    &&& v.rebind_at == Some(later_spec(now, l.t2 as u64))
    &&& v.expire_at == Some(later_spec(now, l.lease_time as u64))
}

impl DhcpV4Engine {
    /// Handles a datagram. Anything that does not decode or does not answer
    /// the transaction in flight is dropped with nothing changed.
    pub fn on_packet(&mut self, b: &[u8], now: u64) -> (r: Result<Option<DhcpV4Lease>, DhcpError>)
        requires
            old(self)@.wf(),
        ensures
            final(self)@.wf(),
            final(self)@.mac == old(self)@.mac,
            final(self)@.initial == old(self)@.initial,
            final(self)@.ceiling == old(self)@.ceiling,
            final(self)@.last_xid == old(self)@.last_xid,
            answer_in(old(self)@, b@) is None ==> final(self)@ == old(self)@ && r
                == Ok::<Option<DhcpV4Lease>, DhcpError>(None),
            answer_in(old(self)@, b@) is Some && msg_type(answer_in(old(self)@, b@).unwrap()) == Some(
                DHCP_NAK,
            ) && awaits_answer(old(self)@.state) ==> final(self)@.state is Init && r
                == Err::<Option<DhcpV4Lease>, DhcpError>(DhcpError::Nak),
            answer_in(old(self)@, b@) is Some && msg_type(answer_in(old(self)@, b@).unwrap()) == Some(
                DHCP_ACK,
            ) && ack_complete(answer_in(old(self)@, b@).unwrap()) && awaits_answer(old(self)@.state)
                ==> r is Ok && r.unwrap() is Some && r.unwrap().unwrap()@ == lease_from_ack(
                answer_in(old(self)@, b@).unwrap(),
                now,
                known_server(old(self)@.state),
            ) && final(self)@.state is Bound && bound_timers(final(self)@, r.unwrap().unwrap()@, now),
            answer_in(old(self)@, b@) is Some && msg_type(answer_in(old(self)@, b@).unwrap()) == Some(
                DHCP_OFFER,
            ) && old(self)@.state is Selecting && opt_u32(
                answer_in(old(self)@, b@).unwrap(),
                crate::lease::OPT_SERVER_ID,
            ) is Some ==> r == Ok::<Option<DhcpV4Lease>, DhcpError>(None) && final(self)@.state == (
            ClientState::Requesting {
                xid: old(self)@.last_xid,
                offer: Offer {
                    yiaddr: answer_in(old(self)@, b@).unwrap().yiaddr,
                    srv_id: opt_u32(answer_in(old(self)@, b@).unwrap(), crate::lease::OPT_SERVER_ID).unwrap(),
                },
            }) && final(self)@.interval == old(self)@.initial && final(self)@.retransmit_at == Some(
                later_spec(now, old(self)@.initial),
            ) && frame_is(
                final(self)@.pending.last().frame@,
                old(self)@.last_xid,
                DHCP_REQUEST,
            ) && identifies(final(self)@.pending.last().frame@, old(self)@) && names_offer(
                final(self)@.pending.last().frame@,
                Offer {
                    yiaddr: answer_in(old(self)@, b@).unwrap().yiaddr,
                    srv_id: opt_u32(answer_in(old(self)@, b@).unwrap(), crate::lease::OPT_SERVER_ID).unwrap(),
                },
            ),
            r is Err ==> final(self)@.state is Init,
            r is Ok && r.unwrap() is Some ==> final(self)@.state is Bound && lease_of(final(self)@.state)
                == Some(r.unwrap().unwrap()@),
            r is Ok && r.unwrap() is None ==> final(self)@.state is Init == old(self)@.state is Init,
    {
        let m = match decode(b) {
            Ok(m) => m,
            Err(_) => {
                return Ok(None);
            },
        };
        let xid = match &self.state {
            ClientState::Selecting { xid, .. } => *xid,
            ClientState::Requesting { xid, .. } => *xid,
            ClientState::Renewing { xid, .. } => *xid,
            ClientState::Rebinding { xid, .. } => *xid,
            _ => {
                return Ok(None);
            },
        };
        if m.op != BOOTREPLY || m.xid != xid || m.chaddr.len() < MAC_LEN {
            return Ok(None);
        }
        if !starts_with(&m.chaddr, &self.mac) {
            return Ok(None);
        }
        assert(answer_in(self@, b@) == Some(m@));
        let kind = match get_msg_type(&m) {
            Some(k) => k,
            None => {
                return Ok(None);
            },
        };
        let selecting = if let ClientState::Selecting { .. } = self.state {
            true
        } else {
            false
        };
        if kind == DHCP_OFFER {
            if !selecting {
                return Ok(None);
            }
            let srv_id = match get_opt_u32(&m, OPT_SERVER_ID) {
                Some(x) => x,
                None => {
                    return Ok(None);
                },
            };
            let offer = Offer { yiaddr: m.yiaddr, srv_id };
            let req = self.build_message(xid, DHCP_REQUEST, 0, Some(offer));
            self.send(&req, BROADCAST_ADDR);
            self.state = ClientState::Requesting { xid, offer };
            self.interval = self.config.timeout_initial;
            self.retransmit_at = Some(later(now, self.config.timeout_initial));
            Ok(None)
        } else if kind == DHCP_ACK {
            if selecting {
                return Ok(None);
            }
            let server = match &self.state {
                ClientState::Requesting { offer, .. } => offer.srv_id,
                ClientState::Renewing { lease, .. } => lease.srv_id,
                ClientState::Rebinding { lease, .. } => lease.srv_id,
                _ => 0,
            };
            match DhcpV4Lease::from_ack(&m, now, server) {
                Some(lease) => {
                    let out = lease.copy();
                    self.retransmit_at = None;
                    self.renew_at = Some(later(now, lease.t1 as u64));
                    self.rebind_at = Some(later(now, lease.t2 as u64));
                    self.expire_at = Some(later(now, lease.lease_time as u64));
                    self.state = ClientState::Bound { lease };
                    Ok(Some(out))
                },
                None => Ok(None),
            }
        } else if kind == DHCP_NAK {
            if selecting {
                return Ok(None);
            }
            self.reset();
            Err(DhcpError::Nak)
        } else {
            Ok(None)
        }
    }
}


fn next_interval_exec(i: u64, ceiling: u64) -> (r: u64)
    requires
        i <= ceiling,
    ensures
        r == next_interval(i, ceiling),
{
    if i >= ceiling - i {
        ceiling
    } else {
        2 * i
    }
}

impl DhcpV4Engine {
    /// Handles a due retransmission: resends the request in flight with a
    /// longer interval, or gives up with `NoOffer` once an attempt at the
    /// ceiling went unanswered while selecting or requesting.
    pub fn on_retransmit(&mut self, now: u64) -> (r: Result<Option<DhcpV4Lease>, DhcpError>)
        requires
            old(self)@.wf(),
        ensures
            final(self)@.wf(),
            final(self)@.mac == old(self)@.mac,
            final(self)@.initial == old(self)@.initial,
            final(self)@.ceiling == old(self)@.ceiling,
            final(self)@.last_xid == old(self)@.last_xid,
            r is Ok ==> r.unwrap() is None,
            r is Err ==> r == Err::<Option<DhcpV4Lease>, DhcpError>(DhcpError::NoOffer)
                && final(self)@.state is Init,
            (old(self)@.state is Selecting || old(self)@.state is Requesting) ==> (r is Err <==> old(self)@.interval >= old(self)@.ceiling),
            old(self)@.interval < old(self)@.ceiling && xid_of(old(self)@.state) is Some ==> r is Ok
                && xid_of(final(self)@.state) == xid_of(old(self)@.state) && final(self)@.interval
                == next_interval(old(self)@.interval, old(self)@.ceiling) && lease_of(final(self)@.state)
                == lease_of(old(self)@.state),
            old(self)@.state is Selecting && old(self)@.interval < old(self)@.ceiling ==> final(self)@.state is Selecting && frame_is(
                final(self)@.pending.last().frame@,
                old(self)@.last_xid,
                DHCP_DISCOVER,
            ),
            r is Ok && xid_of(old(self)@.state) is Some ==> resent(old(self)@, final(self)@, now),
            r is Ok && xid_of(old(self)@.state) is Some ==> final(self)@.interval == if old(self)@.interval
                < old(self)@.ceiling {
                next_interval(old(self)@.interval, old(self)@.ceiling)
            } else {
                old(self)@.interval
            },
            !(old(self)@.state is Selecting || old(self)@.state is Requesting) ==> r is Ok,
            old(self)@.state is Init || old(self)@.state is Bound ==> final(self)@.state
                == old(self)@.state,
    {
        let ceiling = self.config.timeout_ceiling;
        if self.interval >= ceiling {
            match &self.state {
                ClientState::Selecting { .. } | ClientState::Requesting { .. } => {
                    self.reset();
                    return Err(DhcpError::NoOffer);
                },
                _ => {},
            }
        }
        let next = if self.interval < ceiling {
            next_interval_exec(self.interval, ceiling)
        } else {
            self.interval
        };
        let mut st = ClientState::Init;
        std::mem::swap(&mut st, &mut self.state);
        match st {
            ClientState::Selecting { xid, attempt } => {
                let m = self.build_message(xid, DHCP_DISCOVER, 0, None);
                self.send(&m, BROADCAST_ADDR);
                let attempt = if attempt < u32::MAX {
                    attempt + 1
                } else {
                    attempt
                };
                self.state = ClientState::Selecting { xid, attempt };
            },
            ClientState::Requesting { xid, offer } => {
                let m = self.build_message(xid, DHCP_REQUEST, 0, Some(offer));
                self.send(&m, BROADCAST_ADDR);
                self.state = ClientState::Requesting { xid, offer };
            },
            ClientState::Renewing { lease, xid } => {
                let m = self.build_message(xid, DHCP_REQUEST, lease.yiaddr, None);
                self.send(&m, lease.srv_id);
                self.state = ClientState::Renewing { lease, xid };
            },
            ClientState::Rebinding { lease, xid } => {
                let m = self.build_message(xid, DHCP_REQUEST, lease.yiaddr, None);
                self.send(&m, BROADCAST_ADDR);
                self.state = ClientState::Rebinding { lease, xid };
            },
            other => {
                self.state = other;
                self.retransmit_at = None;
                return Ok(None);
            },
        }
        self.interval = next;
        self.retransmit_at = Some(later(now, next));
        Ok(None)
    }

    /// Handles the renewal time: a bound client asks its server, by unicast,
    /// to extend the lease.
    pub fn on_renew(&mut self, now: u64) -> (r: Result<Option<DhcpV4Lease>, DhcpError>)
        requires
            old(self)@.wf(),
        ensures
            final(self)@.wf(),
            final(self)@.mac == old(self)@.mac,
            final(self)@.initial == old(self)@.initial,
            final(self)@.ceiling == old(self)@.ceiling,
            r == Ok::<Option<DhcpV4Lease>, DhcpError>(None),
            old(self)@.state is Bound ==> final(self)@.retransmit_at == Some(later_spec(now, old(self)@.initial))
                && final(self)@.interval == old(self)@.initial,
            old(self)@.state is Bound ==> final(self)@.state is Renewing && lease_of(final(self)@.state)
                == lease_of(old(self)@.state) && xid_of(final(self)@.state) == Some(
                following_xid(old(self)@.last_xid),
            ) && final(self)@.pending.last().dest == lease_of(old(self)@.state).unwrap().srv_id
                && frame_is(
                final(self)@.pending.last().frame@,
                following_xid(old(self)@.last_xid),
                DHCP_REQUEST,
            ) && identifies(final(self)@.pending.last().frame@, old(self)@),
            !(old(self)@.state is Bound) ==> final(self)@.state == old(self)@.state,
    {
        self.renew_at = None;
        let mut st = ClientState::Init;
        std::mem::swap(&mut st, &mut self.state);
        match st {
            ClientState::Bound { lease } => {
                let xid = if self.last_xid == u32::MAX {
                    0
                } else {
                    self.last_xid + 1
                };
                let m = self.build_message(xid, DHCP_REQUEST, lease.yiaddr, None);
                self.send(&m, lease.srv_id);
                self.state = ClientState::Renewing { lease, xid };
                self.last_xid = xid;
                self.interval = self.config.timeout_initial;
                self.retransmit_at = Some(later(now, self.config.timeout_initial));
            },
            other => {
                self.state = other;
            },
        }
        Ok(None)
    }

    /// Handles the rebinding time: a bound or renewing client asks any
    /// server, by broadcast, to extend the lease.
    pub fn on_rebind(&mut self, now: u64) -> (r: Result<Option<DhcpV4Lease>, DhcpError>)
        requires
            old(self)@.wf(),
        ensures
            final(self)@.wf(),
            final(self)@.mac == old(self)@.mac,
            final(self)@.initial == old(self)@.initial,
            final(self)@.ceiling == old(self)@.ceiling,
            r == Ok::<Option<DhcpV4Lease>, DhcpError>(None),
            old(self)@.state is Bound || old(self)@.state is Renewing ==> final(self)@.retransmit_at == Some(
                later_spec(now, old(self)@.initial),
            ) && final(self)@.interval == old(self)@.initial,
            old(self)@.state is Bound || old(self)@.state is Renewing ==> final(self)@.state is Rebinding
                && lease_of(final(self)@.state) == lease_of(old(self)@.state) && xid_of(
                final(self)@.state,
            ) == Some(following_xid(old(self)@.last_xid)) && final(self)@.pending.last().dest
                == BROADCAST_ADDR && frame_is(
                final(self)@.pending.last().frame@,
                following_xid(old(self)@.last_xid),
                DHCP_REQUEST,
            ) && identifies(final(self)@.pending.last().frame@, old(self)@),
            !(old(self)@.state is Bound || old(self)@.state is Renewing) ==> final(self)@.state
                == old(self)@.state,
    {
        self.rebind_at = None;
        let mut st = ClientState::Init;
        std::mem::swap(&mut st, &mut self.state);
        let lease = match st {
            ClientState::Bound { lease } => lease,
            ClientState::Renewing { lease, .. } => lease,
            other => {
                self.state = other;
                return Ok(None);
            },
        };
        let xid = if self.last_xid == u32::MAX {
            0
        } else {
            self.last_xid + 1
        };
        let m = self.build_message(xid, DHCP_REQUEST, lease.yiaddr, None);
        self.send(&m, BROADCAST_ADDR);
        self.state = ClientState::Rebinding { lease, xid };
        self.last_xid = xid;
        self.renew_at = None;
        self.interval = self.config.timeout_initial;
        self.retransmit_at = Some(later(now, self.config.timeout_initial));
        Ok(None)
    }

    /// Handles the end of the lease: a client holding one drops it.
    pub fn on_expire(&mut self) -> (r: Result<Option<DhcpV4Lease>, DhcpError>)
        requires
            old(self)@.wf(),
        ensures
            final(self)@.wf(),
            final(self)@.mac == old(self)@.mac,
            final(self)@.initial == old(self)@.initial,
            final(self)@.ceiling == old(self)@.ceiling,
            final(self)@.last_xid == old(self)@.last_xid,
            lease_of(old(self)@.state) is Some ==> final(self)@.state is Init && r
                == Err::<Option<DhcpV4Lease>, DhcpError>(DhcpError::LeaseExpired),
            lease_of(old(self)@.state) is None ==> final(self)@.state == old(self)@.state && r
                == Ok::<Option<DhcpV4Lease>, DhcpError>(None),
    {
        match &self.state {
            ClientState::Bound { .. } | ClientState::Renewing { .. } | ClientState::Rebinding {
                ..
            } => {
                self.reset();
                Err(DhcpError::LeaseExpired)
            },
            _ => {
                self.expire_at = None;
                Ok(None)
            },
        }
    }
}


impl DhcpV4Engine {
    /// Feeds one event to the engine: at most one transition. Gives the
    /// lease when the transition lands in `Bound`, `None` for any other
    /// progress, and the error when the exchange failed and the engine went
    /// back to `Init`. Frames to send are queued for `take_outgoing`.
    pub fn process(&mut self, event: DhcpV4Event, now: u64) -> (r: Result<
        Option<DhcpV4Lease>,
        DhcpError,
    >)
        requires
            old(self)@.wf(),
        ensures
            final(self)@.wf(),
            final(self)@.interval <= final(self)@.ceiling,
            final(self)@.mac == old(self)@.mac,
            final(self)@.initial == old(self)@.initial,
            final(self)@.ceiling == old(self)@.ceiling,
            r is Err ==> final(self)@.state is Init,
            r is Ok && r.unwrap() is Some ==> final(self)@.state is Bound && lease_of(final(self)@.state)
                == Some(r.unwrap().unwrap()@),
            event is Packet && answer_in(old(self)@, packet_bytes(event)) is None ==> final(self)@ == old(
            self)@ && r == Ok::<Option<DhcpV4Lease>, DhcpError>(None),
            event is Packet && answer_in(old(self)@, packet_bytes(event)) is Some && msg_type(
                answer_in(old(self)@, packet_bytes(event)).unwrap(),
            ) == Some(DHCP_NAK) && awaits_answer(old(self)@.state) ==> final(self)@.state is Init
                && final(self)@.last_xid == old(self)@.last_xid && r == Err::<
                Option<DhcpV4Lease>,
                DhcpError,
            >(DhcpError::Nak),
            event is Packet && answer_in(old(self)@, packet_bytes(event)) is Some && msg_type(
                answer_in(old(self)@, packet_bytes(event)).unwrap(),
            ) == Some(DHCP_ACK) && ack_complete(answer_in(old(self)@, packet_bytes(event)).unwrap())
                && awaits_answer(old(self)@.state) ==> r is Ok && r.unwrap() is Some
                && r.unwrap().unwrap()@ == lease_from_ack(
                answer_in(old(self)@, packet_bytes(event)).unwrap(),
                now,
                known_server(old(self)@.state),
            ) && bound_timers(final(self)@, r.unwrap().unwrap()@, now),
            event is Packet && answer_in(old(self)@, packet_bytes(event)) is Some && msg_type(
                answer_in(old(self)@, packet_bytes(event)).unwrap(),
            ) == Some(DHCP_OFFER) && old(self)@.state is Selecting && opt_u32(
                answer_in(old(self)@, packet_bytes(event)).unwrap(),
                OPT_SERVER_ID,
            ) is Some ==> r == Ok::<Option<DhcpV4Lease>, DhcpError>(None) && final(self)@.state
                is Requesting && xid_of(final(self)@.state) == xid_of(old(self)@.state)
                && final(self)@.retransmit_at == Some(later_spec(now, old(self)@.initial)) && frame_is(
                final(self)@.pending.last().frame@,
                old(self)@.last_xid,
                DHCP_REQUEST,
            ) && identifies(final(self)@.pending.last().frame@, old(self)@) && names_offer(
                final(self)@.pending.last().frame@,
                Offer {
                    yiaddr: answer_in(old(self)@, packet_bytes(event)).unwrap().yiaddr,
                    srv_id: opt_u32(
                        answer_in(old(self)@, packet_bytes(event)).unwrap(),
                        OPT_SERVER_ID,
                    ).unwrap(),
                },
            ),
            event is Retransmit && (old(self)@.state is Selecting || old(self)@.state is Requesting)
                ==> (r is Err <==> old(self)@.interval >= old(self)@.ceiling),
            event is Retransmit && r is Err ==> r == Err::<Option<DhcpV4Lease>, DhcpError>(
                DhcpError::NoOffer,
            ),
            event is Retransmit && r is Ok && xid_of(old(self)@.state) is Some ==> resent(
                old(self)@,
                final(self)@,
                now,
            ),
            event is Retransmit && old(self)@.state is Selecting && old(self)@.interval < old(self)@.ceiling
                ==> final(self)@.state is Selecting && frame_is(
                final(self)@.pending.last().frame@,
                old(self)@.last_xid,
                DHCP_DISCOVER,
            ),
            event is Renew && old(self)@.state is Bound ==> final(self)@.retransmit_at == Some(
                later_spec(now, old(self)@.initial),
            ) && final(self)@.interval == old(self)@.initial && final(self)@.pending.last().dest
                == lease_of(old(self)@.state).unwrap().srv_id && frame_is(
                final(self)@.pending.last().frame@,
                following_xid(old(self)@.last_xid),
                DHCP_REQUEST,
            ),
            event is Rebind && (old(self)@.state is Bound || old(self)@.state is Renewing)
                ==> final(self)@.retransmit_at == Some(later_spec(now, old(self)@.initial))
                && final(self)@.interval == old(self)@.initial && final(self)@.pending.last().dest
                == BROADCAST_ADDR && frame_is(
                final(self)@.pending.last().frame@,
                following_xid(old(self)@.last_xid),
                DHCP_REQUEST,
            ),
            event is Retransmit && old(self)@.interval < old(self)@.ceiling && xid_of(old(self)@.state)
                is Some ==> r is Ok && xid_of(final(self)@.state) == xid_of(old(self)@.state)
                && final(self)@.interval == next_interval(old(self)@.interval, old(self)@.ceiling),
            event is Renew && old(self)@.state is Bound ==> final(self)@.state is Renewing && lease_of(
                final(self)@.state,
            ) == lease_of(old(self)@.state) && r == Ok::<Option<DhcpV4Lease>, DhcpError>(None),
            event is Rebind && (old(self)@.state is Bound || old(self)@.state is Renewing)
                ==> final(self)@.state is Rebinding && lease_of(final(self)@.state) == lease_of(
                old(self)@.state,
            ) && r == Ok::<Option<DhcpV4Lease>, DhcpError>(None),
            event is Expire && lease_of(old(self)@.state) is Some ==> final(self)@.state is Init && r
                == Err::<Option<DhcpV4Lease>, DhcpError>(DhcpError::LeaseExpired),
    {
        match event {
            DhcpV4Event::Packet(b) => self.on_packet(b.as_slice(), now),
            DhcpV4Event::Retransmit => self.on_retransmit(now),
            DhcpV4Event::Renew => self.on_renew(now),
            DhcpV4Event::Rebind => self.on_rebind(now),
            DhcpV4Event::Expire => self.on_expire(),
        }
    }
}

/// Seconds from `now` until the timer `t`, 0 once it is due; unbounded when
/// it is not armed.
pub open spec fn until(t: Option<u64>, now: u64) -> int {
    match t {
        Some(x) => if x >= now {
            x - now
        } else {
            0
        },
        None => u64::MAX as int,
    }
}

impl DhcpV4Engine {
    /// How long to wait for data before the next timer falls due, at most
    /// `max_wait` seconds.
    pub fn wait_time(&self, max_wait: u64, now: u64) -> (r: u64)
        ensures
            r <= max_wait,
            r <= until(self@.retransmit_at, now),
            r <= until(self@.renew_at, now),
            r <= until(self@.rebind_at, now),
            r <= until(self@.expire_at, now),
            r == max_wait || r == until(self@.retransmit_at, now) || r == until(self@.renew_at, now)
                || r == until(self@.rebind_at, now) || r == until(self@.expire_at, now),
    {
        match self.next_deadline() {
            Some(d) => {
                let left = if d >= now {
                    d - now
                } else {
                    0
                };
                if left < max_wait {
                    left
                } else {
                    max_wait
                }
            },
            None => max_wait,
        }
    }
}

/// Whether a datagram that reached the client port is taken in: only one
/// sent from the server port is.
pub fn admits_source_port(port: u16) -> (r: bool)
    ensures
        r == (port == SERVER_PORT),
{
    port == SERVER_PORT
}

} // verus!
