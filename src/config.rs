use vstd::prelude::*;

verus! {

/// First retransmission interval, in seconds.
pub const DEFAULT_TIMEOUT_INITIAL: u64 = 4;

/// Largest retransmission interval, in seconds.
pub const DEFAULT_TIMEOUT_CEILING: u64 = 64;

/// How the client identifier (option 61) is chosen.
#[derive(Debug)]
pub enum ClientIdStrategy {
    /// No client identifier is sent.
    Unset,
    /// Type 1 (Ethernet) followed by the interface's MAC address.
    UseMac,
    /// Type 0 followed by the host name.
    UseHostName,
    /// These bytes, as they are.
    Custom(Vec<u8>),
}

/// What a client is built from; not changed once a client holds it.
#[derive(Debug)]
pub struct DhcpV4Config {
    pub iface_name: String,
    pub host_name: Option<String>,
    pub client_id_strategy: ClientIdStrategy,
    /// The identifier that the strategy gives; for `UseMac` it is filled in
    /// when the client learns the interface's address.
    pub client_id: Vec<u8>,
    pub timeout_initial: u64,
    pub timeout_ceiling: u64,
}

/// The identifier made from a host name.
pub open spec fn host_name_client_id(name: Seq<u8>) -> Seq<u8> {
    seq![0u8] + name
}

/// The identifier made from a MAC address.
pub open spec fn mac_client_id(mac: Seq<u8>) -> Seq<u8> {
    seq![1u8] + mac
}

/// The bytes of an optional host name; empty when there is none.
pub open spec fn host_bytes(h: Option<String>) -> Seq<u8> {
    match h {
        Some(s) => vstd::utf8::encode_utf8(s@),
        None => seq![],
    }
}

/// The bytes of an optional host name.
pub fn host_name_bytes(h: &Option<String>) -> (r: Vec<u8>)
    ensures
        r@ == host_bytes(*h),
{
    match h {
        Some(s) => crate::bytes::copy_all(s.as_str().as_bytes()),
        None => Vec::new(),
    }
}

fn prefixed(tag: u8, rest: &[u8]) -> (r: Vec<u8>)
    ensures
        r@ == seq![tag] + rest@,
{
    let mut r: Vec<u8> = Vec::new();
    r.push(tag);
    crate::bytes::push_all(&mut r, rest);
    r
}

/// The identifier made from a MAC address.
pub fn mac_id(mac: &[u8]) -> (r: Vec<u8>)
    ensures
        r@ == mac_client_id(mac@),
{
    prefixed(1u8, mac)
}

impl DhcpV4Config {
    /// A configuration for interface `iface_name` with no host name, no
    /// client identifier and the default retransmission intervals.
    pub fn new(iface_name: &str) -> (r: DhcpV4Config)
        ensures
            r.iface_name@ == iface_name@,
            r.host_name.is_none(),
            r.client_id_strategy is Unset,
            r.client_id@.len() == 0,
            r.timeout_initial == DEFAULT_TIMEOUT_INITIAL,
            r.timeout_ceiling == DEFAULT_TIMEOUT_CEILING,
    {
        DhcpV4Config {
            iface_name: iface_name.to_owned(),
            host_name: None,
            client_id_strategy: ClientIdStrategy::Unset,
            client_id: Vec::new(),
            timeout_initial: DEFAULT_TIMEOUT_INITIAL,
            timeout_ceiling: DEFAULT_TIMEOUT_CEILING,
        }
    }

    /// Sets the host name; an identifier made from the host name follows it.
    pub fn set_host_name(&mut self, host_name: &str)
        ensures
            final(self).host_name is Some,
            final(self).host_name.unwrap()@ == host_name@,
            final(self).iface_name == old(self).iface_name,
            final(self).timeout_initial == old(self).timeout_initial,
            final(self).timeout_ceiling == old(self).timeout_ceiling,
            old(self).client_id_strategy is UseHostName ==> final(self).client_id@
                == host_name_client_id(host_bytes(final(self).host_name)),
            !(old(self).client_id_strategy is UseHostName) ==> final(self).client_id@ == old(
                self,
            ).client_id@,
    {
        self.host_name = Some(host_name.to_owned());
        if let ClientIdStrategy::UseHostName = self.client_id_strategy {
            let b = host_name_bytes(&self.host_name);
            self.client_id = prefixed(0u8, b.as_slice());
        }
    }

    /// Sends type 0 followed by the host name as the client identifier.
    pub fn use_host_name_as_client_id(&mut self)
        ensures
            final(self).client_id_strategy is UseHostName,
            final(self).client_id@ == host_name_client_id(host_bytes(old(self).host_name)),
            final(self).host_name == old(self).host_name,
            final(self).iface_name == old(self).iface_name,
            final(self).timeout_initial == old(self).timeout_initial,
            final(self).timeout_ceiling == old(self).timeout_ceiling,
    {
        self.client_id_strategy = ClientIdStrategy::UseHostName;
        let b = host_name_bytes(&self.host_name);
        self.client_id = prefixed(0u8, b.as_slice());
    }

    /// Sends type 1 followed by the interface's MAC address as the client
    /// identifier; the address is known once the client is built.
    pub fn use_mac_as_client_id(&mut self)
        ensures
            final(self).client_id_strategy is UseMac,
            final(self).client_id@.len() == 0,
            final(self).host_name == old(self).host_name,
            final(self).iface_name == old(self).iface_name,
            final(self).timeout_initial == old(self).timeout_initial,
            final(self).timeout_ceiling == old(self).timeout_ceiling,
    {
        self.client_id_strategy = ClientIdStrategy::UseMac;
        self.client_id = Vec::new();
    }

    /// Sends `client_id` as it is.
    pub fn set_custom_client_id(&mut self, client_id: &[u8])
        ensures
            final(self).client_id_strategy is Custom,
            final(self).client_id@ == client_id@,
            final(self).host_name == old(self).host_name,
            final(self).iface_name == old(self).iface_name,
            final(self).timeout_initial == old(self).timeout_initial,
            final(self).timeout_ceiling == old(self).timeout_ceiling,
    {
        self.client_id_strategy = ClientIdStrategy::Custom(crate::bytes::copy_all(client_id));
        self.client_id = crate::bytes::copy_all(client_id);
    }

    /// Sets the first and the largest retransmission interval, in seconds.
    pub fn set_timeout(&mut self, initial: u64, ceiling: u64)
        ensures
            final(self).timeout_initial == initial,
            final(self).timeout_ceiling == ceiling,
            final(self).host_name == old(self).host_name,
            final(self).iface_name == old(self).iface_name,
            final(self).client_id@ == old(self).client_id@,
    {
        self.timeout_initial = initial;
        self.timeout_ceiling = ceiling;
    }
}

} // verus!
