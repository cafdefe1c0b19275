use vstd::prelude::*;

pub mod bytes;
pub mod codec;
pub mod config;
pub mod engine;
pub mod lease;
pub mod server_lease;
pub mod text;

pub use codec::{decode, encode, CodecError, DhcpOption, Message};
pub use config::{ClientIdStrategy, DhcpV4Config};
pub use engine::{ClientState, DhcpError, DhcpV4Engine, DhcpV4Event, Offer, Outgoing};
pub use lease::DhcpV4Lease;
pub use server_lease::{get_test_veth_cli_mac, parse_mac, DhcpServerLease, ParseLeaseErr};

verus! {

/// Builds an IPv4 address, as a host-order integer, from its four octets.
pub fn ipv4(a: u8, b: u8, c: u8, d: u8) -> (r: u32)
    ensures
        r as int == a as int * 16777216 + b as int * 65536 + c as int * 256 + d as int,
{
    (a as u32) * 16777216 + (b as u32) * 65536 + (c as u32) * 256 + (d as u32)
}

} // verus!
