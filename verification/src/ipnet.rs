//! IP networks as the library models them: an address byte sequence
//! together with its prefix length, for either family. The two always
//! travel together; an address without a prefix is meaningless.
//!
//! Parsing of network text is done by the `ipnetwork` crate behind trusted
//! wrappers; everything downstream works on the plain model.

use vstd::prelude::*;

use core::str::FromStr;

verus! {

/// The mathematical value of an [`IpNet`]: its address bytes and prefix.
pub struct IpNetModel {
    pub addr: Seq<u8>,
    pub prefix: u8,
}

impl IpNetModel {
    /// Well-formed: an IPv4 network has four address bytes and a prefix of
    /// at most 32 bits, an IPv6 network sixteen bytes and at most 128 bits.
    pub open spec fn wf(self) -> bool {
        (self.addr.len() == 4 && self.prefix <= 32) || (self.addr.len() == 16 && self.prefix
            <= 128)
    }

    /// Whether this is an IPv6 network.
    pub open spec fn is_v6(self) -> bool {
        self.addr.len() == 16
    }
}

/// An IP network: raw address bytes (four for IPv4, sixteen for IPv6) and
/// the prefix length of the network.
#[derive(Debug, Clone, PartialEq, Eq)]
pub struct IpNet {
    pub addr: Vec<u8>,
    pub prefix: u8,
}

impl IpNet {
    /// The mathematical value of this network.
    pub open spec fn model(self) -> IpNetModel {
        IpNetModel { addr: self.addr@, prefix: self.prefix }
    }

    /// Well-formed: see [`IpNetModel::wf`].
    pub open spec fn wf(self) -> bool {
        self.model().wf()
    }
}

/// The network that a piece of text denotes, of either family, if any.
pub uninterp spec fn ip_net_of(s: Seq<char>) -> Option<IpNetModel>;

/// The IPv6 network that a piece of text denotes, if any.
pub uninterp spec fn ipv6_net_of(s: Seq<char>) -> Option<IpNetModel>;

/// Relies on ipnetwork::IpNetwork::from_str: parses "address/prefix" text
/// of either family, validating that the prefix fits the family, and
/// depends on the text alone.
#[verifier::external_body]
pub fn parse_ip_network(s: &str) -> (r: Option<IpNet>)
    ensures
        r matches Some(n) ==> n.wf() && ip_net_of(s@) == Some(n.model()),
        r is None ==> ip_net_of(s@) is None,
{
    match ipnetwork::IpNetwork::from_str(s) {
        Ok(ipnetwork::IpNetwork::V4(n)) => {
            Some(IpNet { addr: n.ip().octets().to_vec(), prefix: n.prefix() })
        },
        Ok(ipnetwork::IpNetwork::V6(n)) => {
            Some(IpNet { addr: n.ip().octets().to_vec(), prefix: n.prefix() })
        },
        Err(_) => None,
    }
}

/// Relies on ipnetwork::Ipv6Network::from_str: parses IPv6 "address/prefix"
/// text, validating that the prefix is at most 128, and depends on the text
/// alone.
#[verifier::external_body]
pub fn parse_ipv6_network(s: &str) -> (r: Option<IpNet>)
    ensures
        r matches Some(n) ==> n.wf() && n.model().is_v6() && ipv6_net_of(s@) == Some(n.model()),
        r is None ==> ipv6_net_of(s@) is None,
{
    match ipnetwork::Ipv6Network::from_str(s) {
        Ok(n) => Some(IpNet { addr: n.ip().octets().to_vec(), prefix: n.prefix() }),
        Err(_) => None,
    }
}

} // verus!
