//! IP addresses and networks as plain values, and their text forms, which
//! the standard library and the `ipnet` crate read and write.

use vstd::prelude::*;

use crate::text::dec_text;

verus! {

/// An IP address: four octets, or the 128 bits of an IPv6 address.
#[derive(Clone, Copy, Debug, PartialEq, Eq, Structural)]
pub enum IpAddress {
    V4(u8, u8, u8, u8),
    V6(u128),
}

/// An IP network: an address and the length of its prefix in bits.
#[derive(Clone, Copy, Debug, PartialEq, Eq, Structural)]
pub struct IpNetwork {
    pub addr: IpAddress,
    pub prefix_len: u8,
}

impl IpNetwork {
    /// The prefix fits the address: at most 32 bits for IPv4, 128 for IPv6.
    pub open spec fn wf(&self) -> bool {
        match self.addr {
            IpAddress::V4(..) => self.prefix_len <= 32,
            IpAddress::V6(..) => self.prefix_len <= 128,
        }
    }
}

/// The address that the standard library reads from `text`, if any.
pub uninterp spec fn ip_addr_parse(text: Seq<char>) -> Option<IpAddress>;

/// The network that the `ipnet` crate reads from `text`, if any.
pub uninterp spec fn ip_net_parse(text: Seq<char>) -> Option<IpNetwork>;

/// The text that the standard library writes for an address.
pub uninterp spec fn ip_addr_text(addr: IpAddress) -> Seq<char>;

/// The dotted-decimal text of an IPv4 address: four decimal octets
/// separated by dots.
pub open spec fn ipv4_text(a: u8, b: u8, c: u8, d: u8) -> Seq<char> {
    dec_text(a as nat) + seq!['.'] + dec_text(b as nat) + seq!['.'] + dec_text(c as nat) + seq!['.']
        + dec_text(d as nat)
}

/// The text of an address: dotted decimal for IPv4, the standard library's
/// text for IPv6.
pub open spec fn addr_text(addr: IpAddress) -> Seq<char> {
    match addr {
        IpAddress::V4(a, b, c, d) => ipv4_text(a, b, c, d),
        IpAddress::V6(..) => ip_addr_text(addr),
    }
}

/// The text of a network: its address, a slash and the prefix length.
pub open spec fn ip_net_text(net: IpNetwork) -> Seq<char> {
    addr_text(net.addr) + seq!['/'] + dec_text(net.prefix_len as nat)
}

/// Reads an IP address with `<core::net::IpAddr as FromStr>::from_str`.
/// The contract names the result (`ip_addr_parse`) and says nothing more of
/// the standard library's address syntax.
#[verifier::external_body]
pub(crate) fn parse_ip_addr(s: &str) -> (r: Option<IpAddress>)
    ensures
        r == ip_addr_parse(s@),
{
    match s.parse::<core::net::IpAddr>() {
        Ok(core::net::IpAddr::V4(a)) => {
            let o = a.octets();
            Some(IpAddress::V4(o[0], o[1], o[2], o[3]))
        },
        Ok(core::net::IpAddr::V6(a)) => Some(IpAddress::V6(u128::from(a))),
        Err(_) => None,
    }
}

/// Reads an IP network with `<ipnet::IpNet as FromStr>::from_str`.
/// The contract names the result (`ip_net_parse`) and states what the
/// crate's parser guarantees of every network it returns: the prefix length
/// fits the address (it reads at most 32 for IPv4 and 128 for IPv6).
#[verifier::external_body]
pub(crate) fn parse_ip_net(s: &str) -> (r: Option<IpNetwork>)
    ensures
        r == ip_net_parse(s@),
        r matches Some(n) ==> n.wf(),
{
    match s.parse::<ipnet::IpNet>() {
        Ok(ipnet::IpNet::V4(n)) => {
            let o = n.addr().octets();
            Some(IpNetwork { addr: IpAddress::V4(o[0], o[1], o[2], o[3]), prefix_len: n.prefix_len() })
        },
        Ok(ipnet::IpNet::V6(n)) => {
            Some(IpNetwork { addr: IpAddress::V6(u128::from(n.addr())), prefix_len: n.prefix_len() })
        },
        Err(_) => None,
    }
}

/// Writes an address with the standard library's `Display` of
/// `Ipv4Addr`/`Ipv6Addr`. The contract names the result (`ip_addr_text`),
/// and states the form that the standard library documents for IPv4:
/// dotted decimal. Of the IPv6 form it says nothing more.
#[verifier::external_body]
pub(crate) fn ip_addr_to_string(a: &IpAddress) -> (s: String)
    ensures
        s@ == ip_addr_text(*a),
        s@ == addr_text(*a),
{
    match a {
        IpAddress::V4(x, y, z, w) => core::net::Ipv4Addr::new(*x, *y, *z, *w).to_string(),
        IpAddress::V6(bits) => core::net::Ipv6Addr::from(*bits).to_string(),
    }
}

/// Writes a network with the `Display` of `ipnet::IpNet`, which writes the
/// address as the standard library does (dotted decimal for IPv4), then
/// `/` and the prefix length in
/// decimal. `ipnet::IpNet::new_assert` panics on a prefix that does not fit
/// the address, which `requires` leaves out.
#[verifier::external_body]
pub(crate) fn ip_net_to_string(n: &IpNetwork) -> (s: String)
    requires
        n.wf(),
    ensures
        s@ == ip_net_text(*n),
{
    let addr = match n.addr {
        IpAddress::V4(x, y, z, w) => core::net::IpAddr::V4(core::net::Ipv4Addr::new(x, y, z, w)),
        IpAddress::V6(bits) => core::net::IpAddr::V6(core::net::Ipv6Addr::from(bits)),
    };
    ipnet::IpNet::new_assert(addr, n.prefix_len).to_string()
}

}
