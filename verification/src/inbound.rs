//! Construction of the TUN inbound: CIDR address parsing (through `ipnet`),
//! validation of the advertised address, and the derived device broadcast
//! address the handler filters against. Device creation itself is operating
//! system work and stays with the runtime.

use crate::net::{broadcast_of, spec_broadcast_of, EndpointRepr, IpAddrRepr};
use vstd::prelude::*;

verus! {

/// Why construction is refused.
#[derive(Clone, Copy, PartialEq, Eq, Structural, Debug)]
pub enum ConfigError {
    /// The advertised address is not a well-formed CIDR of a unicast host
    /// address.
    InvalidAddress,
}

/// What ipnet's CIDR parser yields for a given text: the address and prefix
/// length of a well-formed CIDR such as "10.0.0.1/24", or nothing. The
/// result depends on the text alone.
pub uninterp spec fn spec_parse_cidr(s: Seq<char>) -> Option<(IpAddrRepr, u8)>;

/// Relies on ipnet::IpNet::from_str and the Ipv4Net/Ipv6Net accessors
/// `addr`/`prefix_len`: parses CIDR text such as "10.0.0.1/24"; its parser
/// admits only prefix lengths within the address family's width.
#[verifier::external_body]
fn parse_cidr(s: &str) -> (r: Option<(IpAddrRepr, u8)>)
    ensures
        r == spec_parse_cidr(s@),
        r matches Some(t) ==> {
            &&& t.0 is V4 ==> t.1 <= 32
            &&& t.0 is V6 ==> t.1 <= 128
        },
{
    match s.parse::<ipnet::IpNet>() {
        Ok(ipnet::IpNet::V4(n)) => Some((IpAddrRepr::V4(u32::from(n.addr())), n.prefix_len())),
        Ok(ipnet::IpNet::V6(n)) => Some((IpAddrRepr::V6(u128::from(n.addr())), n.prefix_len())),
        Err(_) => None,
    }
}

/// A usable advertised address: the prefix fits the address family and the
/// host address is unicast.
pub open spec fn spec_valid_tun_address(addr: IpAddrRepr, prefix: u8) -> bool {
    &&& addr is V4 ==> prefix <= 32
    &&& addr is V6 ==> prefix <= 128
    &&& !addr.spec_is_broadcast()
    &&& !addr.spec_is_multicast()
    &&& !addr.spec_is_unspecified()
}

/// Validates an already-parsed advertised address and derives the device
/// broadcast address of its network.
pub fn validate_address(addr: &IpAddrRepr, prefix: u8) -> (r: Option<IpAddrRepr>)
    ensures
        r == if spec_valid_tun_address(*addr, prefix) {
            Some(spec_broadcast_of(*addr, prefix))
        } else {
            None::<IpAddrRepr>
        },
{
    let family_ok = match *addr {
        IpAddrRepr::V4(_) => prefix <= 32,
        IpAddrRepr::V6(_) => prefix <= 128,
    };
    if !family_ok {
        return None;
    }
    if addr.is_broadcast() || addr.is_multicast() || addr.is_unspecified() {
        return None;
    }
    Some(broadcast_of(addr, prefix))
}

/// The validated configuration of one TUN inbound: the advertised address
/// and prefix, the derived device broadcast address, the point-to-point
/// destination, and the optional DNS interception endpoint.
#[derive(Clone, Copy, PartialEq, Eq, Structural, Debug)]
pub struct TunInbound {
    pub address: IpAddrRepr,
    pub prefix_len: u8,
    pub broadcast: IpAddrRepr,
    pub destination: IpAddrRepr,
    pub intercept_dns: Option<EndpointRepr>,
}

impl TunInbound {
    /// A well-formed inbound: the address validates and the broadcast field
    /// is the one derived from address and prefix.
    pub open spec fn wf(self) -> bool {
        &&& spec_valid_tun_address(self.address, self.prefix_len)
        &&& self.broadcast == spec_broadcast_of(self.address, self.prefix_len)
    }

    /// Builds the inbound from the textual CIDR address and the already
    /// parsed destination: it succeeds exactly when the text is a
    /// well-formed CIDR of a valid unicast host address, stores that
    /// address and prefix, and carries the given destination and DNS
    /// interception endpoint unchanged.
    pub fn new(address: &str, destination: IpAddrRepr, intercept_dns: Option<EndpointRepr>) -> (r:
        Result<TunInbound, ConfigError>)
        ensures
            (r is Ok) == (spec_parse_cidr(address@) matches Some(t)
                && spec_valid_tun_address(t.0, t.1)),
            match r {
                Ok(t) => {
                    &&& spec_parse_cidr(address@) == Some((t.address, t.prefix_len))
                    &&& t.wf()
                    &&& t.destination == destination
                    &&& t.intercept_dns == intercept_dns
                },
                Err(e) => e == ConfigError::InvalidAddress,
            },
    {
        let parsed = parse_cidr(address);
        let (addr, prefix) = match parsed {
            Some(t) => t,
            None => {
                return Err(ConfigError::InvalidAddress);
            },
        };
        let broadcast = match validate_address(&addr, prefix) {
            Some(b) => b,
            None => {
                return Err(ConfigError::InvalidAddress);
            },
        };
        Ok(
            TunInbound {
                address: addr,
                prefix_len: prefix,
                broadcast,
                destination,
                intercept_dns,
            },
        )
    }
}

} // verus!
