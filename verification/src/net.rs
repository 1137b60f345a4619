//! Plain-value model of IP addresses and transport endpoints, with the
//! unicast classification and netmask arithmetic the inbound relies on.

use vstd::prelude::*;

verus! {

/// An IP address held as plain integers: an IPv4 address as its 32-bit
/// value, an IPv6 address as its 128-bit value, both in network order.
#[derive(Clone, Copy, PartialEq, Eq, Structural, Debug, Hash)]
pub enum IpAddrRepr {
    V4(u32),
    V6(u128),
}

/// A transport endpoint: an IP address and a port.
#[derive(Clone, Copy, PartialEq, Eq, Structural, Debug, Hash)]
pub struct EndpointRepr {
    pub ip: IpAddrRepr,
    pub port: u16,
}

impl IpAddrRepr {
    /// The IPv4 limited-broadcast address 255.255.255.255; IPv6 has none.
    pub open spec fn spec_is_broadcast(self) -> bool {
        match self {
            IpAddrRepr::V4(a) => a == 0xFFFF_FFFFu32,
            IpAddrRepr::V6(_) => false,
        }
    }

    /// 224.0.0.0/4 for IPv4, ff00::/8 for IPv6.
    pub open spec fn spec_is_multicast(self) -> bool {
        match self {
            IpAddrRepr::V4(a) => a >> 28 == 0xEu32,
            IpAddrRepr::V6(a) => a >> 120 == 0xFFu128,
        }
    }

    /// The all-zero address of either family.
    pub open spec fn spec_is_unspecified(self) -> bool {
        match self {
            IpAddrRepr::V4(a) => a == 0,
            IpAddrRepr::V6(a) => a == 0,
        }
    }

    /// An address the handler refuses to route: the device's own broadcast
    /// address, or any broadcast, multicast or unspecified address.
    pub open spec fn spec_non_unicast(self, device_broadcast: IpAddrRepr) -> bool {
        self == device_broadcast || self.spec_is_broadcast() || self.spec_is_multicast()
            || self.spec_is_unspecified()
    }

    pub fn is_broadcast(&self) -> (r: bool)
        ensures
            r == self.spec_is_broadcast(),
    {
        match *self {
            IpAddrRepr::V4(a) => a == 0xFFFF_FFFFu32,
            IpAddrRepr::V6(_) => false,
        }
    }

    pub fn is_multicast(&self) -> (r: bool)
        ensures
            r == self.spec_is_multicast(),
    {
        match *self {
            IpAddrRepr::V4(a) => a >> 28u32 == 0xEu32,
            IpAddrRepr::V6(a) => a >> 120u128 == 0xFFu128,
        }
    }

    pub fn is_unspecified(&self) -> (r: bool)
        ensures
            r == self.spec_is_unspecified(),
    {
        match *self {
            IpAddrRepr::V4(a) => a == 0,
            IpAddrRepr::V6(a) => a == 0,
        }
    }

    pub fn non_unicast(&self, device_broadcast: &IpAddrRepr) -> (r: bool)
        ensures
            r == self.spec_non_unicast(*device_broadcast),
    {
        *self == *device_broadcast || self.is_broadcast() || self.is_multicast()
            || self.is_unspecified()
    }
}

/// The contiguous netmask of a prefix length, as a 32-bit value.
pub open spec fn spec_mask_v4(prefix: u8) -> u32
    recommends
        prefix <= 32,
{
    if prefix == 0 {
        0u32
    } else {
        (0xFFFF_FFFFu32 << ((32 - prefix) as u32)) as u32
    }
}

/// The contiguous netmask of a prefix length, as a 128-bit value.
pub open spec fn spec_mask_v6(prefix: u8) -> u128
    recommends
        prefix <= 128,
{
    if prefix == 0 {
        0u128
    } else {
        (0xFFFF_FFFF_FFFF_FFFF_FFFF_FFFF_FFFF_FFFFu128 << ((128 - prefix) as u128)) as u128
    }
}

/// The highest address of the network `addr/prefix`: for IPv4 the subnet
/// broadcast address, for IPv6 the last address of the prefix.
pub open spec fn spec_broadcast_of(addr: IpAddrRepr, prefix: u8) -> IpAddrRepr {
    match addr {
        IpAddrRepr::V4(a) => IpAddrRepr::V4(a | !spec_mask_v4(prefix)),
        IpAddrRepr::V6(a) => IpAddrRepr::V6(a | !spec_mask_v6(prefix)),
    }
}

pub fn mask_v4(prefix: u8) -> (r: u32)
    requires
        prefix <= 32,
    ensures
        r == spec_mask_v4(prefix),
{
    if prefix == 0 {
        0u32
    } else {
        0xFFFF_FFFFu32 << ((32 - prefix) as u32)
    }
}

pub fn mask_v6(prefix: u8) -> (r: u128)
    requires
        prefix <= 128,
    ensures
        r == spec_mask_v6(prefix),
{
    if prefix == 0 {
        0u128
    } else {
        0xFFFF_FFFF_FFFF_FFFF_FFFF_FFFF_FFFF_FFFFu128 << ((128 - prefix) as u128)
    }
}

pub fn broadcast_of(addr: &IpAddrRepr, prefix: u8) -> (r: IpAddrRepr)
    requires
        addr is V4 ==> prefix <= 32,
        addr is V6 ==> prefix <= 128,
    ensures
        r == spec_broadcast_of(*addr, prefix),
{
    match *addr {
        IpAddrRepr::V4(a) => IpAddrRepr::V4(a | !mask_v4(prefix)),
        IpAddrRepr::V6(a) => IpAddrRepr::V6(a | !mask_v6(prefix)),
    }
}

} // verus!
