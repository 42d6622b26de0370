//! Internet addresses and endpoints as plain values.
use vstd::prelude::*;

verus! {

/// An IP address; an IPv4 address is held as the big-endian number of its
/// four octets, an IPv6 address as the big-endian number of its sixteen.
#[derive(Debug, Clone, Copy, PartialEq, Eq, Structural)]
pub enum IpAddress {
    Ipv4(u32),
    Ipv6(u128),
}

/// The IPv4 loopback address 127.0.0.1.
pub const IPV4_LOOPBACK: u32 = 0x7f00_0001;

/// Whether `a` is the unspecified address of its family (0.0.0.0 or ::).
pub open spec fn spec_is_unspecified(a: IpAddress) -> bool {
    match a {
        IpAddress::Ipv4(v) => v == 0,
        IpAddress::Ipv6(v) => v == 0,
    }
}

/// Whether `a` is an IPv4 address in 127.0.0.0/8.
pub open spec fn spec_is_ipv4_loopback(a: IpAddress) -> bool {
    match a {
        IpAddress::Ipv4(v) => v / 0x100_0000 == 127,
        IpAddress::Ipv6(_) => false,
    }
}

impl IpAddress {
    /// The IPv4 address with the given octets.
    pub fn v4(a0: u8, a1: u8, a2: u8, a3: u8) -> (r: IpAddress)
        ensures
            r == IpAddress::Ipv4(
                (a0 * 0x100_0000 + a1 * 0x1_0000 + a2 * 0x100 + a3) as u32,
            ),
    {
        IpAddress::Ipv4(
            (a0 as u32) * 0x100_0000 + (a1 as u32) * 0x1_0000 + (a2 as u32) * 0x100 + (a3 as u32),
        )
    }

    /// Whether this is the unspecified address of its family.
    pub fn is_unspecified(&self) -> (r: bool)
        ensures
            r == spec_is_unspecified(*self),
    {
        match self {
            IpAddress::Ipv4(v) => *v == 0,
            IpAddress::Ipv6(v) => *v == 0,
        }
    }

    /// Whether this is an IPv4 loopback address.
    pub fn is_ipv4_loopback(&self) -> (r: bool)
        ensures
            r == spec_is_ipv4_loopback(*self),
    {
        match self {
            IpAddress::Ipv4(v) => *v / 0x100_0000 == 127,
            IpAddress::Ipv6(_) => false,
        }
    }
}

/// An IP address and a port.
#[derive(Debug, Clone, Copy, PartialEq, Eq, Structural)]
pub struct IpEndpoint {
    pub addr: IpAddress,
    pub port: u16,
}

impl IpEndpoint {
    pub fn new(addr: IpAddress, port: u16) -> (r: IpEndpoint)
        ensures
            r == (IpEndpoint { addr, port }),
    {
        IpEndpoint { addr, port }
    }
}

/// The endpoint a socket listens on: a port, and an address unless it
/// listens on every address.
#[derive(Debug, Clone, Copy, PartialEq, Eq, Structural)]
pub struct IpListenEndpoint {
    pub addr: Option<IpAddress>,
    pub port: u16,
}

/// A socket address as handed to the socket calls.
#[derive(Debug, Clone, Copy, PartialEq, Eq, Structural)]
pub enum Endpoint {
    /// An IP endpoint.
    Ip(IpEndpoint),
    /// No address (`AF_UNSPEC`).
    Unspecified,
    /// An address of a family that IP sockets do not take.
    Other,
}

} // verus!
