//! Network addresses as plain integers.
//!
//! An address is the number that its bytes write in network order, so two
//! addresses are equal exactly when their numbers are.
use vstd::prelude::*;

verus! {

/// An IPv4 address, held as its 32-bit value.
#[derive(Clone, Copy, Debug, PartialEq, Eq, Structural, Hash)]
pub struct Ipv4Address {
    pub bits: u32,
}

/// An IPv6 address, held as its 128-bit value.
#[derive(Clone, Copy, Debug, PartialEq, Eq, Structural, Hash)]
pub struct Ipv6Address {
    pub bits: u128,
}

/// An address of either family.
#[derive(Clone, Copy, Debug, PartialEq, Eq, Structural, Hash)]
pub enum IpAddress {
    V4(Ipv4Address),
    V6(Ipv6Address),
}

/// An address together with a port.
///
/// The IPv6 form also carries the flow label and the scope of the address.
#[derive(Clone, Copy, Debug, PartialEq, Eq, Structural, Hash)]
#[allow(inconsistent_fields)]
pub enum SocketAddress {
    V4 { ip: Ipv4Address, port: u16 },
    V6 { ip: Ipv6Address, port: u16, flowinfo: u32, scope_id: u32 },
}

/// The 32-bit value of the address `a.b.c.d`.
pub open spec fn ipv4_bits(a: u8, b: u8, c: u8, d: u8) -> u32 {
    (((a as int * 256 + b as int) * 256 + c as int) * 256 + d as int) as u32
}

/// The 128-bit value of the address whose eight groups are `g`, first
/// group in the highest place.
pub open spec fn ipv6_bits(g: Seq<u16>) -> u128
    recommends
        g.len() == 8,
{
    (((((((g[0] as int * 0x1_0000 + g[1] as int) * 0x1_0000 + g[2] as int) * 0x1_0000
        + g[3] as int) * 0x1_0000 + g[4] as int) * 0x1_0000 + g[5] as int) * 0x1_0000
        + g[6] as int) * 0x1_0000 + g[7] as int) as u128
}

/// The socket address of `ip` and `port`, with no flow label and no scope.
pub open spec fn socket_address(ip: IpAddress, port: u16) -> SocketAddress {
    match ip {
        IpAddress::V4(ip) => SocketAddress::V4 { ip, port },
        IpAddress::V6(ip) => SocketAddress::V6 { ip, port, flowinfo: 0, scope_id: 0 },
    }
}

impl Ipv4Address {
    /// The address `a.b.c.d`.
    pub fn new(a: u8, b: u8, c: u8, d: u8) -> (r: Self)
        ensures
            r.bits == ipv4_bits(a, b, c, d),
    {
        Ipv4Address { bits: ((a as u32 * 256 + b as u32) * 256 + c as u32) * 256 + d as u32 }
    }

    /// Whether the address lies in `127.0.0.0/8`.
    pub open spec fn loopback(self) -> bool {
        self.bits / 0x100_0000 == 127
    }

    /// Whether the address lies in `127.0.0.0/8`.
    pub fn is_loopback(self) -> (r: bool)
        ensures
            r == self.loopback(),
    {
        self.bits / 0x100_0000 == 127
    }
}

impl Ipv6Address {
    /// The address whose eight groups are `g`.
    pub fn from_groups(g: &[u16]) -> (r: Self)
        requires
            g.len() == 8,
        ensures
            r.bits == ipv6_bits(g@),
    {
        let high: u64 = ((g[0] as u64 * 0x1_0000 + g[1] as u64) * 0x1_0000 + g[2] as u64)
            * 0x1_0000 + g[3] as u64;
        let low: u64 = ((g[4] as u64 * 0x1_0000 + g[5] as u64) * 0x1_0000 + g[6] as u64)
            * 0x1_0000 + g[7] as u64;
        Ipv6Address { bits: high as u128 * 0x1_0000_0000_0000_0000 + low as u128 }
    }

    /// Whether the address is `::1`.
    pub open spec fn loopback(self) -> bool {
        self.bits == 1
    }

    /// Whether the address is `::1`.
    pub fn is_loopback(self) -> (r: bool)
        ensures
            r == self.loopback(),
    {
        self.bits == 1
    }
}

impl IpAddress {
    /// Whether the address is a loopback address of its family.
    pub open spec fn loopback(self) -> bool {
        match self {
            IpAddress::V4(ip) => ip.loopback(),
            IpAddress::V6(ip) => ip.loopback(),
        }
    }

    /// Whether the address is a loopback address of its family.
    pub fn is_loopback(self) -> (r: bool)
        ensures
            r == self.loopback(),
    {
        match self {
            IpAddress::V4(ip) => ip.is_loopback(),
            IpAddress::V6(ip) => ip.is_loopback(),
        }
    }
}

impl SocketAddress {
    /// The socket address of `ip` and `port`, with no flow label and no scope.
    pub fn new(ip: IpAddress, port: u16) -> (r: Self)
        ensures
            r == socket_address(ip, port),
    {
        match ip {
            IpAddress::V4(ip) => SocketAddress::V4 { ip, port },
            IpAddress::V6(ip) => SocketAddress::V6 { ip, port, flowinfo: 0, scope_id: 0 },
        }
    }

    /// The address part.
    pub open spec fn address(self) -> IpAddress {
        match self {
            SocketAddress::V4 { ip, .. } => IpAddress::V4(ip),
            SocketAddress::V6 { ip, .. } => IpAddress::V6(ip),
        }
    }

    /// The port part.
    pub open spec fn port_number(self) -> u16 {
        match self {
            SocketAddress::V4 { port, .. } => port,
            SocketAddress::V6 { port, .. } => port,
        }
    }

    /// The address part.
    pub fn ip(&self) -> (r: IpAddress)
        ensures
            r == self.address(),
    {
        match self {
            SocketAddress::V4 { ip, .. } => IpAddress::V4(*ip),
            SocketAddress::V6 { ip, .. } => IpAddress::V6(*ip),
        }
    }

    /// The port part.
    pub fn port(&self) -> (r: u16)
        ensures
            r == self.port_number(),
    {
        match self {
            SocketAddress::V4 { port, .. } => *port,
            SocketAddress::V6 { port, .. } => *port,
        }
    }
}

} // verus!
