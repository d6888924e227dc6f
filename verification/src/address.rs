//! Network addresses as plain numbers, and the choice of the local address
//! that a link's socket binds to. A socket address holds all that the
//! operating system's form of it holds, so that nothing is lost on the way
//! from a socket and back to it.

use vstd::prelude::*;
use vstd::string::*;

use crate::error::VtrunkdError;
use crate::error::VtrunkdResult;
use crate::text::join;

verus! {

/// An IP address: the 32 bits of an IPv4 address or the 128 bits of an IPv6
/// address, first octet most significant.
#[derive(Debug, Clone, Copy, PartialEq, Eq, Structural)]
pub enum IpAddress {
    V4(u32),
    V6(u128),
}

/// The address of a UDP socket.
#[derive(Debug, Clone, Copy, PartialEq, Eq, Structural)]
pub enum SocketAddress {
    /// An IPv4 address and a port.
    V4 { ip: u32, port: u16 },
    /// An IPv6 address and a port, with the flow information of the traffic
    /// and the scope that a link-local address belongs to.
    V6 { ip: u128, port: u16, flowinfo: u32, scope_id: u32 },
}

/// How a configured bind text reads.
#[derive(Debug, Clone, Copy, PartialEq, Eq, Structural)]
pub enum BindReading {
    /// An address with a port.
    Socket(SocketAddress),
    /// A bare address.
    Ip(IpAddress),
    /// Neither.
    Unreadable,
}

impl IpAddress {
    /// Whether the address is IPv6.
    pub open spec fn is_v6(self) -> bool {
        self is V6
    }

    /// Whether the address is an IPv6 link-local unicast address: one in `fe80::/10`.
    pub open spec fn link_local_v6(self) -> bool {
        self matches IpAddress::V6(bits) && bits / 0x40_0000_0000_0000_0000_0000_0000_0000 == 0x3fa
    }

    /// Tells whether the address is an IPv6 link-local unicast address.
    pub fn is_unicast_link_local(&self) -> (r: bool)
        ensures
            r == self.link_local_v6(),
    {
        match self {
            IpAddress::V4(_) => false,
            IpAddress::V6(bits) => *bits / 0x40_0000_0000_0000_0000_0000_0000_0000 == 0x3fa,
        }
    }
}

impl SocketAddress {
    /// The socket address of an IP address and a port; for IPv6 without flow
    /// information and without scope.
    pub open spec fn of(ip: IpAddress, port: u16) -> SocketAddress {
        match ip {
            IpAddress::V4(bits) => SocketAddress::V4 { ip: bits, port },
            IpAddress::V6(bits) => SocketAddress::V6 { ip: bits, port, flowinfo: 0, scope_id: 0 },
        }
    }

    /// The IP address of the socket address.
    pub open spec fn ip_address(self) -> IpAddress {
        match self {
            SocketAddress::V4 { ip, .. } => IpAddress::V4(ip),
            SocketAddress::V6 { ip, .. } => IpAddress::V6(ip),
        }
    }

    /// The port of the socket address.
    pub open spec fn port_number(self) -> u16 {
        match self {
            SocketAddress::V4 { port, .. } => port,
            SocketAddress::V6 { port, .. } => port,
        }
    }

    /// Makes the socket address of an IP address and a port.
    pub fn new(ip: IpAddress, port: u16) -> (addr: SocketAddress)
        ensures
            addr == SocketAddress::of(ip, port),
            addr.ip_address() == ip,
            addr.port_number() == port,
    {
        match ip {
            IpAddress::V4(bits) => SocketAddress::V4 { ip: bits, port },
            IpAddress::V6(bits) => SocketAddress::V6 { ip: bits, port, flowinfo: 0, scope_id: 0 },
        }
    }

    /// The IP address of the socket address.
    pub fn ip(&self) -> (ip: IpAddress)
        ensures
            ip == self.ip_address(),
    {
        match self {
            SocketAddress::V4 { ip, .. } => IpAddress::V4(*ip),
            SocketAddress::V6 { ip, .. } => IpAddress::V6(*ip),
        }
    }

    /// The port of the socket address.
    pub fn port(&self) -> (port: u16)
        ensures
            port == self.port_number(),
    {
        match self {
            SocketAddress::V4 { port, .. } => *port,
            SocketAddress::V6 { port, .. } => *port,
        }
    }
}

/// The address a socket binds to when none is configured: any address, any
/// port, of the family of the peer's address, IPv4 when the peer is unknown.
pub open spec fn unspecified_for(remote: Option<SocketAddress>) -> SocketAddress {
    match remote {
        Some(SocketAddress::V6 { .. }) => SocketAddress::of(IpAddress::V6(0), 0),
        _ => SocketAddress::of(IpAddress::V4(0), 0),
    }
}

/// Picks the bind address of a link without a configured one.
pub fn default_bind_addr(remote: Option<SocketAddress>) -> (addr: SocketAddress)
    ensures
        addr == unspecified_for(remote),
{
    match remote {
        Some(SocketAddress::V6 { .. }) => SocketAddress::new(IpAddress::V6(0), 0),
        _ => SocketAddress::new(IpAddress::V4(0), 0),
    }
}

/// Turns a configured bind text, already read, into the address to bind to:
/// an address with a port as it stands, a bare address with port 0.
pub fn parse_bind_addr(value: &str, reading: BindReading) -> (result: VtrunkdResult<SocketAddress>)
    ensures
        match reading {
            BindReading::Socket(addr) => result == Ok::<SocketAddress, VtrunkdError>(addr),
            BindReading::Ip(ip) => result == Ok::<SocketAddress, VtrunkdError>(
                SocketAddress::of(ip, 0),
            ),
            BindReading::Unreadable => result matches Err(VtrunkdError::InvalidConfig(text))
                && text@ == "Invalid WireGuard bind address: "@ + value@,
        },
{
    match reading {
        BindReading::Socket(addr) => Ok(addr),
        BindReading::Ip(ip) => Ok(SocketAddress::new(ip, 0)),
        BindReading::Unreadable => Err(
            VtrunkdError::InvalidConfig(join("Invalid WireGuard bind address: ", value)),
        ),
    }
}

/// The local address for a link's socket: the configured one where there is
/// one, else the unspecified address that suits the peer.
pub fn link_bind_addr(bind: Option<(&str, BindReading)>, remote: Option<SocketAddress>) -> (result:
    VtrunkdResult<SocketAddress>)
    ensures
        match bind {
            None => result == Ok::<SocketAddress, VtrunkdError>(unspecified_for(remote)),
            Some((_, BindReading::Socket(addr))) => result == Ok::<SocketAddress, VtrunkdError>(
                addr,
            ),
            Some((_, BindReading::Ip(ip))) => result == Ok::<SocketAddress, VtrunkdError>(
                SocketAddress::of(ip, 0),
            ),
            Some((value, BindReading::Unreadable)) => result matches Err(
                VtrunkdError::InvalidConfig(text),
            ) && text@ == "Invalid WireGuard bind address: "@ + value@,
        },
{
    match bind {
        Some((value, reading)) => parse_bind_addr(value, reading),
        None => Ok(default_bind_addr(remote)),
    }
}

} // verus!
