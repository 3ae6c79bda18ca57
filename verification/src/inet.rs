//! Socket addresses carried with each datagram.
//!
//! An address is an IP (version 4 or 6) and a port, held as plain integers in
//! host byte order. The queue never interprets an address: it stores what a
//! socket reported and hands the same value back on transmission.

use vstd::prelude::*;

verus! {

/// An IPv4 address and port. `ip` holds the four octets as one big-endian
/// number, so `127.0.0.1` is `0x7f00_0001`.
#[derive(Clone, Copy, Debug, PartialEq, Eq, Hash, Structural)]
pub struct SocketAddressV4 {
    pub ip: u32,
    pub port: u16,
}

/// An IPv6 address and port. `ip` holds the sixteen octets as one big-endian
/// number.
#[derive(Clone, Copy, Debug, PartialEq, Eq, Hash, Structural)]
pub struct SocketAddressV6 {
    pub ip: u128,
    pub port: u16,
}

/// The address of one end of a datagram exchange.
#[derive(Clone, Copy, Debug, PartialEq, Eq, Hash, Structural)]
pub enum SocketAddress {
    IpV4(SocketAddressV4),
    IpV6(SocketAddressV6),
}

impl SocketAddress {
    /// The IPv4 address with the given packed octets and port.
    pub fn v4(ip: u32, port: u16) -> (address: SocketAddress)
        ensures
            address == SocketAddress::IpV4(SocketAddressV4 { ip, port }),
    {
        SocketAddress::IpV4(SocketAddressV4 { ip, port })
    }

    /// The IPv6 address with the given packed octets and port.
    pub fn v6(ip: u128, port: u16) -> (address: SocketAddress)
        ensures
            address == SocketAddress::IpV6(SocketAddressV6 { ip, port }),
    {
        SocketAddress::IpV6(SocketAddressV6 { ip, port })
    }
}

/// The address a queue's socket is bound to. It is stamped on every datagram
/// the queue receives.
#[derive(Clone, Copy, Debug, PartialEq, Eq, Hash, Structural)]
pub struct LocalAddress(pub SocketAddress);

impl LocalAddress {
    /// The unspecified IPv4 address `0.0.0.0:0`, which a queue carries until
    /// its owner sets another.
    pub open spec fn unspecified() -> LocalAddress {
        LocalAddress(SocketAddress::IpV4(SocketAddressV4 { ip: 0, port: 0 }))
    }
}

impl Default for LocalAddress {
    fn default() -> (address: LocalAddress)
        ensures
            address == LocalAddress::unspecified(),
    {
        LocalAddress(SocketAddress::IpV4(SocketAddressV4 { ip: 0, port: 0 }))
    }
}

} // verus!
