//! Network addresses, as plain values.
use vstd::prelude::*;

verus! {

/// An IPv4 address, as the number that its octets write in network order, with a
/// port.
#[derive(Clone, Copy, Debug, PartialEq, Eq, Structural)]
pub struct SocketAddrV4 {
    pub ip: u32,
    pub port: u16,
}

/// An IPv6 address, as the number that its octets write in network order, with a
/// port, a flow and a scope.
#[derive(Clone, Copy, Debug, PartialEq, Eq, Structural)]
pub struct SocketAddrV6 {
    pub ip: u128,
    pub port: u16,
    pub flowinfo: u32,
    pub scope_id: u32,
}

/// A socket address.
#[derive(Clone, Copy, Debug, PartialEq, Eq, Structural)]
pub enum SocketAddr {
    V4(SocketAddrV4),
    V6(SocketAddrV6),
}

/// A DNS name with a port.
#[derive(Debug, PartialEq, Eq)]
pub struct NameAddr {
    pub name: String,
    pub port: u16,
}

/// Where a request is addressed: by name, or by socket address.
#[derive(Debug, PartialEq, Eq)]
pub enum Addr {
    Name(NameAddr),
    Socket(SocketAddr),
}

impl Clone for NameAddr {
    fn clone(&self) -> (addr: Self)
        ensures
            addr == *self,
    {
        NameAddr { name: self.name.clone(), port: self.port }
    }
}

impl Clone for Addr {
    fn clone(&self) -> (addr: Self)
        ensures
            addr == *self,
    {
        match self {
            Addr::Name(name) => Addr::Name(name.clone()),
            Addr::Socket(socket) => Addr::Socket(*socket),
        }
    }
}

} // verus!
