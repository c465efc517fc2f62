//! Socket addresses as plain numbers.
use vstd::prelude::*;

verus! {

/// Address and port of a UDP endpoint.
#[derive(Debug, Clone, Copy, PartialEq, Eq, Hash, Structural)]
pub enum SocketAddress {
    /// IPv4: the address as a number, most significant byte first.
    V4 { ip: u32, port: u16 },
    /// IPv6: the address as a number, with flow label and scope.
    V6 { ip: u128, port: u16, flowinfo: u32, scope_id: u32 },
}

impl SocketAddress {
    /// The port of an address.
    pub open spec fn spec_port(self) -> u16 {
        match self {
            SocketAddress::V4 { ip: _, port } => port,
            SocketAddress::V6 { ip: _, port, flowinfo: _, scope_id: _ } => port,
        }
    }

    /// The port.
    pub fn port(&self) -> (r: u16)
        ensures
            r == self.spec_port(),
    {
        match self {
            SocketAddress::V4 { ip: _, port } => *port,
            SocketAddress::V6 { ip: _, port, flowinfo: _, scope_id: _ } => *port,
        }
    }
}

} // verus!
