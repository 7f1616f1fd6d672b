//! Network endpoints as plain values.

use vstd::prelude::*;

verus! {

/// A datagram endpoint: an IPv4 or IPv6 socket address held as integers.
///
/// Two endpoints are the same client exactly when all their fields agree.
#[derive(Clone, Copy, Debug, PartialEq, Eq, Structural, Hash)]
#[allow(inconsistent_fields)]
pub enum NetAddr {
    /// IPv4 address (big-endian octets packed into one word) and port.
    V4 { ip: u32, port: u16 },
    /// IPv6 address, port, flow information and scope identifier.
    V6 { ip: u128, port: u16, flowinfo: u32, scope_id: u32 },
}

impl NetAddr {
    /// The IPv4 endpoint `a.b.c.d:port`.
    pub fn v4(a: u8, b: u8, c: u8, d: u8, port: u16) -> (r: NetAddr)
        ensures
            r == (NetAddr::V4 { ip: spec_pack_v4(a, b, c, d), port }),
    {
        let ip: u32 = (a as u32) * 16_777_216 + (b as u32) * 65_536 + (c as u32) * 256 + (d as u32);
        NetAddr::V4 { ip, port }
    }

    /// The port of the endpoint.
    pub fn port(&self) -> (p: u16)
        ensures
            p == self.spec_port(),
    {
        match self {
            NetAddr::V4 { port, .. } => *port,
            NetAddr::V6 { port, .. } => *port,
        }
    }

    pub open spec fn spec_port(&self) -> u16 {
        match *self {
            NetAddr::V4 { port, .. } => port,
            NetAddr::V6 { port, .. } => port,
        }
    }
}

/// The four octets of an IPv4 address as one big-endian word.
pub open spec fn spec_pack_v4(a: u8, b: u8, c: u8, d: u8) -> u32 {
    (a as int * 16_777_216 + b as int * 65_536 + c as int * 256 + d as int) as u32
}

} // verus!
