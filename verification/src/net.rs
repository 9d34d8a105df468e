//! Network endpoints as the protocol carries them.

use vstd::prelude::*;

verus! {

/// The upper 96 bits of an IPv4 address mapped into IPv6, `::ffff:0:0/96`.
pub const IPV4_MAPPED_PREFIX: u128 = 0xffff_0000_0000;

/// An address and a TCP port. The address is the 128 bits of an IPv6
/// address, most significant first; an IPv4 address is held mapped into
/// `::ffff:0:0/96`.
#[derive(Clone, Copy, Debug, PartialEq, Eq)]
pub struct Endpoint {
    pub address: u128,
    pub port: u16,
}

impl Endpoint {
    /// Whether a connection can be made to the endpoint: its port is not 0.
    pub open spec fn is_valid(self) -> bool {
        self.port != 0
    }

    /// The IPv4 address `a.b.c.d` as 128 bits.
    pub open spec fn ipv4_mapped(a: u8, b: u8, c: u8, d: u8) -> u128 {
        (IPV4_MAPPED_PREFIX + a * 0x100_0000 + b * 0x1_0000 + c * 0x100 + d) as u128
    }

    /// The endpoint with the given address bits and port.
    pub fn new(address: u128, port: u16) -> (e: Endpoint)
        ensures
            e == (Endpoint { address, port }),
    {
        Endpoint { address, port }
    }

    /// The endpoint at the IPv4 address `a.b.c.d` and the given port.
    pub fn from_ipv4(a: u8, b: u8, c: u8, d: u8, port: u16) -> (e: Endpoint)
        ensures
            e == (Endpoint { address: Self::ipv4_mapped(a, b, c, d), port }),
    {
        let address: u128 = IPV4_MAPPED_PREFIX + a as u128 * 0x100_0000 + b as u128 * 0x1_0000
            + c as u128 * 0x100 + d as u128;
        Endpoint { address, port }
    }

    /// Whether a connection can be made to the endpoint.
    pub fn check_valid(&self) -> (valid: bool)
        ensures
            valid == self.is_valid(),
    {
        self.port != 0
    }
}

} // verus!
