//! Internet addresses as the octets that spell them on the wire.
use vstd::prelude::*;

verus! {

/// An IPv4 address: four octets in network order.
#[derive(Debug, Clone, Copy, PartialEq, Eq, Hash)]
pub struct Ipv4Addr {
    octets: [u8; 4],
}

impl View for Ipv4Addr {
    type V = Seq<u8>;

    closed spec fn view(&self) -> Seq<u8> {
        self.octets@
    }
}

impl Ipv4Addr {
    /// The address that `octets` spell.
    pub fn from_octets(octets: [u8; 4]) -> (addr: Self)
        ensures
            addr@ == octets@,
    {
        Ipv4Addr { octets }
    }

    /// The four octets of the address.
    pub fn octets(&self) -> (octets: [u8; 4])
        ensures
            octets@ == self@,
    {
        self.octets
    }
}

/// An IPv6 address: sixteen octets in network order.
#[derive(Debug, Clone, Copy, PartialEq, Eq, Hash)]
pub struct Ipv6Addr {
    octets: [u8; 16],
}

impl View for Ipv6Addr {
    type V = Seq<u8>;

    closed spec fn view(&self) -> Seq<u8> {
        self.octets@
    }
}

impl Ipv6Addr {
    /// The address that `octets` spell.
    pub fn from_octets(octets: [u8; 16]) -> (addr: Self)
        ensures
            addr@ == octets@,
    {
        Ipv6Addr { octets }
    }

    /// The sixteen octets of the address.
    pub fn octets(&self) -> (octets: [u8; 16])
        ensures
            octets@ == self@,
    {
        self.octets
    }
}

/// The `i`-th record of `size` bytes in `bytes`.
pub open spec fn record(bytes: Seq<u8>, size: int, i: int) -> Seq<u8> {
    bytes.subrange(i * size, i * size + size)
}

} // verus!
