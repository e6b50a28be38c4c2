//! Link-layer and network-layer addresses, as the bytes that stand on the
//! wire.
use crate::endian::{be_u16, be_u32, u16_at, u32_at};
use vstd::prelude::*;

verus! {

/// An Ethernet address.
#[derive(Debug, Copy, Clone, PartialEq, Eq, Hash)]
pub struct MacAddress {
    pub octets: [u8; 6],
}

/// An IPv4 address.
#[derive(Debug, Copy, Clone, PartialEq, Eq, Hash)]
pub struct Ipv4Address {
    pub octets: [u8; 4],
}

/// An IPv6 address.
#[derive(Debug, Copy, Clone, PartialEq, Eq, Hash)]
pub struct Ipv6Address {
    pub octets: [u8; 16],
}

/// An address of either IP version.
#[derive(Debug, Copy, Clone, PartialEq, Eq, Hash)]
pub enum IpAddress {
    V4(Ipv4Address),
    V6(Ipv6Address),
}

impl MacAddress {
    /// The first four octets as a big-endian number.
    pub open spec fn head(self) -> u32 {
        be_u32(self.octets@, 0) as u32
    }

    /// The last two octets as a big-endian number.
    pub open spec fn tail(self) -> u16 {
        be_u16(self.octets@, 4) as u16
    }

    /// The address with the given octets.
    pub fn new(octets: [u8; 6]) -> (mac: Self)
        ensures
            mac.octets == octets,
    {
        Self { octets }
    }

    /// The first four octets and the last two, each as a big-endian number.
    pub fn to_u32_and_u16(&self) -> (parts: (u32, u16))
        ensures
            parts.0 == self.head(),
            parts.1 == self.tail(),
    {
        let bytes = self.octets.as_slice();
        (u32_at(bytes, 0), u16_at(bytes, 4))
    }
}

impl Ipv4Address {
    /// The address as a big-endian number.
    pub open spec fn value(self) -> u32 {
        be_u32(self.octets@, 0) as u32
    }

    /// The address with the given octets.
    pub fn new(octets: [u8; 4]) -> (ip: Self)
        ensures
            ip.octets == octets,
    {
        Self { octets }
    }

    /// The address as a big-endian number.
    pub fn to_u32(&self) -> (value: u32)
        ensures
            value == self.value(),
    {
        u32_at(self.octets.as_slice(), 0)
    }
}

impl Ipv6Address {
    /// The big-endian number in the `k`-th four octets.
    pub open spec fn word(self, k: int) -> u32 {
        be_u32(self.octets@, 4 * k) as u32
    }

    /// The address with the given octets.
    pub fn new(octets: [u8; 16]) -> (ip: Self)
        ensures
            ip.octets == octets,
    {
        Self { octets }
    }

    /// The address as four big-endian numbers.
    pub fn to_u32_array(&self) -> (words: [u32; 4])
        ensures
            forall|k: int| 0 <= k < 4 ==> words[k] == self.word(k),
    {
        let bytes = self.octets.as_slice();
        [u32_at(bytes, 0), u32_at(bytes, 4), u32_at(bytes, 8), u32_at(bytes, 12)]
    }
}

} // verus!
