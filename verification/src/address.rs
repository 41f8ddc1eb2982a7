//! Network addresses as plain integers.

use vstd::prelude::*;

verus! {

/// An IP address of either family, held as the integer that its octets spell
/// in network byte order.
#[derive(Clone, Copy, Debug, PartialEq, Eq, Structural)]
pub enum IpAddress {
    /// A 32-bit address.
    V4(u32),
    /// A 128-bit address.
    V6(u128),
}

/// The integer spelled by four octets, most significant first.
pub open spec fn quad(a: u8, b: u8, c: u8, d: u8) -> int {
    a * 0x100_0000 + b * 0x1_0000 + c * 0x100 + d
}

impl IpAddress {
    /// The all-zero 32-bit address, `0.0.0.0`.
    pub open spec fn spec_unspecified() -> IpAddress {
        IpAddress::V4(0)
    }

    /// The all-zero 32-bit address, `0.0.0.0`, which stands for an address
    /// that is not known.
    #[verifier::when_used_as_spec(spec_unspecified)]
    pub fn unspecified() -> (addr: IpAddress)
        ensures
            addr == IpAddress::V4(0),
    {
        IpAddress::V4(0)
    }

    /// The 32-bit address `a.b.c.d`.
    pub fn v4(a: u8, b: u8, c: u8, d: u8) -> (addr: IpAddress)
        ensures
            addr == IpAddress::V4(quad(a, b, c, d) as u32),
    {
        let hi: u32 = (a as u32) * 0x100_0000 + (b as u32) * 0x1_0000;
        let lo: u32 = (c as u32) * 0x100 + (d as u32);
        IpAddress::V4(hi + lo)
    }

    /// Whether this is the all-zero 32-bit address.
    pub fn is_unspecified(&self) -> (zero: bool)
        ensures
            zero == (*self == IpAddress::V4(0)),
    {
        match self {
            IpAddress::V4(bits) => *bits == 0,
            IpAddress::V6(_) => false,
        }
    }

    /// The address that stands for `known`: the address itself where there is
    /// one, `0.0.0.0` where there is none.
    pub open spec fn spec_or_unspecified(known: Option<IpAddress>) -> IpAddress {
        match known {
            Some(addr) => addr,
            None => IpAddress::V4(0),
        }
    }

    /// Replaces a missing address by `0.0.0.0`.
    #[verifier::when_used_as_spec(spec_or_unspecified)]
    pub fn or_unspecified(known: Option<IpAddress>) -> (addr: IpAddress)
        ensures
            addr == Self::spec_or_unspecified(known),
    {
        match known {
            Some(addr) => addr,
            None => IpAddress::V4(0),
        }
    }
}

} // verus!
