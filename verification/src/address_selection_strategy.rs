//! How the address of a machine interface is chosen.

use vstd::prelude::*;

verus! {

/// An IP address, by its octets.
#[derive(Debug, Clone, Copy, PartialEq, Eq, Structural)]
pub enum IpAddress {
    V4(u8, u8, u8, u8),
    /// The eight groups of an IPv6 address as one number.
    V6(u128),
}

/// How the address of a machine interface is chosen.
#[derive(Debug, Clone, Copy, PartialEq, Eq, Structural)]
pub enum AddressSelectionStrategy {
    /// The next free address of the network segment.
    NextAvailableIp,
    /// Whatever suits the interface.
    Automatic,
    /// The next free prefix of the given length.
    NextAvailablePrefix(u8),
    /// The given address.
    StaticAddress(IpAddress),
}

} // verus!
