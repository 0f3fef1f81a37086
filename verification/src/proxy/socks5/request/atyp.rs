//! SOCKS5 address types.

use vstd::prelude::*;

verus! {

/// Four octets.
pub const IPV4: u8 = 0x01;

/// A length octet and so many octets of name.
pub const DOMAINNAME: u8 = 0x03;

/// Sixteen octets.
pub const IPV6: u8 = 0x04;

} // verus!
