//! SOCKS5 auth method bytes (RFC 1928).

use vstd::prelude::*;

verus! {

/// No authentication.
pub const NOAUTH: u8 = 0x00;

/// Username and password.
pub const USERPASS: u8 = 0x02;

/// The proxy accepts none of the offered methods.
pub const NONE_ACCEPTED: u8 = 0xFF;

} // verus!
