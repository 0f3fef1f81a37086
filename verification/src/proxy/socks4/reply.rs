//! SOCKS4 reply codes.

use vstd::prelude::*;

verus! {

/// The request is granted.
pub const SUCCEEDED: u8 = 0x5A;

/// The request is rejected or failed.
pub const REJECTED: u8 = 0x5B;

/// The proxy could not confirm the user.
pub const IDENT_FAILED: u8 = 0x5D;

} // verus!
