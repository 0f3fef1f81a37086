//! Override of the resolver's nameserver list (`-R <IPv4>`, Linux only).
//!
//! The caller initialises the resolver state and puts the nameserver into it, as
//! its only one.

use vstd::prelude::*;
use vstd::string::*;

use crate::addr::Ipv4Addr;
use crate::error::{Error, ErrorView, Result};
use crate::number::{signed, signed_of};
use crate::text::concat;

verus! {

/// A nameserver to use.
#[derive(Debug)]
pub struct Nameserver {
    /// Its address, in the order of the network.
    pub octets: [u8; 4],
    /// What the user is told.
    pub message: String,
}

/// The nameserver to put into the resolver state, given what its initialisation
/// returned: anything but 0 is a failure.
pub fn apply(ip: Ipv4Addr, init: i32) -> (r: Result<Nameserver>)
    ensures
        init == 0 ==> (r matches Ok(ns) && ns.octets@ == ip.bytes() && ns.message@
            == "DEBUG: switch_ns using nameserver "@ + ip.text()),
        init != 0 ==> (r matches Err(e) && e@ == ErrorView::Config(
            "res_init failed: "@ + signed(init as int),
        )),
{
    if init != 0 {
        return Err(Error::Config(concat("res_init failed: ", signed_of(init).as_str())));
    }
    let message = concat("DEBUG: switch_ns using nameserver ", ip.to_text().as_str());
    Ok(Nameserver { octets: ip.octets(), message })
}

// ---- Laws ----

/// The name server is put in with its octets in order, where the resolver could be
/// initialised, and not otherwise.
pub proof fn law_nameserver(ip: Ipv4Addr, init: i32, r: Result<Nameserver>)
    requires
        call_ensures(apply, (ip, init), r),
    ensures
        init == 0 ==> (r matches Ok(ns) && ns.octets@ == seq![ip.a, ip.b, ip.c, ip.d]),
        init != 0 ==> (r matches Err(e) && e@ == ErrorView::Config(
            "res_init failed: "@ + signed(init as int),
        )),
{
}

} // verus!
