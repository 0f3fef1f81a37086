//! Direct TCP connection (no proxy).

use vstd::prelude::*;
use vstd::string::*;

use crate::config::Config;

verus! {

/// Where to connect to without a proxy: `dest_host:dest_port`. No handshake.
pub fn connect(cfg: &Config) -> (r: (String, u16))
    ensures
        r.0@ == cfg@.dest_host,
        r.1 == cfg@.dest_port,
{
    (cfg.dest_host.clone(), cfg.dest_port)
}

/// A direct connection goes to the destination itself.
pub proof fn law_direct_destination(cfg: Config, r: (String, u16))
    requires
        call_ensures(connect, (&cfg,), r),
    ensures
        r.0@ == cfg.dest_host@,
        r.1 == cfg.dest_port,
{
}

} // verus!
