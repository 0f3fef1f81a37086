//! SOCKS5 greeting + method selection.
//!
//! Wire format:
//!
//! ```text
//! Greeting:     VER=5 | NMETHODS | METHODS...
//! Method reply: VER | METHOD      (METHOD=0xFF means none accepted)
//! ```

pub mod method;

use vstd::prelude::*;
use vstd::string::*;

use crate::error::{Error, ErrorView, Result};
use crate::number::{decimal, decimal_of};
use crate::proxy::util::{early_end, Incoming};
use crate::text::concat;

verus! {

/// The bytes of a greeting.
pub open spec fn greeting(methods: Seq<u8>) -> Seq<u8> {
    seq![0x05u8, methods.len() as u8] + methods
}

/// The error of too many methods for one greeting.
pub open spec fn too_many_methods() -> ErrorView {
    ErrorView::Config("SOCKS5 too many auth methods"@)
}

/// Write the greeting `VER=5 | NMETHODS | METHODS...` for the proxy.
pub fn write_greeting(stream: &mut Vec<u8>, methods: &[u8]) -> (r: Result<()>)
    ensures
        methods@.len() <= 255 ==> r is Ok && final(stream)@ == old(stream)@ + greeting(methods@),
        methods@.len() > 255 ==> (r matches Err(e) && e@ == too_many_methods() && final(stream)@
            == old(stream)@),
{
    let n = methods.len();
    if n > 255 {
        return Err(Error::Config("SOCKS5 too many auth methods".to_owned()));
    }
    stream.push(0x05);
    stream.push(n as u8);
    stream.extend_from_slice(methods);
    assert(stream@ =~= old(stream)@ + greeting(methods@));
    Ok(())
}

/// What a method reply says: the method that the proxy chose.
pub open spec fn method_reply(s: Seq<u8>) -> std::result::Result<u8, ErrorView> {
    if s.len() < 2 {
        Err(early_end())
    } else if s[0] != 0x05 {
        Err(ErrorView::Config("SOCKS5 method reply VER="@ + decimal(s[0] as nat)))
    } else if s[1] == method::NONE_ACCEPTED {
        Err(ErrorView::Socks5NoAuth)
    } else {
        Ok(s[1])
    }
}

/// Read the 2-byte method selection reply. Returns the chosen method, or
/// `Err(Socks5NoAuth)` if the server returned `0xFF` (none acceptable).
pub fn read_method_reply(stream: &mut Incoming) -> (r: Result<u8>)
    ensures
        match r {
            Ok(m) => method_reply(old(stream)@) == Ok::<u8, ErrorView>(m),
            Err(e) => method_reply(old(stream)@) == Err::<u8, ErrorView>(e@),
        },
        old(stream)@.len() >= 2 ==> final(stream)@ == old(stream)@.skip(2),
        old(stream)@.len() < 2 ==> final(stream)@ == Seq::<u8>::empty(),
{
    let buf = match stream.read_exact(2) {
        Ok(b) => b,
        Err(e) => {
            return Err(e);
        },
    };
    if buf[0] != 0x05 {
        return Err(
            Error::Config(concat("SOCKS5 method reply VER=", decimal_of(buf[0] as u64).as_str())),
        );
    }
    if buf[1] == method::NONE_ACCEPTED {
        return Err(Error::Socks5NoAuth);
    }
    Ok(buf[1])
}

/// A proxy that reads a greeting finds the methods that were offered in it.
pub proof fn law_greeting(methods: Seq<u8>)
    requires
        methods.len() <= 255,
    ensures
        greeting(methods)[0] == 0x05,
        greeting(methods)[1] == methods.len(),
        greeting(methods).skip(2) == methods,
{
    assert(greeting(methods).skip(2) =~= methods);
}

} // verus!
