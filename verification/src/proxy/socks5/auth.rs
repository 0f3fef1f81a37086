//! SOCKS5 USERPASS subnegotiation (RFC 1929).
//!
//! Wire format (request): `VER=1 | ULEN | UNAME | PLEN | PASSWD`.
//! Wire format (reply):   `VER | STATUS` (STATUS=0 is success).

use vstd::prelude::*;
use vstd::string::*;
use vstd::utf8::encode_utf8;

use crate::error::{Error, ErrorView, Result};
use crate::proxy::util::{early_end, Incoming};
use crate::text::{opt_text, Text};

verus! {

/// The bytes of a subnegotiation request.
pub open spec fn userpass_frame(user: Seq<u8>, pass: Seq<u8>) -> Seq<u8> {
    seq![0x01u8, user.len() as u8] + user + seq![pass.len() as u8] + pass
}

/// The request of a user, or why there is none.
pub open spec fn userpass_request(user: Option<Text>, pass: Text) -> std::result::Result<
    Seq<u8>,
    ErrorView,
> {
    match user {
        None => Err(ErrorView::Auth("missing SOCKS5 user"@)),
        Some(u) => if encode_utf8(u).len() > 255 || encode_utf8(pass).len() > 255 {
            Err(ErrorView::Config("SOCKS5 username/password too long"@))
        } else {
            Ok(userpass_frame(encode_utf8(u), encode_utf8(pass)))
        },
    }
}

/// Write the RFC 1929 request with user and password. Either of them over 255
/// bytes is rejected up front, before a malformed frame is written.
pub fn do_userpass(stream: &mut Vec<u8>, user: &Option<String>, pass: &str) -> (r: Result<()>)
    ensures
        match (r, userpass_request(opt_text(*user), pass@)) {
            (Ok(_), Ok(b)) => final(stream)@ == old(stream)@ + b,
            (Err(e), Err(f)) => e@ == f && final(stream)@ == old(stream)@,
            _ => false,
        },
{
    let user = match user {
        Some(u) => u.as_str(),
        None => {
            return Err(Error::Auth("missing SOCKS5 user".to_owned()));
        },
    };
    let user_bytes = user.as_bytes();
    let pass_bytes = pass.as_bytes();
    if user_bytes.len() > 255 || pass_bytes.len() > 255 {
        return Err(Error::Config("SOCKS5 username/password too long".to_owned()));
    }
    stream.push(0x01);
    stream.push(user_bytes.len() as u8);
    stream.extend_from_slice(user_bytes);
    stream.push(pass_bytes.len() as u8);
    stream.extend_from_slice(pass_bytes);
    assert(stream@ =~= old(stream)@ + userpass_frame(encode_utf8(user@), encode_utf8(pass@)));
    Ok(())
}

/// What the reply says.
pub open spec fn userpass_reply(s: Seq<u8>) -> std::result::Result<(), ErrorView> {
    if s.len() < 2 {
        Err(early_end())
    } else if s[0] != 0x01 || s[1] != 0x00 {
        Err(ErrorView::Socks5AuthFailed)
    } else {
        Ok(())
    }
}

/// Read the 2-byte status: an error if it is not success.
pub fn read_userpass_reply(stream: &mut Incoming) -> (r: Result<()>)
    ensures
        match r {
            Ok(_) => userpass_reply(old(stream)@) is Ok,
            Err(e) => userpass_reply(old(stream)@) == Err::<(), ErrorView>(e@),
        },
        old(stream)@.len() >= 2 ==> final(stream)@ == old(stream)@.skip(2),
        old(stream)@.len() < 2 ==> final(stream)@ == Seq::<u8>::empty(),
{
    let buf = match stream.read_exact(2) {
        Ok(b) => b,
        Err(e) => {
            return Err(e);
        },
    };
    if buf[0] != 0x01 || buf[1] != 0x00 {
        return Err(Error::Socks5AuthFailed);
    }
    Ok(())
}

/// A proxy that reads a request finds user and password in it. The frame is
/// `VER + ULEN + UNAME + PLEN + PASSWD` bytes long.
pub proof fn law_userpass_frame(user: Seq<u8>, pass: Seq<u8>)
    requires
        user.len() <= 255,
        pass.len() <= 255,
    ensures
        ({
            let f = userpass_frame(user, pass);
            let n = f[1] as int;
            &&& f.len() == 1 + 1 + user.len() + 1 + pass.len()
            &&& f[0] == 0x01
            &&& f.subrange(2, 2 + n) == user
            &&& f[2 + n] == pass.len()
            &&& f.skip(3 + n) == pass
        }),
{
    let f = userpass_frame(user, pass);
    let n = user.len() as int;
    assert(f[1] == n);
    assert(f.subrange(2, 2 + n) =~= user);
    assert(f.skip(3 + n) =~= pass);
}

} // verus!
