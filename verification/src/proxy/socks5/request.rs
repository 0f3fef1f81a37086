//! SOCKS5 CONNECT request + reply.
//!
//! Wire formats:
//!
//! ```text
//! CONNECT request: VER=5 | CMD=1 | RSV=0 | ATYP | DST.ADDR | DST.PORT(2 BE)
//! CONNECT reply:   VER | REP | RSV | ATYP | BND.ADDR | BND.PORT
//! ```
//!
//! `ATYP`: `0x01` IPv4 (4 bytes), `0x03` DOMAINNAME (1-byte-len + name),
//! `0x04` IPv6 (16 bytes).

pub mod atyp;

use vstd::prelude::*;
use vstd::string::*;
use vstd::utf8::encode_utf8;

use crate::addr::{
    be16, ipv6_bytes, law_ip_text, parse_ip, push_be16, read_ipv4, read_ipv6, IpAddr, IpView,
};
use crate::config::Config;
use crate::error::{Error, ErrorView, Result};
use crate::number::{decimal, decimal_of};
use crate::proxy::util::{early_end, Incoming};
use crate::text::{chars_of, concat, Text};

verus! {

// ---- Request ----

/// ATYP and DST.ADDR of an address.
pub open spec fn ip_field(ip: IpView) -> Seq<u8> {
    match ip {
        IpView::V4(a) => seq![atyp::IPV4] + a.bytes(),
        IpView::V6(s) => seq![atyp::IPV6] + ipv6_bytes(s),
    }
}

/// ATYP and DST.ADDR of a name.
pub open spec fn name_field(name: Seq<u8>) -> Seq<u8> {
    seq![atyp::DOMAINNAME, name.len() as u8] + name
}

/// ATYP and DST.ADDR of a host: numeric IPv4 / IPv6 as such, otherwise
/// DOMAINNAME.
pub open spec fn host_field(host: Text) -> Seq<u8> {
    match parse_ip(host) {
        Some(ip) => ip_field(ip),
        None => name_field(encode_utf8(host)),
    }
}

/// The bytes of a CONNECT request, or why there are none.
pub open spec fn connect_request(host: Text, port: u16) -> std::result::Result<Seq<u8>, ErrorView> {
    if parse_ip(host) is None && encode_utf8(host).len() > 255 {
        Err(ErrorView::Config("SOCKS5 destination hostname too long: "@ + host))
    } else {
        Ok(seq![0x05u8, 0x01u8, 0x00u8] + host_field(host) + be16(port))
    }
}

/// Write the CONNECT request. ATYP is chosen from `cfg.dest_host`:
/// numeric IPv4 / IPv6 short-circuit, otherwise DOMAINNAME.
pub fn write_connect(stream: &mut Vec<u8>, cfg: &Config) -> (r: Result<()>)
    ensures
        match (r, connect_request(cfg@.dest_host, cfg@.dest_port)) {
            (Ok(_), Ok(b)) => final(stream)@ == old(stream)@ + b,
            (Err(e), Err(f)) => e@ == f && final(stream)@ == old(stream)@,
            _ => false,
        },
{
    let host = cfg.dest_host.as_str();
    let mut field: Vec<u8> = Vec::new();
    let v = chars_of(host);
    if let Some(v4) = read_ipv4(v.as_slice()) {
        let octets = v4.octets();
        field.push(atyp::IPV4);
        field.extend_from_slice(octets.as_slice());
        assert(field@ =~= host_field(host@));
    } else if let Some(v6) = read_ipv6(v.as_slice()) {
        let octets = v6.octets();
        field.push(atyp::IPV6);
        field.extend_from_slice(octets.as_slice());
        assert(field@ =~= host_field(host@));
    } else {
        let name = host.as_bytes();
        if name.len() > 255 {
            return Err(Error::Config(concat("SOCKS5 destination hostname too long: ", host)));
        }
        field.push(atyp::DOMAINNAME);
        field.push(name.len() as u8);
        field.extend_from_slice(name);
        assert(field@ =~= host_field(host@));
    }
    stream.push(0x05);
    stream.push(0x01);
    stream.push(0x00);
    stream.extend_from_slice(field.as_slice());
    push_be16(stream, cfg.dest_port);
    assert(stream@ =~= old(stream)@ + connect_request(host@, cfg@.dest_port)->Ok_0);
    Ok(())
}

// ---- Reply ----

/// How many bytes of the stream a reply takes, as far as its bytes tell.
pub open spec fn reply_len(s: Seq<u8>) -> nat {
    if s.len() < 4 || s[0] != 0x05 || s[1] != 0x00 {
        4
    } else if s[3] == atyp::IPV4 {
        4 + 4 + 2
    } else if s[3] == atyp::DOMAINNAME {
        if s.len() < 5 {
            5
        } else {
            (4 + 1 + s[4] + 2) as nat
        }
    } else if s[3] == atyp::IPV6 {
        4 + 16 + 2
    } else {
        4
    }
}

/// How many bytes a reply is still short of, as far as the bytes that are there
/// tell; none where they decide it.
pub open spec fn reply_needs(s: Seq<u8>) -> nat {
    if reply_len(s) > s.len() {
        (reply_len(s) - s.len()) as nat
    } else {
        0
    }
}

/// What a reply says. Only the header counts; the address that follows it must be
/// there.
pub open spec fn connect_reply(s: Seq<u8>) -> std::result::Result<(), ErrorView> {
    if s.len() < 4 {
        Err(early_end())
    } else if s[0] != 0x05 {
        Err(ErrorView::Config("SOCKS5 reply VER="@ + decimal(s[0] as nat)))
    } else if s[1] != 0x00 {
        Err(ErrorView::Socks5Reply(s[1]))
    } else if s[3] != atyp::IPV4 && s[3] != atyp::DOMAINNAME && s[3] != atyp::IPV6 {
        Err(ErrorView::Socks5Atyp(s[3]))
    } else if s.len() < reply_len(s) {
        Err(early_end())
    } else {
        Ok(())
    }
}

/// Read the CONNECT reply: 4-byte header (VER, REP, RSV, ATYP), then the
/// variable-length BND.ADDR tail (4 / 1+N / 16 bytes depending on ATYP),
/// then the 2-byte BND.PORT. We only check the header; the tail is consumed
/// and discarded.
pub fn read_connect_reply(stream: &mut Incoming) -> (r: Result<()>)
    ensures
        match r {
            Ok(_) => connect_reply(old(stream)@) is Ok,
            Err(e) => connect_reply(old(stream)@) == Err::<(), ErrorView>(e@),
        },
        old(stream)@.len() >= reply_len(old(stream)@) ==> final(stream)@ == old(stream)@.skip(
            reply_len(old(stream)@) as int,
        ),
        old(stream)@.len() < reply_len(old(stream)@) ==> final(stream)@ == Seq::<u8>::empty(),
{
    let ghost s = stream@;
    let hdr = match stream.read_exact(4) {
        Ok(b) => b,
        Err(e) => {
            return Err(e);
        },
    };
    if hdr[0] != 0x05 {
        return Err(Error::Config(concat("SOCKS5 reply VER=", decimal_of(hdr[0] as u64).as_str())));
    }
    if hdr[1] != 0x00 {
        return Err(Error::Socks5Reply(hdr[1]));
    }
    let tail: usize = if hdr[3] == atyp::IPV4 {
        4 + 2
    } else if hdr[3] == atyp::DOMAINNAME {
        match stream.read_exact(1) {
            Ok(len) => {
                assert(len@[0] == s[4]);
                assert(s.skip(4).skip(1) =~= s.skip(5));
                len[0] as usize + 2
            },
            Err(e) => {
                return Err(e);
            },
        }
    } else if hdr[3] == atyp::IPV6 {
        16 + 2
    } else {
        return Err(Error::Socks5Atyp(hdr[3]));
    };
    let ghost done = if hdr[3] == atyp::DOMAINNAME {
        5int
    } else {
        4int
    };
    assert(stream@ == s.skip(done));
    match stream.read_exact(tail) {
        Ok(_) => {
            assert(s.skip(done).skip(tail as int) =~= s.skip(done + tail));
            Ok(())
        },
        Err(e) => Err(e),
    }
}

/// How many more bytes to read of a reply, after these.
pub fn connect_reply_needs(got: &Vec<u8>) -> (r: usize)
    ensures
        r == reply_needs(got@),
{
    let n = got.len();
    if n < 4 {
        return 4 - n;
    }
    if got[0] != 0x05 || got[1] != 0x00 {
        return 0;
    }
    let total: usize = if got[3] == atyp::IPV4 {
        10
    } else if got[3] == atyp::DOMAINNAME {
        if n < 5 {
            return 1;
        }
        got[4] as usize + 7
    } else if got[3] == atyp::IPV6 {
        22
    } else {
        4
    };
    if total > n {
        total - n
    } else {
        0
    }
}

// ---- Laws ----

/// A request to an address carries the octets of the address.
pub proof fn law_request_to_address(ip: IpAddr, port: u16)
    ensures
        connect_request(ip@.text(), port) == Ok::<Seq<u8>, ErrorView>(
            seq![0x05u8, 0x01u8, 0x00u8] + ip_field(ip@) + be16(port),
        ),
{
    law_ip_text(ip);
}

/// A proxy that reads a request to a name finds name and port in it.
pub proof fn law_request_to_name(host: Text, port: u16)
    requires
        parse_ip(host) is None,
        encode_utf8(host).len() <= 255,
    ensures
        ({
            let f = connect_request(host, port)->Ok_0;
            let n = f[4] as int;
            &&& connect_request(host, port) is Ok
            &&& f.take(4) == seq![0x05u8, 0x01u8, 0x00u8, atyp::DOMAINNAME]
            &&& f.subrange(5, 5 + n) == encode_utf8(host)
            &&& f[5 + n] * 0x100 + f[6 + n] == port
            &&& f.len() == 7 + n
        }),
{
    let f = connect_request(host, port)->Ok_0;
    let n = encode_utf8(host).len() as int;
    assert(f.take(4) =~= seq![0x05u8, 0x01u8, 0x00u8, atyp::DOMAINNAME]);
    assert(f[4] == n);
    assert(f.subrange(5, 5 + n) =~= encode_utf8(host));
    assert(f[5 + n] == be16(port)[0]);
    assert(f[6 + n] == be16(port)[1]);
}

/// Once nothing is needed, what follows in the stream neither changes the verdict
/// nor is taken.
pub proof fn law_reply_decided(s: Seq<u8>, rest: Seq<u8>)
    requires
        reply_needs(s) == 0,
        s.len() == reply_len(s),
    ensures
        connect_reply(s + rest) == connect_reply(s),
        (s + rest).skip(reply_len(s + rest) as int) == rest,
{
    let t = s + rest;
    assert(forall|i: int| 0 <= i < s.len() ==> t[i] == s[i]);
    assert(t.skip(s.len() as int) =~= rest);
}

/// Reading what is needed never reads beyond the reply: the bytes that are asked
/// for belong to it.
pub proof fn law_reply_not_overread(s: Seq<u8>, more: Seq<u8>)
    requires
        s.len() <= reply_len(s),
        reply_needs(s) > 0,
        more.len() == reply_needs(s),
    ensures
        (s + more).len() <= reply_len(s + more),
        reply_needs(s + more) == 0 ==> (s + more).len() == reply_len(s + more),
{
    let t = s + more;
    assert(forall|i: int| 0 <= i < s.len() ==> t[i] == s[i]);
}

} // verus!
