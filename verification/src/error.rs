//! Crate-wide error type.

use vstd::prelude::*;
use vstd::string::*;

use crate::number::{decimal, decimal_of, hex_byte, hex_byte_of};
use crate::text::{concat, Text};

verus! {

/// Convenience alias for `Result<T, Error>`.
pub type Result<T> = std::result::Result<T, Error>;

/// All errors that can occur in `sc`: protocol reply codes, HTTP status codes,
/// configuration problems and failed input or output.
#[derive(Debug)]
pub enum Error {
    /// Input or output failed; the text is the system's.
    Io(String),
    Config(String),
    Auth(String),
    Dns(String),
    Socks5Reply(u8),
    Socks5Atyp(u8),
    Socks5NoAuth,
    Socks5UnsupportedMethod(u8),
    Socks5AuthFailed,
    Socks4Reply(u8),
    HttpStatus(u16),
    Http(&'static str),
    Telnet(String),
    BadDefaultPort,
    UnknownOption(char),
    Usage(String),
    Todo(&'static str),
    /// One direction of the relay was silent for so many milliseconds.
    IdleTimeout(u64),
}

/// An error with its texts as sequences of characters.
pub enum ErrorView {
    Io(Text),
    Config(Text),
    Auth(Text),
    Dns(Text),
    Socks5Reply(u8),
    Socks5Atyp(u8),
    Socks5NoAuth,
    Socks5UnsupportedMethod(u8),
    Socks5AuthFailed,
    Socks4Reply(u8),
    HttpStatus(u16),
    Http(Text),
    Telnet(Text),
    BadDefaultPort,
    UnknownOption(char),
    Usage(Text),
    Todo(Text),
    IdleTimeout(u64),
}

impl View for Error {
    type V = ErrorView;

    open spec fn view(&self) -> ErrorView {
        match self {
            Error::Io(s) => ErrorView::Io(s@),
            Error::Config(s) => ErrorView::Config(s@),
            Error::Auth(s) => ErrorView::Auth(s@),
            Error::Dns(s) => ErrorView::Dns(s@),
            Error::Socks5Reply(b) => ErrorView::Socks5Reply(*b),
            Error::Socks5Atyp(b) => ErrorView::Socks5Atyp(*b),
            Error::Socks5NoAuth => ErrorView::Socks5NoAuth,
            Error::Socks5UnsupportedMethod(b) => ErrorView::Socks5UnsupportedMethod(*b),
            Error::Socks5AuthFailed => ErrorView::Socks5AuthFailed,
            Error::Socks4Reply(b) => ErrorView::Socks4Reply(*b),
            Error::HttpStatus(n) => ErrorView::HttpStatus(*n),
            Error::Http(s) => ErrorView::Http(s@),
            Error::Telnet(s) => ErrorView::Telnet(s@),
            Error::BadDefaultPort => ErrorView::BadDefaultPort,
            Error::UnknownOption(c) => ErrorView::UnknownOption(*c),
            Error::Usage(s) => ErrorView::Usage(s@),
            Error::Todo(s) => ErrorView::Todo(s@),
            Error::IdleTimeout(ms) => ErrorView::IdleTimeout(*ms),
        }
    }
}

impl ErrorView {
    /// What the user is told.
    pub open spec fn message(self) -> Text {
        match self {
            ErrorView::Io(s) => "io: "@ + s,
            ErrorView::Config(s) => "config: "@ + s,
            ErrorView::Auth(s) => "auth: "@ + s,
            ErrorView::Dns(s) => "DNS: "@ + s,
            ErrorView::Socks5Reply(b) => "SOCKS5 reply code 0x"@ + hex_byte(b),
            ErrorView::Socks5Atyp(b) => "SOCKS5 ATYP 0x"@ + hex_byte(b),
            ErrorView::Socks5NoAuth => "SOCKS5: no auth method accepted"@,
            ErrorView::Socks5UnsupportedMethod(b) => "SOCKS5: unsupported auth method 0x"@
                + hex_byte(b),
            ErrorView::Socks5AuthFailed => "SOCKS5 authentication failed"@,
            ErrorView::Socks4Reply(b) => "SOCKS4 reply code "@ + decimal(b as nat),
            ErrorView::HttpStatus(n) => "HTTP status "@ + decimal(n as nat),
            ErrorView::Http(s) => "HTTP: "@ + s,
            ErrorView::Telnet(s) => "telnet: "@ + s,
            ErrorView::BadDefaultPort => "connect-NNN basename port invalid"@,
            ErrorView::UnknownOption(c) => "unknown option: -"@.push(c),
            ErrorView::Usage(s) => "usage: "@ + s,
            ErrorView::Todo(s) => "not yet implemented: "@ + s,
            ErrorView::IdleTimeout(ms) => "idle timeout after "@ + decimal(ms as nat) + "ms"@,
        }
    }
}

impl Error {
    /// What the user is told.
    pub fn message(&self) -> (r: String)
        ensures
            r@ == self@.message(),
    {
        match self {
            Error::Io(s) => concat("io: ", s.as_str()),
            Error::Config(s) => concat("config: ", s.as_str()),
            Error::Auth(s) => concat("auth: ", s.as_str()),
            Error::Dns(s) => concat("DNS: ", s.as_str()),
            Error::Socks5Reply(b) => concat("SOCKS5 reply code 0x", hex_byte_of(*b).as_str()),
            Error::Socks5Atyp(b) => concat("SOCKS5 ATYP 0x", hex_byte_of(*b).as_str()),
            Error::Socks5NoAuth => "SOCKS5: no auth method accepted".to_owned(),
            Error::Socks5UnsupportedMethod(b) => concat(
                "SOCKS5: unsupported auth method 0x",
                hex_byte_of(*b).as_str(),
            ),
            Error::Socks5AuthFailed => "SOCKS5 authentication failed".to_owned(),
            Error::Socks4Reply(b) => concat("SOCKS4 reply code ", decimal_of(*b as u64).as_str()),
            Error::HttpStatus(n) => concat("HTTP status ", decimal_of(*n as u64).as_str()),
            Error::Http(s) => concat("HTTP: ", s),
            Error::Telnet(s) => concat("telnet: ", s.as_str()),
            Error::BadDefaultPort => "connect-NNN basename port invalid".to_owned(),
            Error::UnknownOption(c) => {
                let mut r = "unknown option: -".to_owned();
                r.push(*c);
                r
            },
            Error::Usage(s) => concat("usage: ", s.as_str()),
            Error::Todo(s) => concat("not yet implemented: ", s),
            Error::IdleTimeout(ms) => {
                let mut r = concat("idle timeout after ", decimal_of(*ms).as_str());
                r.append("ms");
                r
            },
        }
    }
}

// ---- Laws ----

/// What the user is told names the kind of the error and then what it carries.
pub proof fn law_messages(s: Text, b: u8, n: u16, ms: u64, c: char)
    ensures
        ErrorView::Io(s).message() == "io: "@ + s,
        ErrorView::Config(s).message() == "config: "@ + s,
        ErrorView::Auth(s).message() == "auth: "@ + s,
        ErrorView::Dns(s).message() == "DNS: "@ + s,
        ErrorView::Http(s).message() == "HTTP: "@ + s,
        ErrorView::Telnet(s).message() == "telnet: "@ + s,
        ErrorView::Usage(s).message() == "usage: "@ + s,
        ErrorView::Todo(s).message() == "not yet implemented: "@ + s,
        ErrorView::Socks5Reply(b).message() == "SOCKS5 reply code 0x"@ + hex_byte(b),
        ErrorView::Socks5Atyp(b).message() == "SOCKS5 ATYP 0x"@ + hex_byte(b),
        ErrorView::Socks5UnsupportedMethod(b).message() == "SOCKS5: unsupported auth method 0x"@
            + hex_byte(b),
        ErrorView::Socks5NoAuth.message() == "SOCKS5: no auth method accepted"@,
        ErrorView::Socks5AuthFailed.message() == "SOCKS5 authentication failed"@,
        ErrorView::Socks4Reply(b).message() == "SOCKS4 reply code "@ + decimal(b as nat),
        ErrorView::HttpStatus(n).message() == "HTTP status "@ + decimal(n as nat),
        ErrorView::BadDefaultPort.message() == "connect-NNN basename port invalid"@,
        ErrorView::UnknownOption(c).message() == "unknown option: -"@ + seq![c],
        ErrorView::IdleTimeout(ms).message() == "idle timeout after "@ + decimal(ms as nat)
            + "ms"@,
{
    assert("unknown option: -"@.push(c) =~= "unknown option: -"@ + seq![c]);
}

} // verus!
