//! Global configuration and parsed state.
//!
//! All runtime options live here. The struct is built once by `cli::parse`
//! and then read by the rest of the program.

use vstd::prelude::*;
use vstd::string::*;

use crate::addr::Ipv4Addr;
use crate::text::{chars_of, clone_opt, is_text, lowered, opt_text, to_lower, Text};

verus! {

/// Address-family selection. `--family v4|v6|any`.
#[derive(Debug, Clone, Copy, PartialEq, Eq, Structural, Default)]
pub enum Family {
    #[default]
    Any,
    V4,
    V6,
}

/// The family that a word names, in any case.
pub open spec fn family_of(s: Text) -> Option<Family> {
    let w = lowered(s);
    if w == "any"@ {
        Some(Family::Any)
    } else if w == "v4"@ || w == "ipv4"@ || w == "4"@ {
        Some(Family::V4)
    } else if w == "v6"@ || w == "ipv6"@ || w == "6"@ {
        Some(Family::V6)
    } else {
        None
    }
}

impl Family {
    /// Reads the name of a family.
    pub fn from_str(s: &str) -> (r: Result<Family, ()>)
        ensures
            r == (match family_of(s@) {
                Some(f) => Ok::<Family, ()>(f),
                None => Err::<Family, ()>(()),
            }),
    {
        let v = chars_of(s);
        let w = to_lower(v.as_slice());
        if is_text(w.as_slice(), "any") {
            Ok(Family::Any)
        } else if is_text(w.as_slice(), "v4") || is_text(w.as_slice(), "ipv4") || is_text(
            w.as_slice(),
            "4",
        ) {
            Ok(Family::V4)
        } else if is_text(w.as_slice(), "v6") || is_text(w.as_slice(), "ipv6") || is_text(
            w.as_slice(),
            "6",
        ) {
            Ok(Family::V6)
        } else {
            Err(())
        }
    }
}

/// The proxy method selected for this invocation.
#[derive(Debug, Clone, Copy, PartialEq, Eq, Structural)]
pub enum ProxyMethod {
    Undecided,
    Direct,
    Socks,
    Http,
    Telnet,
}

impl ProxyMethod {
    /// The name that messages use.
    pub open spec fn label(self) -> Text {
        match self {
            ProxyMethod::Undecided => "UNDECIDED"@,
            ProxyMethod::Direct => "DIRECT"@,
            ProxyMethod::Socks => "SOCKS"@,
            ProxyMethod::Http => "HTTP"@,
            ProxyMethod::Telnet => "TELNET"@,
        }
    }

    /// The method goes through a relay host.
    pub open spec fn is_proxy(self) -> bool {
        self == ProxyMethod::Socks || self == ProxyMethod::Http || self == ProxyMethod::Telnet
    }

    /// The name that messages use.
    pub fn name(self) -> (r: &'static str)
        ensures
            r@ == self.label(),
    {
        match self {
            ProxyMethod::Undecided => "UNDECIDED",
            ProxyMethod::Direct => "DIRECT",
            ProxyMethod::Socks => "SOCKS",
            ProxyMethod::Http => "HTTP",
            ProxyMethod::Telnet => "TELNET",
        }
    }
}

/// DNS resolution mode for the SOCKS path. `Both` is parsed but treated as
/// `Remote`.
#[derive(Debug, Clone, Copy, PartialEq, Eq, Structural, Default)]
pub enum ResolveMode {
    #[default]
    Unknown,
    Local,
    Remote,
    Both,
}

/// The mode that a word names, in any case.
pub open spec fn resolve_mode_of(s: Text) -> Option<ResolveMode> {
    let w = lowered(s);
    if w == "local"@ {
        Some(ResolveMode::Local)
    } else if w == "remote"@ {
        Some(ResolveMode::Remote)
    } else if w == "both"@ {
        Some(ResolveMode::Both)
    } else {
        None
    }
}

impl ResolveMode {
    /// The name that messages use.
    pub open spec fn label(self) -> Text {
        match self {
            ResolveMode::Unknown => "UNKNOWN"@,
            ResolveMode::Local => "LOCAL"@,
            ResolveMode::Remote => "REMOTE"@,
            ResolveMode::Both => "BOTH"@,
        }
    }

    /// Reads the name of a mode.
    pub fn from_str(s: &str) -> (r: Result<ResolveMode, ()>)
        ensures
            r == (match resolve_mode_of(s@) {
                Some(m) => Ok::<ResolveMode, ()>(m),
                None => Err::<ResolveMode, ()>(()),
            }),
    {
        let v = chars_of(s);
        let w = to_lower(v.as_slice());
        if is_text(w.as_slice(), "local") {
            Ok(ResolveMode::Local)
        } else if is_text(w.as_slice(), "remote") {
            Ok(ResolveMode::Remote)
        } else if is_text(w.as_slice(), "both") {
            Ok(ResolveMode::Both)
        } else {
            Err(())
        }
    }

    /// The name that messages use.
    pub fn name(self) -> (r: &'static str)
        ensures
            r@ == self.label(),
    {
        match self {
            ResolveMode::Unknown => "UNKNOWN",
            ResolveMode::Local => "LOCAL",
            ResolveMode::Remote => "REMOTE",
            ResolveMode::Both => "BOTH",
        }
    }
}

/// Where the local side of the relay comes from.
#[derive(Debug, Clone, Copy, PartialEq, Eq, Structural)]
pub enum LocalType {
    /// stdin / stdout (the default).
    Stdio,
    /// Listen on the given TCP port and accept one connection per cycle.
    Socket(u16),
}

impl LocalType {
    /// The name that messages use.
    pub open spec fn label(self) -> Text {
        match self {
            LocalType::Stdio => "stdio"@,
            LocalType::Socket(_) => "socket"@,
        }
    }

    /// The name that messages use.
    pub fn name(self) -> (r: &'static str)
        ensures
            r@ == self.label(),
    {
        match self {
            LocalType::Stdio => "stdio",
            LocalType::Socket(_) => "socket",
        }
    }
}

/// Proxy authentication state, for HTTP CONNECT retries.
#[derive(Debug, Clone, Copy, PartialEq, Eq, Structural, Default)]
pub enum ProxyAuthType {
    #[default]
    NoAuth,
    Basic,
}

/// Parsed configuration. Built by `cli::parse`.
#[derive(Debug)]
pub struct Config {
    pub relay_method: ProxyMethod,
    pub relay_host: Option<String>,
    pub relay_port: u16,
    pub relay_user: Option<String>,
    /// 4 or 5.
    pub socks_version: u8,
    pub socks_resolve: ResolveMode,
    pub socks_ns: Option<Ipv4Addr>,
    pub socks5_auth: Option<String>,
    pub dest_host: String,
    pub dest_port: u16,
    pub local_type: LocalType,
    pub f_hold_session: bool,
    pub f_auto_direct: bool,
    pub connect_timeout: u32,
    pub read_timeout_ms: u64,
    pub f_debug: u8,
    pub family: Family,
    pub telnet_command: Option<String>,
    pub proxy_auth: ProxyAuthType,
}

/// A configuration with its texts as sequences of characters.
pub struct ConfigView {
    pub relay_method: ProxyMethod,
    pub relay_host: Option<Text>,
    pub relay_port: u16,
    pub relay_user: Option<Text>,
    pub socks_version: u8,
    pub socks_resolve: ResolveMode,
    pub socks_ns: Option<Ipv4Addr>,
    pub socks5_auth: Option<Text>,
    pub dest_host: Text,
    pub dest_port: u16,
    pub local_type: LocalType,
    pub f_hold_session: bool,
    pub f_auto_direct: bool,
    pub connect_timeout: u32,
    pub read_timeout_ms: u64,
    pub f_debug: u8,
    pub family: Family,
    pub telnet_command: Option<Text>,
    pub proxy_auth: ProxyAuthType,
}

impl View for Config {
    type V = ConfigView;

    open spec fn view(&self) -> ConfigView {
        ConfigView {
            relay_method: self.relay_method,
            relay_host: opt_text(self.relay_host),
            relay_port: self.relay_port,
            relay_user: opt_text(self.relay_user),
            socks_version: self.socks_version,
            socks_resolve: self.socks_resolve,
            socks_ns: self.socks_ns,
            socks5_auth: opt_text(self.socks5_auth),
            dest_host: self.dest_host@,
            dest_port: self.dest_port,
            local_type: self.local_type,
            f_hold_session: self.f_hold_session,
            f_auto_direct: self.f_auto_direct,
            connect_timeout: self.connect_timeout,
            read_timeout_ms: self.read_timeout_ms,
            f_debug: self.f_debug,
            family: self.family,
            telnet_command: opt_text(self.telnet_command),
            proxy_auth: self.proxy_auth,
        }
    }
}

/// The configuration before any option is read.
pub open spec fn initial_config() -> ConfigView {
    ConfigView {
        relay_method: ProxyMethod::Undecided,
        relay_host: None,
        relay_port: 0,
        relay_user: None,
        socks_version: 5,
        socks_resolve: ResolveMode::Unknown,
        socks_ns: None,
        socks5_auth: None,
        dest_host: Seq::empty(),
        dest_port: 0,
        local_type: LocalType::Stdio,
        f_hold_session: false,
        f_auto_direct: false,
        connect_timeout: 0,
        read_timeout_ms: 0,
        f_debug: 0,
        family: Family::Any,
        telnet_command: None,
        proxy_auth: ProxyAuthType::NoAuth,
    }
}

/// The port of a proxy that names none.
pub open spec fn method_port(method: ProxyMethod) -> u16 {
    match method {
        ProxyMethod::Socks => 1080,
        ProxyMethod::Http => 80,
        ProxyMethod::Telnet => 23,
        _ => 0,
    }
}

/// The resolve mode of a SOCKS version: the client resolves for version 4, the
/// proxy for the others.
pub open spec fn version_resolve(version: u8) -> ResolveMode {
    if version == 4 {
        ResolveMode::Local
    } else {
        ResolveMode::Remote
    }
}

impl Default for Config {
    fn default() -> (r: Config)
        ensures
            r@ == initial_config(),
    {
        Config {
            relay_method: ProxyMethod::Undecided,
            relay_host: None,
            relay_port: 0,
            relay_user: None,
            socks_version: 5,
            socks_resolve: ResolveMode::Unknown,
            socks_ns: None,
            socks5_auth: None,
            dest_host: String::new(),
            dest_port: 0,
            local_type: LocalType::Stdio,
            f_hold_session: false,
            f_auto_direct: false,
            connect_timeout: 0,
            read_timeout_ms: 0,
            f_debug: 0,
            family: Family::Any,
            telnet_command: None,
            proxy_auth: ProxyAuthType::NoAuth,
        }
    }
}

impl Clone for Config {
    fn clone(&self) -> (r: Config)
        ensures
            r@ == self@,
    {
        Config {
            relay_method: self.relay_method,
            relay_host: clone_opt(&self.relay_host),
            relay_port: self.relay_port,
            relay_user: clone_opt(&self.relay_user),
            socks_version: self.socks_version,
            socks_resolve: self.socks_resolve,
            socks_ns: self.socks_ns,
            socks5_auth: clone_opt(&self.socks5_auth),
            dest_host: self.dest_host.clone(),
            dest_port: self.dest_port,
            local_type: self.local_type,
            f_hold_session: self.f_hold_session,
            f_auto_direct: self.f_auto_direct,
            connect_timeout: self.connect_timeout,
            read_timeout_ms: self.read_timeout_ms,
            f_debug: self.f_debug,
            family: self.family,
            telnet_command: clone_opt(&self.telnet_command),
            proxy_auth: self.proxy_auth,
        }
    }
}

impl Config {
    /// The configuration before any option is read.
    pub fn new() -> (r: Config)
        ensures
            r@ == initial_config(),
    {
        Config::default()
    }

    /// Default port for a given proxy method.
    pub fn default_port(method: ProxyMethod) -> (r: u16)
        ensures
            r == method_port(method),
    {
        match method {
            ProxyMethod::Socks => 1080,
            ProxyMethod::Http => 80,
            ProxyMethod::Telnet => 23,
            _ => 0,
        }
    }

    /// Default resolve mode for a SOCKS version.
    pub fn default_resolve(socks_version: u8) -> (r: ResolveMode)
        ensures
            r == version_resolve(socks_version),
    {
        match socks_version {
            5 => ResolveMode::Remote,
            4 => ResolveMode::Local,
            _ => ResolveMode::Remote,
        }
    }

    /// Whether the remote session outlives a local connection.
    pub fn hold_session(&self) -> (r: bool)
        ensures
            r == self@.f_hold_session,
    {
        self.f_hold_session
    }

    /// How often `-d` was given.
    pub fn debug(&self) -> (r: u8)
        ensures
            r == self@.f_debug,
    {
        self.f_debug
    }
}

// ---- Laws ----

/// A proxy that names no port is reached at the usual port of its protocol, and only a
/// proxy has one.
pub proof fn law_usual_ports(method: ProxyMethod)
    ensures
        method_port(ProxyMethod::Socks) == 1080,
        method_port(ProxyMethod::Http) == 80,
        method_port(ProxyMethod::Telnet) == 23,
        method.is_proxy() <==> method_port(method) != 0,
{
}

/// The name of a setting tells it apart from the others.
pub proof fn law_labels(a: ProxyMethod, b: ProxyMethod, m: ResolveMode, n: ResolveMode, port: u16)
    ensures
        a.label() == b.label() ==> a == b,
        m.label() == n.label() ==> m == n,
        LocalType::Socket(port).label() != LocalType::Stdio.label(),
{
    reveal_strlit("UNDECIDED");
    reveal_strlit("DIRECT");
    reveal_strlit("SOCKS");
    reveal_strlit("HTTP");
    reveal_strlit("TELNET");
    reveal_strlit("UNKNOWN");
    reveal_strlit("LOCAL");
    reveal_strlit("REMOTE");
    reveal_strlit("BOTH");
    reveal_strlit("stdio");
    reveal_strlit("socket");
    assert("UNDECIDED"@[0] == 'U' && "DIRECT"@[0] == 'D' && "SOCKS"@[0] == 'S' && "HTTP"@[0] == 'H'
        && "TELNET"@[0] == 'T');
    assert("UNKNOWN"@[0] == 'U' && "LOCAL"@[0] == 'L' && "REMOTE"@[0] == 'R' && "BOTH"@[0] == 'B');
    assert("stdio"@.len() != "socket"@.len());
}

/// The name of a resolve mode is read back as that mode, in lower case too.
pub proof fn law_mode_names(m: ResolveMode)
    requires
        m != ResolveMode::Unknown,
    ensures
        resolve_mode_of(m.label()) == Some(m),
        resolve_mode_of(lowered(m.label())) == Some(m),
        resolve_mode_of(ResolveMode::Unknown.label()) is None,
{
    reveal_strlit("UNKNOWN");
    reveal_strlit("LOCAL");
    reveal_strlit("REMOTE");
    reveal_strlit("BOTH");
    reveal_strlit("local");
    reveal_strlit("remote");
    reveal_strlit("both");
    assert(lowered("LOCAL"@) =~= "local"@);
    assert(lowered("REMOTE"@) =~= "remote"@);
    assert(lowered("BOTH"@) =~= "both"@);
    assert(lowered("local"@) =~= "local"@);
    assert(lowered("remote"@) =~= "remote"@);
    assert(lowered("both"@) =~= "both"@);
    assert("local"@[0] == 'l' && "remote"@[0] == 'r' && "both"@[0] == 'b');
    assert(lowered("UNKNOWN"@)[0] == 'u');
}

} // verus!
