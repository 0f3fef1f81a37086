//! TELNET proxy handshake: the command that asks the proxy for the destination.

use vstd::prelude::*;
use vstd::slice::slice_to_vec;
use vstd::string::*;
use vstd::utf8::encode_utf8;

use crate::config::{Config, ConfigView};
use crate::number::{decimal, decimal_of};
use crate::text::{chars_of, Text};

verus! {

/// The command template that counts where none is set.
pub const DEFAULT_COMMAND: &'static str = "telnet %h %p";

/// A template with `%h` replaced by the host and `%p` by the port.
pub open spec fn expanded(template: Text, host: Text, port: u16) -> Text
    decreases template.len(),
{
    if template.len() == 0 {
        Seq::empty()
    } else if template.len() > 1 && template[0] == '%' && template[1] == 'h' {
        host + expanded(template.skip(2), host, port)
    } else if template.len() > 1 && template[0] == '%' && template[1] == 'p' {
        decimal(port as nat) + expanded(template.skip(2), host, port)
    } else {
        seq![template[0]] + expanded(template.skip(1), host, port)
    }
}

/// The template of a configuration.
pub open spec fn template_of(cfg: ConfigView) -> Text {
    match cfg.telnet_command {
        Some(t) => t,
        None => DEFAULT_COMMAND@,
    }
}

/// Expands a command template: `%h` is the host and `%p` the port.
pub fn expand(template: &str, host: &str, port: u16) -> (r: String)
    ensures
        r@ == expanded(template@, host@, port),
{
    let v = chars_of(template);
    let n = v.len();
    let ghost t = template@;
    let ghost whole = expanded(t, host@, port);
    let mut r = String::new();
    let mut i: usize = 0;
    assert(t.skip(0) =~= t);
    assert(r@ + expanded(t.skip(0), host@, port) =~= whole);
    while i < n
        invariant
            n == v.len(),
            i <= n,
            v@ == t,
            r@ + expanded(t.skip(i as int), host@, port) == whole,
        decreases n - i,
    {
        let ghost rest = t.skip(i as int);
        let ghost before = r@;
        if i + 1 < n && v[i] == '%' && (v[i + 1] == 'h' || v[i + 1] == 'p') {
            assert(rest.skip(2) =~= t.skip(i + 2));
            if v[i + 1] == 'h' {
                r.append(host);
            } else {
                r.append(decimal_of(port as u64).as_str());
            }
            i = i + 2;
        } else {
            assert(rest.skip(1) =~= t.skip(i + 1));
            r.push(v[i]);
            i = i + 1;
        }
        assert(r@ + expanded(t.skip(i as int), host@, port) =~= before + expanded(
            rest,
            host@,
            port,
        ));
    }
    assert(t.skip(n as int) =~= Seq::<char>::empty());
    assert(r@ =~= whole);
    r
}

/// The bytes of the command.
pub open spec fn command_bytes(cfg: ConfigView) -> Seq<u8> {
    encode_utf8(expanded(template_of(cfg), cfg.dest_host, cfg.dest_port) + "\r\n"@)
}

/// The bytes that ask the proxy for the destination: the command, as a line.
pub fn begin(cfg: &Config) -> (r: Vec<u8>)
    ensures
        r@ == command_bytes(cfg@),
{
    let template = match &cfg.telnet_command {
        Some(t) => t.as_str(),
        None => DEFAULT_COMMAND,
    };
    let mut command = expand(template, cfg.dest_host.as_str(), cfg.dest_port);
    command.append("\r\n");
    slice_to_vec(command.as_str().as_bytes())
}

/// Only `%h` and `%p` are replaced: a template without `%` stays as it is.
pub proof fn law_plain_template(template: Text, host: Text, port: u16)
    requires
        forall|i: int| 0 <= i < template.len() ==> template[i] != '%',
    ensures
        expanded(template, host, port) == template,
    decreases template.len(),
{
    if template.len() > 0 {
        law_plain_template(template.skip(1), host, port);
        assert(seq![template[0]] + template.skip(1) =~= template);
    }
}

/// Host and port stand where the template says.
pub proof fn law_template(a: Text, b: Text, c: Text, host: Text, port: u16)
    requires
        forall|i: int| 0 <= i < a.len() ==> a[i] != '%',
        forall|i: int| 0 <= i < b.len() ==> b[i] != '%',
        forall|i: int| 0 <= i < c.len() ==> c[i] != '%',
    ensures
        expanded(a + "%h"@ + b + "%p"@ + c, host, port) == a + host + b + decimal(port as nat) + c,
{
    reveal_strlit("%h");
    reveal_strlit("%p");
    let end = "%p"@ + c;
    lemma_expanded_prefix(a, "%h"@ + b + end, host, port);
    assert(a + ("%h"@ + b + end) =~= a + "%h"@ + b + "%p"@ + c);
    assert(("%h"@ + b + end).skip(2) =~= b + end);
    lemma_expanded_prefix(b, end, host, port);
    assert(end.skip(2) =~= c);
    law_plain_template(c, host, port);
    assert(a + (host + (b + (decimal(port as nat) + c))) =~= a + host + b + decimal(port as nat)
        + c);
}

/// What holds no `%` is kept, and the rest is expanded.
proof fn lemma_expanded_prefix(a: Text, rest: Text, host: Text, port: u16)
    requires
        forall|i: int| 0 <= i < a.len() ==> a[i] != '%',
    ensures
        expanded(a + rest, host, port) == a + expanded(rest, host, port),
    decreases a.len(),
{
    if a.len() == 0 {
        assert(a + rest =~= rest);
        assert(a + expanded(rest, host, port) =~= expanded(rest, host, port));
    } else {
        lemma_expanded_prefix(a.skip(1), rest, host, port);
        assert((a + rest).skip(1) =~= a.skip(1) + rest);
        assert((a + rest)[0] == a[0]);
        assert(seq![a[0]] + (a.skip(1) + expanded(rest, host, port)) =~= a + expanded(
            rest,
            host,
            port,
        ));
    }
}

/// A template is expanded from its start: `%h` is the host, `%p` the port, and every
/// other character stands for itself, a `%` before anything else too.
pub proof fn law_expansion(c: char, rest: Text, host: Text, port: u16)
    ensures
        expanded(Seq::empty(), host, port) == Seq::<char>::empty(),
        expanded(seq!['%', 'h'] + rest, host, port) == host + expanded(rest, host, port),
        expanded(seq!['%', 'p'] + rest, host, port) == decimal(port as nat) + expanded(
            rest,
            host,
            port,
        ),
        !(c == '%' && rest.len() > 0 && (rest[0] == 'h' || rest[0] == 'p')) ==> expanded(
            seq![c] + rest,
            host,
            port,
        ) == seq![c] + expanded(rest, host, port),
{
    assert((seq!['%', 'h'] + rest).skip(2) =~= rest);
    assert((seq!['%', 'p'] + rest).skip(2) =~= rest);
    assert((seq![c] + rest).skip(1) =~= rest);
    if rest.len() > 0 {
        assert((seq![c] + rest)[1] == rest[0]);
    }
}

/// The command of the configuration is sent as one line; without one it is
/// `telnet host port`.
pub proof fn law_command_line(cfg: ConfigView, t: Text)
    ensures
        cfg.telnet_command == Some(t) ==> command_bytes(cfg) == encode_utf8(
            expanded(t, cfg.dest_host, cfg.dest_port) + seq!['\r', '\n'],
        ),
        cfg.telnet_command is None ==> command_bytes(cfg) == encode_utf8(
            "telnet "@ + cfg.dest_host + " "@ + decimal(cfg.dest_port as nat) + seq!['\r', '\n'],
        ),
{
    reveal_strlit("\r\n");
    assert("\r\n"@ =~= seq!['\r', '\n']);
    if cfg.telnet_command is None {
        reveal_strlit("telnet %h %p");
        reveal_strlit("telnet ");
        reveal_strlit(" ");
        reveal_strlit("%h");
        reveal_strlit("%p");
        let e = Seq::<char>::empty();
        law_template("telnet "@, " "@, e, cfg.dest_host, cfg.dest_port);
        assert("telnet %h %p"@ =~= "telnet "@ + "%h"@ + " "@ + "%p"@ + e);
        let d = decimal(cfg.dest_port as nat);
        assert("telnet "@ + cfg.dest_host + " "@ + d + e =~= "telnet "@ + cfg.dest_host + " "@ + d);
    }
}

} // verus!
