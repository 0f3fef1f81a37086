# sc — ssh-connect

`sc host port` connects its standard streams, or a local TCP port, to a TCP
destination that is reached directly or through a SOCKS4/4a/5, HTTP CONNECT or
TELNET proxy. It is made for OpenSSH's `ProxyCommand`:

```
Host *.internal.example.com
    ProxyCommand sc -S proxy.corp.example.com:1080 %h %p
```

The library under `src/` is verified with [Verus](https://github.com/verus-lang/verus):
every function states in its contract what it returns, and the laws (`law_...`)
state what holds of several functions together. The program under `app/` does the
input and output.

## Library

| Module | What it holds |
|--------|---------------|
| `cli` | the command line: flags, relay specs, destination, defaults |
| `config` | the configuration that the rest reads |
| `parameters` | `/etc/connectrc`, `~/.connectrc` and the environment |
| `services` | ports by service name |
| `direct_table` | the bypass table: networks, domains, negation, `-D` |
| `auth`, `tty` | users and passwords |
| `resolve` | the choice among looked-up addresses |
| `proxy` | the steps of opening a connection, and the time limit |
| `proxy::socks5`, `proxy::socks4`, `proxy::http`, `proxy::telnet` | the handshakes, byte by byte |
| `proxy::util` | received bytes and the lines in them |
| `relay` | one step of the relay |
| `listen` | the steps of `-p` and `-P` |
| `conn_id`, `log`, `switch_ns`, `error` | connection numbers, log lines, nameserver override, errors |
| `addr`, `number`, `text` | addresses, numbers and text, and their reading and writing |

A handshake never touches a socket. It says what to send and how many bytes to
receive, and goes on from what came: `proxy::socks5::advance` takes the stage, the
event and the configuration and gives the next step.

## What is taken on trust

- `String::push` of the standard library (`text`)
- `String::from_utf8_lossy` of the standard library (`auth`)
- `STANDARD.encode` of the `base64` crate (`proxy::http`)

## Program

`app/` reads the files and the environment, opens sockets, runs the askpass
program, switches the terminal's echo, and logs. It asks the library what to do
next and does it.
