//! `sc` — ssh-connect: a SOCKS4/4a/5, HTTP CONNECT, and TELNET proxy relay.
//!
//! The program forwards its standard streams, or a local TCP connection, to a
//! destination that is reached through a proxy. This library holds what it
//! decides and computes: the command line, the parameter files, the bypass table,
//! the bytes of the handshakes and the steps of the relay. Sockets, terminals and
//! processes are the program's.

pub mod addr;
pub mod auth;
pub mod cli;
pub mod config;
pub mod conn_id;
pub mod direct_table;
pub mod error;
pub mod laws;
pub mod listen;
pub mod log;
pub mod number;
pub mod parameters;
pub mod proxy;
pub mod relay;
pub mod resolve;
pub mod services;
pub mod switch_ns;
pub mod text;
pub mod tty;

pub use error::{Error, Result};
