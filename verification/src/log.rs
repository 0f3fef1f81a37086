//! What is logged, and how its lines look.
//!
//! - `debug` lines go to stderr only when `-d` is set.
//! - `error` lines always go to stderr but the program does not exit.
//! - `fatal` lines go to stderr and the program exits with code 1.

use vstd::prelude::*;
use vstd::string::*;

use crate::config::Config;
use crate::text::{concat, opt_text, Text};

verus! {

/// The level that `-d` selects: errors, then debug messages, then everything.
pub open spec fn level_of(f_debug: u8) -> Text {
    if f_debug == 0 {
        "error"@
    } else if f_debug == 1 {
        "debug"@
    } else {
        "trace"@
    }
}

/// The level that `-d` selects. A filter of the environment goes before it.
pub fn level(f_debug: u8) -> (r: &'static str)
    ensures
        r@ == level_of(f_debug),
{
    match f_debug {
        0 => "error",
        1 => "debug",
        _ => "trace",
    }
}

/// The line of a debug message, where `-d` is set.
pub fn debug(cfg: &Config, message: &str) -> (r: Option<String>)
    ensures
        opt_text(r) == (if cfg@.f_debug > 0 {
            Some("[debug] "@ + message@)
        } else {
            None
        }),
{
    if cfg.f_debug > 0 {
        Some(concat("[debug] ", message))
    } else {
        None
    }
}

/// The line of an error message.
pub fn error(message: &str) -> (r: String)
    ensures
        r@ == "[error] "@ + message@,
{
    concat("[error] ", message)
}

/// The line of the message that the program exits with.
pub fn fatal(message: &str) -> (r: String)
    ensures
        r@ == "[fatal] "@ + message@,
{
    concat("[fatal] ", message)
}

// ---- Laws ----

/// Each `-d` shows more: errors alone, then debug messages, then everything.
pub proof fn law_levels(f_debug: u8)
    ensures
        level_of(0) == "error"@,
        level_of(1) == "debug"@,
        f_debug >= 2 ==> level_of(f_debug) == "trace"@,
{
}

/// A debug message is shown with `-d` only, and its line ends with it.
pub proof fn law_debug_lines(cfg: Config, message: &str, r: Option<String>)
    requires
        call_ensures(debug, (&cfg, message), r),
    ensures
        cfg.f_debug == 0 ==> r is None,
        cfg.f_debug > 0 ==> (r matches Some(s) && s@ == "[debug] "@ + message@),
{
}

/// An error and a fatal message are always shown, each with its sign before it.
pub proof fn law_error_lines(message: &str, e: String, f: String)
    requires
        call_ensures(error, (message,), e),
        call_ensures(fatal, (message,), f),
    ensures
        e@ == "[error] "@ + message@,
        f@ == "[fatal] "@ + message@,
{
}

} // verus!
