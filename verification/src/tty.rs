//! Terminal no-echo password input: what is made of the bytes that were typed.
//!
//! Opening the terminal and switching its echo is the caller's; what came of it
//! is handed to [`tty_readpass`].

use vstd::prelude::*;
use vstd::string::*;

use crate::error::{Error, ErrorView, Result};
use crate::proxy::util::{
    is_line, latin1, law_line_round_trip, lemma_line_bytes, lemma_line_end_at, lemma_line_text,
    line_end, line_text, read_crlf_line, Incoming, CR, LF,
};
use crate::text::{concat, Text};

verus! {

/// The step in which the terminal failed.
#[derive(Debug, Clone, Copy, PartialEq, Eq, Structural)]
pub enum TtyStep {
    Open,
    GetAttributes,
    SetAttributes,
    RestoreAttributes,
}

impl TtyStep {
    /// The start of the message.
    pub open spec fn label(self) -> Text {
        match self {
            TtyStep::Open => "open /dev/tty: "@,
            TtyStep::GetAttributes => "tcgetattr: "@,
            TtyStep::SetAttributes => "tcsetattr: "@,
            TtyStep::RestoreAttributes => "tcsetattr restore: "@,
        }
    }
}

/// The terminal failed in a step; the text is the system's.
#[derive(Debug)]
pub struct TtyFailure {
    pub step: TtyStep,
    pub reason: String,
}

/// Read a password from what was typed on the controlling terminal up to its end
/// or an error: the first line, without `\r` and `\n`.
pub fn tty_readpass(typed: std::result::Result<Vec<u8>, TtyFailure>) -> (r: Result<String>)
    ensures
        typed matches Ok(b) ==> (r matches Ok(p) && p@ == line_text(b@.take(line_end(b@)))),
        typed matches Err(f) ==> (r matches Err(e) && e@ == ErrorView::Config(
            f.step.label() + f.reason@,
        )),
{
    match typed {
        Ok(b) => {
            let mut incoming = Incoming::new(b);
            let mut line = String::new();
            match read_crlf_line(&mut incoming, &mut line) {
                Ok(_) => Ok(line),
                Err(e) => Err(e),
            }
        },
        Err(f) => {
            let label = match f.step {
                TtyStep::Open => "open /dev/tty: ",
                TtyStep::GetAttributes => "tcgetattr: ",
                TtyStep::SetAttributes => "tcsetattr: ",
                TtyStep::RestoreAttributes => "tcsetattr restore: ",
            };
            Err(Error::Config(concat(label, f.reason.as_str())))
        },
    }
}

// ---- Laws ----

/// A password that is typed and ended with the enter key is read as it was typed, and
/// what was typed behind it is of no account; one that is not ended counts too.
pub proof fn law_typed_password(
    t: Text,
    rest: Seq<u8>,
    b: Vec<u8>,
    r: Result<String>,
    c: Vec<u8>,
    s: Result<String>,
)
    requires
        is_line(t),
        b@ == latin1(t) + seq![0x0Du8, 0x0Au8] + rest,
        call_ensures(tty_readpass, (Ok(b),), r),
        c@ == latin1(t),
        call_ensures(tty_readpass, (Ok(c),), s),
    ensures
        r matches Ok(p) && p@ == t,
        s matches Ok(p) && p@ == t,
{
    law_line_round_trip(t, rest);
    assert(b@ =~= latin1(t) + seq![CR, LF] + rest);
    lemma_line_bytes(t);
    lemma_line_end_at(c@, t.len() as int);
    assert(c@.take(t.len() as int) =~= c@);
    lemma_line_text(t);
}

/// A terminal that fails is reported with the step that failed and the reason.
pub proof fn law_terminal_fails(f: TtyFailure, r: Result<String>)
    requires
        call_ensures(tty_readpass, (Err(f),), r),
    ensures
        r matches Err(e) && e@ == ErrorView::Config(
            (match f.step {
                TtyStep::Open => "open /dev/tty: "@,
                TtyStep::GetAttributes => "tcgetattr: "@,
                TtyStep::SetAttributes => "tcsetattr: "@,
                TtyStep::RestoreAttributes => "tcsetattr restore: "@,
            }) + f.reason@,
        ),
{
}

} // verus!
