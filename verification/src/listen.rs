//! Finding a port to listen on: which port to try, and what to do when the
//! system refuses one.

use crate::errors::{IoFailure, IoKind};
use crate::text::{chars_of, decimal, decimal_chars, push_all, push_str, string_of};
use vstd::prelude::*;

verus! {

/// The port tried first when none was asked for.
pub const DEFAULT_PORT: u16 = 3030;

/// Enough for a few servers left running, few enough that the address stays
/// easy to remember.
pub const PORTS_TO_TRY: u16 = 10;

/// What to do after the system refused a port.
#[derive(Debug)]
pub enum Next {
    /// Try this port.
    Try(u16),
    /// Give up, saying this.
    Fail(String),
}

/// What to do next, as plain values.
pub enum NextView {
    Try(u16),
    Fail(Seq<char>),
}

impl View for Next {
    type V = NextView;

    open spec fn view(&self) -> NextView {
        match self {
            Next::Try(p) => NextView::Try(*p),
            Next::Fail(s) => NextView::Fail(s@),
        }
    }
}

/// True when the next port is worth a try. Windows keeps whole ranges of
/// ports for itself and refuses them as forbidden rather than taken.
pub open spec fn taken(kind: IoKind) -> bool {
    kind == IoKind::AddrInUse || kind == IoKind::PermissionDenied
}

/// Whether the next port is worth a try after this refusal.
pub fn is_taken(kind: IoKind) -> (r: bool)
    ensures
        r == taken(kind),
{
    match kind {
        IoKind::AddrInUse | IoKind::PermissionDenied => true,
        _ => false,
    }
}

/// A port that cannot be had, with the one thing to do about it.
pub open spec fn unusable(what: Seq<char>) -> Seq<char> {
    what + " \u{2014} choose another one with --port"@
}

/// Adds the one thing to do about a port that cannot be had.
pub fn cannot_use(what: &Vec<char>) -> (r: String)
    ensures
        r@ == unusable(what@),
{
    let mut v: Vec<char> = Vec::new();
    push_all(&mut v, what);
    push_str(&mut v, " \u{2014} choose another one with --port");
    string_of(&v)
}

/// Says which part is wrong: the address, not the port, so a different port
/// would not help.
pub open spec fn no_such(host: Seq<char>) -> Seq<char> {
    "this machine has no address "@ + host + " \u{2014} check --host"@
}

/// That this machine has no such address.
pub fn no_such_address(host: &str) -> (r: String)
    ensures
        r@ == no_such(host@),
{
    let mut v = chars_of("this machine has no address ");
    push_str(&mut v, host);
    push_str(&mut v, " \u{2014} check --host");
    string_of(&v)
}

/// Anything the named cases do not cover: the system's own words stand,
/// with the address they are about.
pub open spec fn unlistenable(address: Seq<char>, error: Seq<char>) -> Seq<char> {
    "cannot listen on "@ + address + ": "@ + error
}

/// That the system would not listen on an address, in its own words.
pub fn cannot_listen(address: &str, error: &str) -> (r: String)
    ensures
        r@ == unlistenable(address@, error@),
{
    let mut v = chars_of("cannot listen on ");
    push_str(&mut v, address);
    push_str(&mut v, ": ");
    push_str(&mut v, error);
    string_of(&v)
}

/// The port to try first: the one asked for, or the default.
pub open spec fn first(asked: Option<u16>) -> u16 {
    match asked {
        Some(p) => p,
        None => DEFAULT_PORT,
    }
}

/// The port to try first.
pub fn first_port(asked: Option<u16>) -> (r: u16)
    ensures
        r == first(asked),
{
    match asked {
        Some(p) => p,
        None => DEFAULT_PORT,
    }
}

/// What to do after the system refused `port` with `error`. A port that was
/// asked for and cannot be had is an error: something else expects that
/// number. With none asked for, step up from the default until a free one
/// turns up, and stop after the last one worth trying. `host` and `address`
/// are the host and the address tried, as the system writes them.
pub open spec fn after_refusal(
    asked: Option<u16>,
    port: u16,
    error: IoFailure,
    host: Seq<char>,
    address: Seq<char>,
) -> NextView {
    match asked {
        Some(p) => match error.kind {
            IoKind::AddrInUse => NextView::Fail(
                unusable("port "@ + decimal(p as nat) + " is already in use"@),
            ),
            IoKind::PermissionDenied => NextView::Fail(
                unusable("the system will not give this program port "@ + decimal(p as nat)),
            ),
            IoKind::AddrNotAvailable => NextView::Fail(no_such(host)),
            _ => NextView::Fail(unlistenable(address, error.text@)),
        },
        None => if taken(error.kind) {
            if port + 1 < DEFAULT_PORT + PORTS_TO_TRY {
                NextView::Try((port + 1) as u16)
            } else {
                NextView::Fail(
                    unusable(
                        "no free port between "@ + decimal(DEFAULT_PORT as nat) + " and "@
                            + decimal((DEFAULT_PORT + PORTS_TO_TRY - 1) as nat),
                    ),
                )
            }
        } else if error.kind == IoKind::AddrNotAvailable {
            NextView::Fail(no_such(host))
        } else {
            NextView::Fail(unlistenable(address, error.text@))
        },
    }
}

/// What to do after the system refused `port`. With a port asked for, that
/// port is the only one tried; without, the ports tried stay between the
/// default and the last one worth trying.
pub fn after_refusal_of(
    asked: Option<u16>,
    port: u16,
    error: &IoFailure,
    host: &str,
    address: &str,
) -> (r: Next)
    requires
        asked is None ==> DEFAULT_PORT <= port < DEFAULT_PORT + PORTS_TO_TRY,
    ensures
        r@ == after_refusal(asked, port, *error, host@, address@),
        asked is Some ==> r is Fail,
        r matches Next::Try(next) ==> next == port + 1 && next < DEFAULT_PORT + PORTS_TO_TRY,
{
    match asked {
        Some(p) => match error.kind {
            IoKind::AddrInUse => {
                let mut v = chars_of("port ");
                let n = decimal_chars(p as u64);
                push_all(&mut v, &n);
                push_str(&mut v, " is already in use");
                Next::Fail(cannot_use(&v))
            },
            IoKind::PermissionDenied => {
                // Below 1024 on Unix, and in the ranges Windows keeps for
                // itself. "Permission denied" and a number help nobody.
                let mut v = chars_of("the system will not give this program port ");
                let n = decimal_chars(p as u64);
                push_all(&mut v, &n);
                Next::Fail(cannot_use(&v))
            },
            // A typo in --host, or an address this machine does not answer to.
            IoKind::AddrNotAvailable => Next::Fail(no_such_address(host)),
            _ => Next::Fail(cannot_listen(address, error.text.as_str())),
        },
        None => {
            if is_taken(error.kind) {
                if port + 1 < DEFAULT_PORT + PORTS_TO_TRY {
                    Next::Try(port + 1)
                } else {
                    let mut v = chars_of("no free port between ");
                    let low = decimal_chars(DEFAULT_PORT as u64);
                    push_all(&mut v, &low);
                    push_str(&mut v, " and ");
                    let high = decimal_chars((DEFAULT_PORT + PORTS_TO_TRY - 1) as u64);
                    push_all(&mut v, &high);
                    Next::Fail(cannot_use(&v))
                }
            } else {
                match error.kind {
                    IoKind::AddrNotAvailable => Next::Fail(no_such_address(host)),
                    _ => Next::Fail(cannot_listen(address, error.text.as_str())),
                }
            }
        },
    }
}

} // verus!
