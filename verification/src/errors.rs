//! What the program says when it cannot do what was asked.
//!
//! Every failure is a sentence: what could not be done, then why. Where the
//! system's own words have a plain answer, that answer takes their place;
//! where they do not, they stand as they are, but never on their own.

use crate::text::{owned, chars_of, push_str, string_of};
use vstd::prelude::*;

verus! {

/// The kinds of refusal from the system that this program tells apart.
#[derive(Clone, Copy, Debug, PartialEq, Eq)]
pub enum IoKind {
    NotFound,
    PermissionDenied,
    NotADirectory,
    IsADirectory,
    AddrInUse,
    AddrNotAvailable,
    /// The system's catch-all kind.
    Other,
    /// Any kind not named above.
    Unlisted,
}

/// A refusal from the system, as plain values: its kind, the number the
/// system gave it where the system is a Unix (none elsewhere), and its own
/// words.
#[derive(Debug)]
pub struct IoFailure {
    pub kind: IoKind,
    pub unix_code: Option<i32>,
    pub text: String,
}

/// Why a file or directory could not be reached, in plain words.
pub open spec fn plain_reason(error: IoFailure) -> Seq<char> {
    match error.kind {
        IoKind::NotFound => "there is no such directory"@,
        IoKind::PermissionDenied => "the system will not let this program read it"@,
        IoKind::NotADirectory => "part of that path is a file, not a directory"@,
        IoKind::IsADirectory => "it is a directory, not a file"@,
        _ => if error.unix_code == Some(23i32) || error.unix_code == Some(24i32) {
            "the system has no open files left for this program \u{2014} close some programs, or raise the limit"@
        } else {
            error.text@
        },
    }
}

/// Why a directory could not be reached, in plain words. The common cases
/// are named; anything rarer keeps the system's own message.
pub fn why(error: &IoFailure) -> (r: String)
    ensures
        r@ == plain_reason(*error),
{
    match error.kind {
        IoKind::NotFound => owned("there is no such directory"),
        IoKind::PermissionDenied => owned("the system will not let this program read it"),
        // `--dir dist/index.html/js`: a name below a file.
        IoKind::NotADirectory => owned("part of that path is a file, not a directory"),
        // A file was expected and a directory found, the other way round.
        IoKind::IsADirectory => owned("it is a directory, not a file"),
        // Out of open files, by the numbers the system uses. On Linux the
        // file watchers count against the same limit.
        _ => if error.unix_code == Some(23i32) || error.unix_code == Some(24i32) {
            owned(
                "the system has no open files left for this program \u{2014} close some programs, or raise the limit",
            )
        } else {
            error.text.clone()
        },
    }
}

/// A sentence naming what was being done, then why it failed.
pub open spec fn sentence(doing: Seq<char>, why: Seq<char>) -> Seq<char> {
    doing + ": "@ + why
}

/// What was being done and why it could not be, as one sentence.
pub fn because(doing: &str, why: &str) -> (r: String)
    ensures
        r@ == sentence(doing@, why@),
{
    let mut v = chars_of(doing);
    push_str(&mut v, ": ");
    push_str(&mut v, why);
    string_of(&v)
}

/// A failure that keeps what was being done apart from why it could not
/// be: on its own it says only the first; in full, both, as one sentence.
#[derive(Debug)]
pub struct Failure {
    pub doing: String,
    pub why: String,
}

impl Failure {
    /// What could not be done, on its own.
    pub fn plain(&self) -> (r: String)
        ensures
            r@ == self.doing@,
    {
        owned(self.doing.as_str())
    }

    /// What could not be done, then why, as one sentence.
    pub fn whole(&self) -> (r: String)
        ensures
            r@ == sentence(self.doing@, self.why@),
    {
        because(self.doing.as_str(), self.why.as_str())
    }
}

/// A file or directory that could not be reached: what was being done, and
/// why it could not be, each kept as it is.
pub fn cannot_reach(doing: &str, error: &IoFailure) -> (r: Failure)
    ensures
        r.doing@ == doing@,
        r.why@ == plain_reason(*error),
{
    Failure { doing: owned(doing), why: why(error) }
}

} // verus!
