//! What differs from one system to the next: which characters part the
//! directories of a path.

use vstd::prelude::*;

verus! {

/// `std::path::is_separator`: whether `c` parts one directory from the next
/// on the system this was built for. Its documentation gives `/` as one on
/// every system; which others there are depends on the system, so nothing
/// more is stated.
#[verifier::external_body]
fn is_path_separator(c: char) -> (r: bool)
    ensures
        c == '/' ==> r,
{
    std::path::is_separator(c)
}

/// The path rules of a system. `/` parts directories everywhere; Windows
/// reads `\` that way too, and elsewhere it is an ordinary character.
#[derive(Clone, Copy, Debug, PartialEq, Eq)]
pub struct Platform {
    pub backslash_parts_paths: bool,
}

impl Platform {
    /// The rules of the system this runs on.
    pub fn here() -> (p: Platform) {
        Platform { backslash_parts_paths: is_path_separator('\\') }
    }

    /// True for a character that parts the directories of a path.
    pub open spec fn parts(self, c: char) -> bool {
        c == '/' || (self.backslash_parts_paths && c == '\\')
    }

    /// Whether `c` parts the directories of a path.
    pub fn is_separator(&self, c: char) -> (r: bool)
        ensures
            r == self.parts(c),
    {
        c == '/' || (self.backslash_parts_paths && c == '\\')
    }
}

} // verus!
