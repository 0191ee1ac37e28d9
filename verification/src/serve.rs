//! How a request is answered, where the answer is a decision: the app page
//! for a single-page app, and how long the browser may keep a file.

use crate::text::{begins_with, chars_of, contains, holds, starts_with};
use vstd::prelude::*;

verus! {

/// The page a single-page app starts from.
pub const INDEX_FILE: &'static str = "index.html";

/// Where a build puts files whose name changes with their contents, so the
/// browser can keep them for as long as it likes.
pub const ASSETS: &'static str = "/assets/";

/// A year, the longest any browser is asked to keep a file.
pub const KEEP_FOR_A_YEAR: &'static str = "public, max-age=31536000, immutable";

/// The status of an answer saying there is nothing at that address.
pub const NOT_FOUND: u16 = 404;

/// The status of an answer saying the browser already has the file.
pub const NOT_MODIFIED: u16 = 304;

/// True when an address with no file behind it gets the app page instead:
/// only with nothing found, only for a page request (one that accepts
/// HTML), and never under `/assets/`, whose names carry a hash of a file's
/// contents and so are built files, never routes.
pub open spec fn app_page_instead(status: u16, accept: Option<Seq<char>>, path: Seq<char>) -> bool {
    status == NOT_FOUND && (accept matches Some(a) && holds(a, "text/html"@)) && !begins_with(path, "/assets/"@)
}

/// With `--spa`, whether an address matching no file gets index.html so
/// the app can route it. A missing script or image still gets a 404, rather
/// than HTML the browser then refuses to run. `accept` is the request's
/// `Accept` header, where it has one that is text.
pub fn serves_app_page(status: u16, accept: Option<&str>, path: &str) -> (r: bool)
    ensures
        r == app_page_instead(
            status,
            match accept {
                Some(a) => Some(a@),
                None => None,
            },
            path@,
        ),
{
    let wants_page = match accept {
        Some(a) => {
            let text = chars_of(a);
            let html = chars_of("text/html");
            contains(&text, &html)
        },
        None => false,
    };
    let address = chars_of(path);
    let assets = chars_of("/assets/");
    let could_be_a_route = !starts_with(&address, &assets);
    status == NOT_FOUND && wants_page && could_be_a_route
}

/// True for a status saying the request succeeded.
pub open spec fn success(status: u16) -> bool {
    200 <= status <= 299
}

/// What a published site tells the browser to keep: a file under
/// `/assets/` that is really there is kept for a year; everything else is
/// checked each time. "You already have it" counts as there, since the
/// browser takes the headers on that answer as the file's own.
pub open spec fn cache_policy(path: Seq<char>, status: u16) -> Seq<char> {
    if begins_with(path, "/assets/"@) && (success(status) || status == NOT_MODIFIED) {
        "public, max-age=31536000, immutable"@
    } else {
        "no-cache"@
    }
}

/// The `Cache-Control` a published site answers with. Names under
/// `/assets/` carry a hash of their contents, so the file at one of those
/// addresses never changes. Only a file that is really there: one missing
/// during a deploy would otherwise be remembered as missing for a year.
pub fn keep_hashed_assets(path: &str, status: u16) -> (r: &'static str)
    ensures
        r@ == cache_policy(path@, status),
{
    let address = chars_of(path);
    let assets = chars_of("/assets/");
    let hashed = starts_with(&address, &assets);
    let there = (200 <= status && status <= 299) || status == NOT_MODIFIED;
    if hashed && there {
        "public, max-age=31536000, immutable"
    } else {
        "no-cache"
    }
}

/// After one look for the app page: whether to say that it is missing,
/// and whether it is missing now.
pub open spec fn page_look(said_missing: bool, found: bool) -> (bool, bool) {
    (!found && !said_missing, !found)
}

/// What to do after looking for the app page to hand out: say that it is
/// missing, once each time it goes missing rather than once per address,
/// and remember whether it is missing now. `said_missing` is whether that
/// was last said without the page being found since: the banner says it for
/// a page missing at the start.
pub fn app_page_looked(said_missing: bool, found: bool) -> (r: (bool, bool))
    ensures
        r == page_look(said_missing, found),
{
    (!found && !said_missing, !found)
}

} // verus!
