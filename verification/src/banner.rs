//! What the server says on the way up.

use crate::listen::DEFAULT_PORT;
use crate::text::{chars_of, decimal, decimal_chars, owned, push_all, push_str, string_of};
use crate::watch::POLL_INTERVAL;
use crate::browser::views;
use vstd::prelude::*;

verus! {

const BLUE: &'static str = "\x1b[94m";
const RESET: &'static str = "\x1b[0m";
const RULE: &'static str = "-----------------------------------------------";

/// Fits the longest label, so the colons line up.
pub const LABEL_WIDTH: usize = 15;

/// What was asked for on the command line, as far as the banner tells it.
#[derive(Clone, Copy, Debug)]
pub struct Settings {
    pub port: Option<u16>,
    pub spa: bool,
    pub no_reload: bool,
    pub poll: bool,
    pub cache_assets: bool,
}

/// An address the server can listen on.
#[derive(Clone, Copy, Debug, PartialEq, Eq, Structural)]
pub enum Host {
    V4(u8, u8, u8, u8),
    V6(u16, u16, u16, u16, u16, u16, u16, u16),
}

/// The address the server is listening on: the host, the port, and the
/// whole address as the system writes it.
#[derive(Debug)]
pub struct Bound {
    pub host: Host,
    pub port: u16,
    pub shown: String,
}

/// True for the hosts a browser reaches by the name `localhost`: 0.0.0.0
/// and `::` mean every network interface, which a browser cannot open, and
/// 127.0.0.1 and ::1 are localhost itself. Nothing else: 127.0.0.2 is
/// loopback too, but the name does not lead there.
pub open spec fn is_localhost(host: Host) -> bool {
    host == Host::V4(0, 0, 0, 0) || host == Host::V4(127, 0, 0, 1)
        || host == Host::V6(0, 0, 0, 0, 0, 0, 0, 0) || host == Host::V6(0, 0, 0, 0, 0, 0, 0, 1)
}

/// The host and port of the address a browser can open.
pub open spec fn authority_of(bound: Bound) -> Seq<char> {
    if is_localhost(bound.host) {
        "localhost:"@ + decimal(bound.port as nat)
    } else {
        bound.shown@
    }
}

/// The host and port of that address. 0.0.0.0 and [::] mean every network
/// interface, which a browser cannot open, so those become localhost. So do
/// 127.0.0.1 and ::1, and nothing else.
pub fn authority(bound: &Bound) -> (r: String)
    ensures
        r@ == authority_of(*bound),
{
    let local = bound.host == Host::V4(0, 0, 0, 0) || bound.host == Host::V4(127, 0, 0, 1)
        || bound.host == Host::V6(0, 0, 0, 0, 0, 0, 0, 0) || bound.host == Host::V6(0, 0, 0, 0, 0, 0, 0, 1);
    if local {
        let mut v = chars_of("localhost:");
        let n = decimal_chars(bound.port as u64);
        push_all(&mut v, &n);
        string_of(&v)
    } else {
        bound.shown.clone()
    }
}

/// The address a browser can open.
pub open spec fn url_of(bound: Bound) -> Seq<char> {
    "http://"@ + authority_of(bound)
}

/// The address a browser can open.
pub fn url(bound: &Bound) -> (r: String)
    ensures
        r@ == url_of(*bound),
{
    let mut v = chars_of("http://");
    let a = authority(bound);
    push_str(&mut v, a.as_str());
    string_of(&v)
}

/// `label` with spaces after it up to the label width.
pub open spec fn padded(label: Seq<char>) -> Seq<char> {
    if label.len() < LABEL_WIDTH {
        label + Seq::new((LABEL_WIDTH - label.len()) as nat, |i: int| ' ')
    } else {
        label
    }
}

/// One row of the banner: the label, padded so the colons line up, and the
/// value in colour.
pub open spec fn row_of(label: Seq<char>, value: Seq<char>) -> Seq<char> {
    "  "@ + padded(label) + ": "@ + "\x1b[94m"@ + value + "\x1b[0m"@
}

/// One row of the banner.
pub fn row(label: &str, value: &str) -> (r: String)
    ensures
        r@ == row_of(label@, value@),
{
    let mut v = chars_of("  ");
    let name = chars_of(label);
    let ghost start = v@;
    push_all(&mut v, &name);
    let mut k = name.len();
    while k < LABEL_WIDTH
        invariant
            name.len() <= k <= LABEL_WIDTH || (k == name.len() && name.len() >= LABEL_WIDTH),
            v@ == start + name@ + Seq::new((k - name.len()) as nat, |i: int| ' '),
        decreases LABEL_WIDTH - k,
    {
        let ghost before = v@;
        v.push(' ');
        assert(Seq::new((k + 1 - name.len()) as nat, |i: int| ' ') =~= Seq::new((k - name.len()) as nat, |i: int| ' ').push(' '));
        assert(v@ =~= start + name@ + Seq::new((k + 1 - name.len()) as nat, |i: int| ' '));
        k = k + 1;
    }
    proof {
        if name.len() >= LABEL_WIDTH {
            assert(Seq::new(0, |i: int| ' ') =~= Seq::<char>::empty());
            assert(v@ =~= start + name@);
        } else {
            assert(k == LABEL_WIDTH);
        }
        assert(v@ =~= "  "@ + padded(label@));
    }
    push_str(&mut v, ": ");
    push_str(&mut v, BLUE);
    push_str(&mut v, value);
    push_str(&mut v, RESET);
    string_of(&v)
}

/// "on" or "off".
pub open spec fn on_off_words(enabled: bool) -> Seq<char> {
    if enabled { "on"@ } else { "off"@ }
}

/// "on" or "off".
pub fn on_off(enabled: bool) -> (r: &'static str)
    ensures
        r@ == on_off_words(enabled),
{
    if enabled { "on" } else { "off" }
}

/// Makes `text` a clickable link to `url` in terminals that support it.
pub open spec fn link(url: Seq<char>, text: Seq<char>) -> Seq<char> {
    "\x1b]8;;"@ + url + "\x1b\\"@ + text + "\x1b]8;;\x1b\\"@
}

/// Makes `text` a clickable link to `url` in terminals that support it.
pub fn hyperlink(url: &str, text: &str) -> (r: String)
    ensures
        r@ == link(url@, text@),
{
    let mut v = chars_of("\x1b]8;;");
    push_str(&mut v, url);
    push_str(&mut v, "\x1b\\");
    push_str(&mut v, text);
    push_str(&mut v, "\x1b]8;;\x1b\\");
    string_of(&v)
}

/// How live reload is working: off, on, or on by looking at the files,
/// which notices later and reads the whole directory each time. The poll
/// interval is written in whole seconds.
pub open spec fn live_reload_words(settings: Settings) -> Seq<char> {
    if settings.no_reload {
        "off"@
    } else if settings.poll {
        "on, looking at the files every "@ + decimal((POLL_INTERVAL / 1000) as nat) + "s"@
    } else {
        "on"@
    }
}

/// Worth saying when the server is looking at the files rather than being
/// told about them.
pub fn live_reload(settings: &Settings) -> (r: String)
    ensures
        r@ == live_reload_words(*settings),
{
    if settings.no_reload {
        return owned("off");
    }
    if settings.poll {
        let mut v = chars_of("on, looking at the files every ");
        let n = decimal_chars(POLL_INTERVAL / 1000);
        push_all(&mut v, &n);
        push_str(&mut v, "s");
        return string_of(&v);
    }
    owned("on")
}

/// Items written one after another, each but the first after a comma and
/// a space.
pub open spec fn listed(items: Seq<Seq<char>>) -> Seq<char>
    decreases items.len(),
{
    if items.len() == 0 {
        Seq::empty()
    } else if items.len() == 1 {
        items[0]
    } else {
        listed(items.drop_last()) + ", "@ + items.last()
    }
}

/// The items, written one after another with a comma between them.
pub fn list_of(items: &Vec<String>) -> (r: String)
    ensures
        r@ == listed(views(items@)),
{
    let mut v: Vec<char> = Vec::new();
    for i in 0..items.len()
        invariant
            v@ == listed(views(items@).take(i as int)),
    {
        let ghost before = v@;
        assert(views(items@).take(i + 1).drop_last() =~= views(items@).take(i as int));
        assert(views(items@).take(i + 1).last() == items@[i as int]@);
        if i > 0 {
            push_str(&mut v, ", ");
        } else {
            assert(before =~= Seq::<char>::empty());
        }
        push_str(&mut v, items[i].as_str());
        assert(v@ =~= listed(views(items@).take(i + 1)));
    }
    assert(views(items@).take(items.len() as int) =~= views(items@));
    string_of(&v)
}

/// The lines the server prints on the way up, in order: a rule, the rows,
/// a rule, and an empty line. What is being ignored, the patterns given
/// and then those of the ignore file, has a row of its own where there is
/// any.
pub open spec fn banner_of(
    bound: Bound,
    settings: Settings,
    served: Seq<char>,
    no_app_page: bool,
    ignoring: Seq<Seq<char>>,
) -> Seq<Seq<char>> {
    let rule = "-----------------------------------------------"@;
    let first = seq![rule, row_of("Serving"@, served)];
    let note = if settings.port is None && bound.port != DEFAULT_PORT {
        seq![row_of("Note"@, "port "@ + decimal(DEFAULT_PORT as nat) + " was busy, using "@ + decimal(bound.port as nat))]
    } else {
        Seq::empty()
    };
    let middle = seq![
        row_of("Live reload"@, live_reload_words(settings)),
        row_of("Single-page app"@, on_off_words(settings.spa)),
        row_of("Caching"@, if settings.cache_assets { "files under /assets/ for a year"@ } else { "off"@ }),
    ];
    let warning = if no_app_page {
        seq![row_of("Warning"@, "there is no index.html here, so no page will load"@)]
    } else {
        Seq::empty()
    };
    let ignored = if ignoring.len() > 0 {
        seq![row_of("Ignoring"@, listed(ignoring))]
    } else {
        Seq::empty()
    };
    let last = seq![row_of("Open"@, link(url_of(bound), authority_of(bound))), rule, Seq::<char>::empty()];
    first + note + middle + warning + ignored + last
}

/// The lines the server prints on the way up: where it serves from, what
/// is on, and the address to open.
pub fn banner(
    bound: &Bound,
    settings: &Settings,
    served: &str,
    no_app_page: bool,
    ignoring: &Vec<String>,
) -> (r: Vec<String>)
    ensures
        views(r@) == banner_of(*bound, *settings, served@, no_app_page, views(ignoring@)),
{
    let ghost rule = "-----------------------------------------------"@;
    let mut lines: Vec<String> = Vec::new();
    lines.push(owned(RULE));
    lines.push(row("Serving", served));
    let ghost first = seq![rule, row_of("Serving"@, served@)];
    assert(views(lines@) =~= first);
    if settings.port.is_none() && bound.port != DEFAULT_PORT {
        let mut v = chars_of("port ");
        let d = decimal_chars(DEFAULT_PORT as u64);
        push_all(&mut v, &d);
        push_str(&mut v, " was busy, using ");
        let p = decimal_chars(bound.port as u64);
        push_all(&mut v, &p);
        let note = string_of(&v);
        lines.push(row("Note", note.as_str()));
    }
    let ghost after_note = views(lines@);
    let reload = live_reload(settings);
    lines.push(row("Live reload", reload.as_str()));
    lines.push(row("Single-page app", on_off(settings.spa)));
    let caching = if settings.cache_assets { "files under /assets/ for a year" } else { "off" };
    lines.push(row("Caching", caching));
    let ghost after_middle = views(lines@);
    if no_app_page {
        lines.push(row("Warning", "there is no index.html here, so no page will load"));
    }
    let ghost after_warning = views(lines@);
    if ignoring.len() > 0 {
        let patterns = list_of(ignoring);
        lines.push(row("Ignoring", patterns.as_str()));
    }
    let ghost after_ignored = views(lines@);
    let address = url(bound);
    let shown = authority(bound);
    let link_text = hyperlink(address.as_str(), shown.as_str());
    lines.push(row("Open", link_text.as_str()));
    lines.push(owned(RULE));
    lines.push(String::new());
    proof {
        let note = if settings.port is None && bound.port != DEFAULT_PORT {
            seq![row_of("Note"@, "port "@ + decimal(DEFAULT_PORT as nat) + " was busy, using "@ + decimal(bound.port as nat))]
        } else {
            Seq::empty()
        };
        assert(after_note =~= first + note);
        let middle = seq![
            row_of("Live reload"@, live_reload_words(*settings)),
            row_of("Single-page app"@, on_off_words(settings.spa)),
            row_of("Caching"@, if settings.cache_assets { "files under /assets/ for a year"@ } else { "off"@ }),
        ];
        assert(after_middle =~= first + note + middle);
        let warning = if no_app_page {
            seq![row_of("Warning"@, "there is no index.html here, so no page will load"@)]
        } else {
            Seq::empty()
        };
        assert(after_warning =~= first + note + middle + warning);
        let ignored = if views(ignoring@).len() > 0 {
            seq![row_of("Ignoring"@, listed(views(ignoring@)))]
        } else {
            Seq::empty()
        };
        assert(after_ignored =~= first + note + middle + warning + ignored);
        let last = seq![row_of("Open"@, link(url_of(*bound), authority_of(*bound))), rule, Seq::<char>::empty()];
        assert(views(lines@) =~= first + note + middle + warning + ignored + last);
    }
    lines
}

} // verus!
