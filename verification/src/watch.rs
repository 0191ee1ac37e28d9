//! Watching the served directory: which events are changes, what to say
//! about what could not be read, and when the watch has to be put back on.

use crate::errors::{IoFailure, IoKind, plain_reason, why};
use crate::ignore::{Ignored, ignored_by, write_path, written_with};
use crate::paths::{Part, PartView, leads_with, parts_view, strip_prefix};
use crate::platform::Platform;
use crate::browser::views;
use crate::text::{chars_of, owned, push_str, string_of};
use vstd::prelude::*;

verus! {

/// Long enough to group the writes one save makes, short enough that the
/// refresh still feels immediate. In milliseconds.
pub const DEBOUNCE_DELAY: u64 = 200;

/// How often `--poll` looks at the files, in milliseconds. A change waits up
/// to this long to be noticed, and every look reads every file.
pub const POLL_INTERVAL: u64 = 1000;

/// How often to check that the served directory is still the one being
/// watched, and how long to wait between attempts to watch it again. In
/// milliseconds.
pub const CHECK_INTERVAL: u64 = 100;

/// How many unreadable paths are worth naming. Past that it goes quiet.
pub const MOST_PROBLEMS: usize = 20;

/// What happened to a path, as the watcher reports it.
#[derive(Clone, Copy, Debug, PartialEq, Eq)]
pub enum ChangeKind {
    /// Something happened, the watcher cannot say what.
    Any,
    Create,
    Remove,
    /// The write time moved.
    WriteTime,
    /// Some other detail changed: permissions, the access time.
    OtherMetadata,
    /// The contents or the name changed.
    Modified,
    /// A file open for writing was closed: a finished save.
    ClosedAfterWrite,
    /// The file was opened, read, or closed after reading.
    OtherAccess,
    Other,
}

/// A path an event is about, and whether it is a directory now.
#[derive(Debug)]
pub struct EventPath {
    pub parts: Vec<Part>,
    pub is_dir: bool,
}

/// One event from the watcher.
#[derive(Debug)]
pub struct Event {
    pub kind: ChangeKind,
    pub paths: Vec<EventPath>,
}

/// True when some path of the event is not ignored.
pub open spec fn any_not_ignored(ignored: Ignored, root: Seq<Part>, paths: Seq<EventPath>) -> bool {
    exists|i: int| 0 <= i < paths.len() && !ignored_by(ignored.globs(), parts_view(root), parts_view(#[trigger] paths[i].parts@))
}

/// True when some path of the event is not a directory.
pub open spec fn any_file(paths: Seq<EventPath>) -> bool {
    exists|i: int| 0 <= i < paths.len() && !(#[trigger] paths[i]).is_dir
}

/// True when the event wrote something. Reading a file is an event of its
/// own on Linux, and a moved access time counts for nothing: counting
/// either would refresh the browser for every page it loads. A poll says a
/// file was written by its write time, but not for a directory, whose own
/// write time moves whenever anything in it is made or removed.
pub open spec fn wrote(kind: ChangeKind, paths: Seq<EventPath>, polling: bool) -> bool {
    match kind {
        ChangeKind::Any | ChangeKind::Create | ChangeKind::Remove => true,
        ChangeKind::WriteTime => polling && any_file(paths),
        ChangeKind::OtherMetadata => false,
        ChangeKind::Modified => true,
        ChangeKind::ClosedAfterWrite => true,
        ChangeKind::OtherAccess | ChangeKind::Other => false,
    }
}

/// True when the browser should refresh for this event.
pub open spec fn change(ignored: Ignored, root: Seq<Part>, event: Event, polling: bool) -> bool {
    wrote(event.kind, event.paths@, polling) && any_not_ignored(ignored, root, event.paths@)
}

/// Whether some path of the event is not a directory.
fn has_a_file(paths: &Vec<EventPath>) -> (r: bool)
    ensures
        r == any_file(paths@),
{
    for i in 0..paths.len()
        invariant
            forall|j: int| 0 <= j < i ==> (#[trigger] paths@[j]).is_dir,
    {
        if !paths[i].is_dir {
            return true;
        }
    }
    false
}

/// True when the browser should refresh.
///
/// Reading a file is an event of its own on Linux, so serving a page would
/// count as a change, the browser would reload, and that reload would read
/// the file again, forever.
pub fn is_change(ignored: &Ignored, root: &Vec<Part>, event: &Event, polling: bool) -> (r: bool)
    ensures
        r == change(*ignored, root@, *event, polling),
{
    let written = match event.kind {
        ChangeKind::Any | ChangeKind::Create | ChangeKind::Remove => true,
        ChangeKind::WriteTime => polling && has_a_file(&event.paths),
        ChangeKind::OtherMetadata => false,
        ChangeKind::Modified => true,
        ChangeKind::ClosedAfterWrite => true,
        ChangeKind::OtherAccess | ChangeKind::Other => false,
    };
    if !written {
        return false;
    }
    for i in 0..event.paths.len()
        invariant
            wrote(event.kind, event.paths@, polling),
            forall|j: int| 0 <= j < i ==> ignored_by(ignored.globs(), parts_view(root@), parts_view(#[trigger] event.paths@[j].parts@)),
    {
        if !ignored.contains(root, &event.paths[i].parts) {
            assert(!ignored_by(ignored.globs(), parts_view(root@), parts_view(event.paths@[i as int].parts@)));
            return true;
        }
    }
    false
}

/// True when a look found a build clearing the served directory:
/// everything it saw was taken away, and the directory is not there now.
/// Only while polling: the system's own watcher hears of a removal at once,
/// before the directory has had time to come back.
pub open spec fn clearing(events: Seq<Event>, polling: bool, root_is_dir: bool) -> bool {
    polling && (forall|i: int| 0 <= i < events.len() ==> (#[trigger] events[i]).kind == ChangeKind::Remove) && !root_is_dir
}

/// Whether a look found a build clearing the served directory.
pub fn clearing_the_directory(events: &Vec<Event>, polling: bool, root_is_dir: bool) -> (r: bool)
    ensures
        r == clearing(events@, polling, root_is_dir),
{
    if !polling || root_is_dir {
        return false;
    }
    for i in 0..events.len()
        invariant
            forall|j: int| 0 <= j < i ==> (#[trigger] events@[j]).kind == ChangeKind::Remove,
    {
        match events[i].kind {
            ChangeKind::Remove => {},
            _ => {
                return false;
            },
        }
    }
    true
}

/// True when a rebuild was announced less than `within` milliseconds ago.
pub open spec fn recent(announced_ago: Option<u64>, within: u64) -> bool {
    match announced_ago {
        Some(ago) => ago < within,
        None => false,
    }
}

/// True when a rebuild was announced a moment ago, so what the watcher is
/// reporting now is that same rebuild reaching it the slower way.
pub fn just_announced(announced_ago: Option<u64>, within: u64) -> (r: bool)
    ensures
        r == recent(announced_ago, within),
{
    match announced_ago {
        Some(ago) => ago < within,
        None => false,
    }
}

/// How long, in milliseconds, the watcher's own account of a rebuild goes
/// on arriving after the rebuild was announced: as long as the watcher takes
/// to hear about it, plus the one check by which the check got there first.
pub open spec fn echo_window(poll: bool) -> u64 {
    (if poll { POLL_INTERVAL + DEBOUNCE_DELAY + CHECK_INTERVAL } else { DEBOUNCE_DELAY + CHECK_INTERVAL }) as u64
}

/// How long the watcher's own account of a rebuild goes on arriving after
/// the rebuild was announced. A poll knows nothing until its next look; the
/// system's own notifications are there at once, held back only by the
/// debounce.
pub fn same_rebuild(poll: bool) -> (r: u64)
    ensures
        r == echo_window(poll),
        poll ==> r >= echo_window(false) + POLL_INTERVAL,
{
    let hears_within = if poll { POLL_INTERVAL + DEBOUNCE_DELAY } else { DEBOUNCE_DELAY };
    hears_within + CHECK_INTERVAL
}

/// What to do about the events of one look.
#[derive(Clone, Copy, Debug, PartialEq, Eq)]
pub enum Response {
    /// Nothing: no change the browser can see, or a build clearing the
    /// served directory, which the check reports when the new one lands.
    Quiet,
    /// Refresh the browser, saying so where `say` and not otherwise: what is
    /// arriving may be the echo of a rebuild just announced.
    Reload { say: bool },
}

/// What to do about the events of one look.
pub open spec fn response_to(
    ignored: Ignored,
    root: Seq<Part>,
    events: Seq<Event>,
    polling: bool,
    root_is_dir: bool,
    announced_ago: Option<u64>,
    within: u64,
) -> Response {
    if clearing(events, polling, root_is_dir) {
        Response::Quiet
    } else if exists|i: int| 0 <= i < events.len() && change(ignored, root, #[trigger] events[i], polling) {
        Response::Reload { say: !recent(announced_ago, within) }
    } else {
        Response::Quiet
    }
}

/// What to do when files changed. A build clearing the served directory is
/// the check's to report, once, when the new one lands; nothing is
/// refreshed on the way. A rebuild just announced deserves one line; the
/// page is refreshed either way.
pub fn respond(
    ignored: &Ignored,
    root: &Vec<Part>,
    events: &Vec<Event>,
    polling: bool,
    root_is_dir: bool,
    announced_ago: Option<u64>,
    within: u64,
) -> (r: Response)
    ensures
        r == response_to(*ignored, root@, events@, polling, root_is_dir, announced_ago, within),
{
    if clearing_the_directory(events, polling, root_is_dir) {
        return Response::Quiet;
    }
    for i in 0..events.len()
        invariant
            !clearing(events@, polling, root_is_dir),
            forall|j: int| 0 <= j < i ==> !change(*ignored, root@, #[trigger] events@[j], polling),
    {
        if is_change(ignored, root, &events[i], polling) {
            assert(change(*ignored, root@, events@[i as int], polling));
            return Response::Reload { say: !just_announced(announced_ago, within) };
        }
    }
    Response::Quiet
}

/// Why the watcher failed, as plain values.
#[derive(Debug)]
pub enum WatchKind {
    /// The system has no file watches left.
    MaxFilesWatch,
    /// There is no such path.
    PathNotFound,
    /// The system refused a look.
    Io(IoFailure),
    /// Anything else.
    Generic,
}

/// A failure the watcher reported: why, in its own words, and the path it is
/// about, if any, with that path as it is written out in full.
#[derive(Debug)]
pub struct WatchProblem {
    pub kind: WatchKind,
    pub text: String,
    pub path: Option<Vec<Part>>,
    pub shown: String,
}

/// Why the watcher could not be set up, in plain words. The limit is the
/// one people actually meet: every directory below the served one costs a
/// watch, and `node_modules` can use them all up.
pub open spec fn unwatchable(error: WatchProblem) -> Seq<char> {
    match error.kind {
        WatchKind::MaxFilesWatch => "the system has no file watches left \u{2014} serve the build output rather than the whole project, or raise the limit"@,
        WatchKind::PathNotFound => "there is no such directory"@,
        WatchKind::Io(io) => plain_reason(io),
        WatchKind::Generic => error.text@,
    }
}

/// Why the watcher could not be set up, in plain words.
pub fn cannot_watch(error: &WatchProblem) -> (r: String)
    ensures
        r@ == unwatchable(*error),
{
    match &error.kind {
        WatchKind::MaxFilesWatch => owned(
            "the system has no file watches left \u{2014} serve the build output rather than the whole project, or raise the limit",
        ),
        WatchKind::PathNotFound => owned("there is no such directory"),
        WatchKind::Io(io) => why(io),
        WatchKind::Generic => error.text.clone(),
    }
}

/// Why the served directory could not be watched, naming it.
pub open spec fn unwatchable_here(root: Seq<char>, error: WatchProblem) -> Seq<char> {
    "cannot watch "@ + root + " for changes: "@ + unwatchable(error)
}

/// The same, naming the directory it is about.
pub fn cannot_watch_here(root: &str, error: &WatchProblem) -> (r: String)
    ensures
        r@ == unwatchable_here(root@, *error),
{
    let mut v = chars_of("cannot watch ");
    push_str(&mut v, root);
    push_str(&mut v, " for changes: ");
    let reason = cannot_watch(error);
    push_str(&mut v, reason.as_str());
    string_of(&v)
}

/// True when the look found nothing at that name.
pub open spec fn not_there(error: WatchProblem) -> bool {
    match error.kind {
        WatchKind::Io(io) => io.kind == IoKind::NotFound,
        WatchKind::PathNotFound => true,
        _ => false,
    }
}

/// Whether the look found nothing at that name.
pub fn was_not_there(error: &WatchProblem) -> (r: bool)
    ensures
        r == not_there(*error),
{
    match &error.kind {
        WatchKind::Io(io) => match io.kind {
            IoKind::NotFound => true,
            _ => false,
        },
        WatchKind::PathNotFound => true,
        _ => false,
    }
}

/// The character that parts directories in paths this system writes.
pub open spec fn main_separator(platform: Platform) -> char {
    if platform.backslash_parts_paths { '\\' } else { '/' }
}

/// The whole line to print about what one look could not read, or nothing
/// where saying anything would be noise: a path the browser never sees, or
/// one that was not there when the look reached it. A path below the served
/// directory is named the short way; anything else keeps its whole name.
pub open spec fn look_line(ignored: Ignored, root: Seq<Part>, error: WatchProblem, platform: Platform) -> Option<Seq<char>> {
    match error.path {
        None => Some("Cannot look at part of the directory: "@ + unwatchable(error)),
        Some(path) => if ignored_by(ignored.globs(), parts_view(root), parts_view(path@)) {
            None
        } else if not_there(error) {
            None
        } else {
            let below = parts_view(path@).skip(root.len() as int);
            let named = if leads_with(parts_view(path@), parts_view(root)) && below.len() > 0 {
                written_with(below, main_separator(platform))
            } else {
                error.shown@
            };
            Some("Cannot look at "@ + named + ": "@ + unwatchable(error))
        },
    }
}

/// The whole line to print about what one look could not read, or nothing
/// where saying anything would be noise.
pub fn cannot_look(ignored: &Ignored, root: &Vec<Part>, error: &WatchProblem, platform: &Platform) -> (r: Option<String>)
    ensures
        match (r, look_line(*ignored, root@, *error, *platform)) {
            (Some(line), Some(expected)) => line@ == expected,
            (None, None) => true,
            _ => false,
        },
{
    let path = match &error.path {
        None => {
            // Nothing to name. Not a watch that went down either: the next
            // look starts afresh.
            let mut v = chars_of("Cannot look at part of the directory: ");
            let reason = cannot_watch(error);
            push_str(&mut v, reason.as_str());
            return Some(string_of(&v));
        },
        Some(path) => path,
    };
    // A path the browser never sees cannot change what it shows.
    if ignored.contains(root, path) {
        return None;
    }
    // Not there when the look reached it: a build removing a file and
    // writing it again. Either it stays gone, and the removal is reported as
    // the change it is, or it is already back.
    if was_not_there(error) {
        return None;
    }
    // Named the short way, since the banner has already said where the
    // served directory is. That directory itself keeps its whole path.
    let sep = if platform.backslash_parts_paths { '\\' } else { '/' };
    let named = match strip_prefix(path, root) {
        Some(below) => if below.len() > 0 {
            write_path(&below, sep)
        } else {
            error.shown.clone()
        },
        None => error.shown.clone(),
    };
    let mut v = chars_of("Cannot look at ");
    push_str(&mut v, named.as_str());
    push_str(&mut v, ": ");
    let reason = cannot_watch(error);
    push_str(&mut v, reason.as_str());
    Some(string_of(&v))
}

/// What has been told after telling `line`: it is added where it is new and
/// there is room for it.
pub open spec fn tell(told: Seq<Seq<char>>, line: Option<Seq<char>>) -> Seq<Seq<char>> {
    match line {
        Some(l) => if !told.contains(l) && told.len() < MOST_PROBLEMS { told.push(l) } else { told },
        None => told,
    }
}

/// What has been told after a look that met these errors.
pub open spec fn told_after(
    told: Seq<Seq<char>>,
    ignored: Ignored,
    root: Seq<Part>,
    errors: Seq<WatchProblem>,
    platform: Platform,
) -> Seq<Seq<char>>
    decreases errors.len(),
{
    if errors.len() == 0 {
        told
    } else {
        tell(told_after(told, ignored, root, errors.drop_last(), platform), look_line(ignored, root, errors.last(), platform))
    }
}

/// Whether `line` is among the lines told.
fn already_told(told: &Vec<String>, line: &String) -> (r: bool)
    ensures
        r == views(told@).contains(line@),
{
    for i in 0..told.len()
        invariant
            forall|j: int| 0 <= j < i ==> views(told@)[j] != line@,
    {
        if told[i] == *line {
            assert(views(told@)[i as int] == line@);
            return true;
        }
    }
    false
}

/// The lines worth printing about what one look could not read: each once,
/// however many looks meet it, and no more than [`MOST_PROBLEMS`] in all.
/// Those printed are added to `told`.
pub fn worth_telling(
    ignored: &Ignored,
    root: &Vec<Part>,
    errors: &Vec<WatchProblem>,
    told: &mut Vec<String>,
    platform: &Platform,
) -> (said: Vec<String>)
    ensures
        views(final(told)@) == told_after(views(old(told)@), *ignored, root@, errors@, *platform),
        views(final(told)@) == views(old(told)@) + views(said@),
{
    let ghost start = views(told@);
    let mut said: Vec<String> = Vec::new();
    assert(errors@.take(0) =~= Seq::<WatchProblem>::empty());
    assert(views(said@) =~= Seq::<Seq<char>>::empty());
    assert(start + Seq::<Seq<char>>::empty() =~= start);
    for i in 0..errors.len()
        invariant
            views(told@) == told_after(start, *ignored, root@, errors@.take(i as int), *platform),
            views(told@) == start + views(said@),
    {
        assert(errors@.take(i + 1).drop_last() =~= errors@.take(i as int));
        assert(errors@.take(i + 1).last() == errors@[i as int]);
        match cannot_look(ignored, root, &errors[i], platform) {
            Some(line) => {
                // Every look meets the same path, and once is enough.
                if !already_told(told, &line) && told.len() < MOST_PROBLEMS {
                    let ghost before_told = told@;
                    let ghost before_said = said@;
                    let copy = line.clone();
                    told.push(copy);
                    said.push(line);
                    assert(views(told@) =~= views(before_told).push(line@));
                    assert(views(said@) =~= views(before_said).push(line@));
                    assert(views(told@) =~= start + views(said@));
                }
            },
            None => {},
        }
    }
    assert(errors@.take(errors.len() as int) =~= errors@);
    said
}

/// What is said of each failure of a watch that went down.
pub open spec fn failure_lines(errors: Seq<WatchProblem>) -> Seq<Seq<char>> {
    errors.map_values(|e: WatchProblem| "Cannot watch for changes: "@ + unwatchable(e))
}

/// What to say when the watch itself failed, one line for each failure:
/// otherwise the watcher dies quietly while the banner still says reloads
/// are on.
pub fn watch_failures(errors: &Vec<WatchProblem>) -> (r: Vec<String>)
    ensures
        views(r@) == failure_lines(errors@),
{
    let mut r: Vec<String> = Vec::new();
    for i in 0..errors.len()
        invariant
            views(r@) == failure_lines(errors@).take(i as int),
    {
        let mut v = chars_of("Cannot watch for changes: ");
        let reason = cannot_watch(&errors[i]);
        push_str(&mut v, reason.as_str());
        let line = string_of(&v);
        let ghost before = r@;
        r.push(line);
        assert(v@ =~= "Cannot watch for changes: "@ + unwatchable(errors@[i as int]));
        assert(failure_lines(errors@)[i as int] == "Cannot watch for changes: "@ + unwatchable(errors@[i as int]));
        assert(views(r@) =~= views(before).push(line@));
        assert(views(r@) =~= failure_lines(errors@).take(i + 1));
    }
    assert(failure_lines(errors@).take(errors.len() as int) =~= failure_lines(errors@));
    r
}

/// The system's own number for a directory: the volume it is on, and its
/// number there.
#[derive(Clone, Copy, Debug, PartialEq, Eq, Structural)]
pub struct DirectoryId {
    pub volume: u64,
    pub number: u128,
}

/// What woke the check.
#[derive(Clone, Copy, Debug, PartialEq, Eq, Structural)]
pub enum Wake {
    /// The watcher reported that it failed.
    Failed,
    /// The watcher is gone: the program is stopping.
    Gone,
    /// Nothing was reported within one check.
    TimedOut,
}

/// Why the watch has to be set up again. Both mean changes were missed;
/// they differ only in what to call it.
#[derive(Clone, Copy, Debug, PartialEq, Eq, Structural)]
pub enum Rewatch {
    /// The name now leads to a different directory: a build deleted the old
    /// one, or renamed it away.
    Replaced,
    /// The watcher itself failed, dropping whatever it had not reported.
    WatchFailed,
}

/// What the check does next.
#[derive(Clone, Copy, Debug, PartialEq, Eq, Structural)]
pub enum Check {
    /// Stop checking.
    Stop,
    /// Wait for the next check.
    Wait,
    /// Put the watch back on the name, quietly: nothing is known to have
    /// changed.
    PutBack,
    /// Watch again, tell the browser, and say why.
    Again(Rewatch),
}

/// What the check does next, given what woke it, the directory the watch
/// went on (if that was known), and the one the name leads to now (if any).
/// A directory missing for the moment means a build is between removing it
/// and writing the new one.
pub open spec fn next_check(wake: Wake, watched: Option<DirectoryId>, now: Option<DirectoryId>) -> Check {
    match wake {
        Wake::Failed => Check::Again(Rewatch::WatchFailed),
        Wake::Gone => Check::Stop,
        Wake::TimedOut => match now {
            None => Check::Wait,
            Some(n) => match watched {
                Some(before) => if before != n { Check::Again(Rewatch::Replaced) } else { Check::Wait },
                None => Check::PutBack,
            },
        },
    }
}

/// What the check does next. The watch follows the directory, not its
/// name: a build that deletes and recreates it leaves the watch on something
/// nobody can reach, so the directory itself is looked at.
pub fn after_wake(wake: Wake, watched: Option<DirectoryId>, now: Option<DirectoryId>) -> (r: Check)
    ensures
        r == next_check(wake, watched, now),
{
    match wake {
        Wake::Failed => Check::Again(Rewatch::WatchFailed),
        Wake::Gone => Check::Stop,
        Wake::TimedOut => match now {
            None => Check::Wait,
            Some(n) => match watched {
                Some(before) => if before != n { Check::Again(Rewatch::Replaced) } else { Check::Wait },
                None => Check::PutBack,
            },
        },
    }
}

/// What is said when the watch is put back on, and why.
pub open spec fn rewatch_words(reason: Rewatch) -> Seq<char> {
    match reason {
        Rewatch::Replaced => "Directory replaced, reloading..."@,
        Rewatch::WatchFailed => "Watching again, reloading..."@,
    }
}

/// What to say when the watch is put back on.
pub fn rewatch_line(reason: Rewatch) -> (r: String)
    ensures
        r@ == rewatch_words(reason),
{
    match reason {
        Rewatch::Replaced => owned("Directory replaced, reloading..."),
        Rewatch::WatchFailed => owned("Watching again, reloading..."),
    }
}

/// True when a rewatch is a rebuild, announced so that the watcher's own
/// account of it is recognised as the echo it is.
pub fn announces(reason: Rewatch) -> (r: bool)
    ensures
        r == (reason == Rewatch::Replaced),
{
    match reason {
        Rewatch::Replaced => true,
        Rewatch::WatchFailed => false,
    }
}

/// True when a watch just put on is known to be on the directory the name
/// leads to: the look before watching and the one after agree. A poll
/// reports a watch on a directory it could not read as success, and then
/// hears nothing ever after.
pub fn settled(watching: bool, looked: Option<DirectoryId>, now: Option<DirectoryId>) -> (r: bool)
    ensures
        r == (watching && looked == now),
{
    watching && looked == now
}

/// True when the directory looked at before the first watch went on is
/// still the one the name leads to; otherwise nothing is known to be
/// watched, and the check puts that right.
pub fn still_the_one(looked: Option<DirectoryId>, now: Option<DirectoryId>) -> (r: bool)
    ensures
        r == (looked is Some && looked == now),
{
    looked.is_some() && looked == now
}

} // verus!
