//! What holds of the library as a whole: the promises its decisions keep,
//! for every input.

use crate::browser::{browser_list, command_of, entries, pieces, placeholder};
use crate::globs::{GlobSource, any_matches};
use crate::guard::{escaped_form, hex_value, hidden_address, unescaped};
use crate::ignore::{
    LineView, chosen_above, chosen_by, patterns_in, unmarked, gather_given, gather_lines, ignored_by, scratch, unservable,
    worth_reading,
};
use crate::listen::{DEFAULT_PORT, NextView, PORTS_TO_TRY, after_refusal};
use crate::errors::IoFailure;
use crate::paths::{PartView, leads_with};
use crate::serve::{app_page_instead, cache_policy, page_look, success, NOT_FOUND, NOT_MODIFIED};
use crate::text::{begins_with, holds, is_space, trimmed};
use crate::patterns::{
    after_leading_separator, bare_of, bare_problem, from_a_drive, names_of, pattern_check,
    without_trailing_separators,
};
use crate::watch::{
    Check, ChangeKind, DirectoryId, Event, MOST_PROBLEMS, Response, Rewatch, Wake, change,
    clearing, next_check, recent, response_to, tell, told_after, WatchProblem,
};
use crate::ignore::Ignored;
use crate::paths::Part;
use crate::platform::Platform;
use vstd::prelude::*;

verus! {

/// The served directory itself is never ignored, whatever the patterns:
/// the watcher relies on it, since the directory's own write time moves for
/// every file made or removed in it.
pub proof fn served_directory_is_never_ignored(globs: Seq<GlobSource>, root: Seq<PartView>)
    ensures
        !ignored_by(globs, root, root),
{
    assert(root.take(root.len() as int) =~= root);
    assert(root.skip(root.len() as int) =~= Seq::<PartView>::empty());
}

/// A change outside the served directory is never ignored: it is not ours
/// to judge, and ignoring it would drop real changes.
pub proof fn changes_outside_are_never_ignored(globs: Seq<GlobSource>, root: Seq<PartView>, path: Seq<PartView>)
    requires
        !leads_with(path, root),
    ensures
        !ignored_by(globs, root, path),
{
}

/// A path that climbs with `..` is never ignored: `cache/../app.css` is
/// app.css, and refreshing is the safe side.
pub proof fn climbing_paths_are_never_ignored(globs: Seq<GlobSource>, root: Seq<PartView>, path: Seq<PartView>)
    requires
        path.skip(root.len() as int).contains(PartView::Up),
    ensures
        !ignored_by(globs, root, path),
{
}

/// Whatever the patterns, a change below the served directory to anything
/// hidden (`.git`, `.env`) or under `target` or `node_modules` never
/// refreshes the browser.
pub proof fn unservable_changes_are_always_ignored(
    globs: Seq<GlobSource>,
    root: Seq<PartView>,
    path: Seq<PartView>,
    i: int,
)
    requires
        leads_with(path, root),
        !path.skip(root.len() as int).contains(PartView::Up),
        0 <= i < path.len() - root.len(),
        unservable(path.skip(root.len() as int)[i]),
    ensures
        ignored_by(globs, root, path),
{
    let relative = path.skip(root.len() as int);
    assert(unservable(relative[i]));
}

/// Whatever the patterns, a scratch file an editor leaves behind below the
/// served directory (a swap file, a backup copy, an autosave) never
/// refreshes the browser.
pub proof fn editor_scratch_files_are_always_ignored(
    globs: Seq<GlobSource>,
    root: Seq<PartView>,
    path: Seq<PartView>,
)
    requires
        leads_with(path, root),
        !path.skip(root.len() as int).contains(PartView::Up),
        path.len() > root.len(),
        path.last() is Name,
        scratch(path.last()->Name_0),
    ensures
        ignored_by(globs, root, path),
{
    let relative = path.skip(root.len() as int);
    assert(relative.last() == path.last());
}

/// Reading a file, or changing only its permissions or access time, never
/// refreshes the browser: otherwise serving a page would refresh it, and
/// that refresh would read it again, forever.
pub proof fn reading_is_never_a_change(ignored: Ignored, root: Seq<Part>, event: Event, polling: bool)
    requires
        event.kind == ChangeKind::OtherAccess || event.kind == ChangeKind::OtherMetadata
            || event.kind == ChangeKind::Other,
    ensures
        !change(ignored, root, event, polling),
{
}

/// The system's own watcher reports a write time for a file that was merely
/// read, so only a poll counts a moved write time as a change.
pub proof fn a_write_time_counts_only_while_polling(ignored: Ignored, root: Seq<Part>, event: Event)
    requires
        event.kind == ChangeKind::WriteTime,
    ensures
        !change(ignored, root, event, false),
{
}

/// A rebuild is announced once: what arrives just after the check
/// announced one still refreshes the page, but is not announced again.
pub proof fn a_rebuild_is_announced_once(
    ignored: Ignored,
    root: Seq<Part>,
    events: Seq<Event>,
    polling: bool,
    root_is_dir: bool,
    announced_ago: Option<u64>,
    within: u64,
)
    requires
        recent(announced_ago, within),
    ensures
        response_to(ignored, root, events, polling, root_is_dir, announced_ago, within)
            != (Response::Reload { say: true }),
{
}

/// A build clearing the served directory refreshes nothing on the way: the
/// page cannot load from a directory that is not there.
pub proof fn clearing_the_directory_is_quiet(
    ignored: Ignored,
    root: Seq<Part>,
    events: Seq<Event>,
    announced_ago: Option<u64>,
    within: u64,
)
    requires
        forall|i: int| 0 <= i < events.len() ==> (#[trigger] events[i]).kind == ChangeKind::Remove,
    ensures
        response_to(ignored, root, events, true, false, announced_ago, within) == Response::Quiet,
{
    assert(clearing(events, true, false));
}

/// What is said about paths a look could not read never says the same
/// thing twice, and never more than the most worth saying, however many
/// looks there are.
pub proof fn unreadable_paths_are_told_once(
    told: Seq<Seq<char>>,
    ignored: Ignored,
    root: Seq<Part>,
    errors: Seq<WatchProblem>,
    platform: Platform,
)
    requires
        told.no_duplicates(),
        told.len() <= MOST_PROBLEMS,
    ensures
        told_after(told, ignored, root, errors, platform).no_duplicates(),
        told_after(told, ignored, root, errors, platform).len() <= MOST_PROBLEMS,
        told_after(told, ignored, root, errors, platform).len() >= told.len(),
        told_after(told, ignored, root, errors, platform).take(told.len() as int) == told,
    decreases errors.len(),
{
    if errors.len() > 0 {
        unreadable_paths_are_told_once(told, ignored, root, errors.drop_last(), platform);
        let before = told_after(told, ignored, root, errors.drop_last(), platform);
        let after = told_after(told, ignored, root, errors, platform);
        let line = crate::watch::look_line(ignored, root, errors.last(), platform);
        assert(after == tell(before, line));
        assert(before.len() >= told.len());
        match line {
            Some(l) => {
                if !before.contains(l) && before.len() < MOST_PROBLEMS {
                    assert(after == before.push(l));
                    assert(after.take(told.len() as int) =~= before.take(told.len() as int));
                    assert forall|a: int, b: int| 0 <= a < b < after.len() implies after[a] != after[b] by {
                        if b == before.len() {
                            assert(before.contains(before[a]));
                        }
                    }
                } else {
                    assert(after == before);
                }
            },
            None => {},
        }
    } else {
        assert(told.take(told.len() as int) =~= told);
    }
}

/// A directory missing for the moment is a build between removing it and
/// writing the new one: the check waits rather than watching nothing.
pub proof fn a_missing_directory_is_waited_for(watched: Option<DirectoryId>)
    ensures
        next_check(Wake::TimedOut, watched, None) == Check::Wait,
{
}

/// A name that leads to a different directory than the one watched is a
/// rebuild, and the watch moves to the new one.
pub proof fn a_replaced_directory_is_watched_again(before: DirectoryId, now: DirectoryId)
    requires
        before != now,
    ensures
        next_check(Wake::TimedOut, Some(before), Some(now)) == Check::Again(Rewatch::Replaced),
{
}

/// Without a `%s` in the command line, the address is the last argument.
pub proof fn without_a_place_the_address_goes_last(browser: Seq<char>, url: Seq<char>, escapes: bool)
    requires
        !holds(browser, placeholder()),
    ensures
        command_of(browser, url, escapes).1.len() > 0,
        command_of(browser, url, escapes).1.last() == url,
{
}

/// No entry of the `BROWSER` list is blank: nothing named is no browser.
pub proof fn browser_entries_are_never_blank(named: Seq<char>, sep: char)
    ensures
        forall|i: int| 0 <= i < browser_list(named, sep).len() ==> (#[trigger] browser_list(named, sep)[i]).len() > 0,
{
    entries_are_never_blank(crate::browser::pieces(named, sep));
}

proof fn entries_are_never_blank(pieces: Seq<Seq<char>>)
    ensures
        forall|i: int| 0 <= i < entries(pieces).len() ==> (#[trigger] entries(pieces)[i]).len() > 0,
    decreases pieces.len(),
{
    if pieces.len() > 0 {
        entries_are_never_blank(pieces.drop_last());
        let kept = entries(pieces.drop_last());
        let last = trimmed(pieces.last());
        if last.len() > 0 {
            assert(entries(pieces) == kept.push(last));
            assert forall|i: int| 0 <= i < entries(pieces).len() implies (#[trigger] entries(pieces)[i]).len() > 0 by {
                if i < kept.len() {
                    assert(entries(pieces)[i] == kept[i]);
                }
            }
        }
    }
}

/// A port that was asked for is never swapped for another: when the system
/// refuses it, the server stops and says why.
pub proof fn an_asked_port_is_never_swapped(
    asked: u16,
    port: u16,
    error: IoFailure,
    host: Seq<char>,
    address: Seq<char>,
)
    ensures
        after_refusal(Some(asked), port, error, host, address) is Fail,
{
}

/// With no port asked for, the search steps up one port at a time and
/// never past the last one worth trying.
pub proof fn the_search_stays_among_the_ports_worth_trying(
    port: u16,
    error: IoFailure,
    host: Seq<char>,
    address: Seq<char>,
)
    requires
        DEFAULT_PORT <= port < DEFAULT_PORT + PORTS_TO_TRY,
    ensures
        after_refusal(None, port, error, host, address) matches NextView::Try(next) ==> next == port + 1
            && DEFAULT_PORT < next < DEFAULT_PORT + PORTS_TO_TRY,
{
}

/// With `--spa`, a missing file under `/assets/` is never answered with the
/// app page: a typo in a build stays visible.
pub proof fn assets_never_get_the_app_page(status: u16, accept: Option<Seq<char>>, path: Seq<char>)
    requires
        begins_with(path, "/assets/"@),
    ensures
        !app_page_instead(status, accept, path),
{
}

/// Only an address with no file behind it gets the app page: a file that
/// is there is served as it is.
pub proof fn only_missing_files_get_the_app_page(status: u16, accept: Option<Seq<char>>, path: Seq<char>)
    requires
        status != NOT_FOUND,
    ensures
        !app_page_instead(status, accept, path),
{
}

/// With `--cache-assets`, a file under `/assets/` that is there is kept for
/// a year, and anything else is checked each time: one missing during a
/// deploy is never remembered as missing.
pub proof fn only_hashed_files_that_are_there_are_kept(path: Seq<char>, status: u16)
    ensures
        begins_with(path, "/assets/"@) && (success(status) || status == NOT_MODIFIED)
            ==> cache_policy(path, status) == "public, max-age=31536000, immutable"@,
        !(begins_with(path, "/assets/"@) && (success(status) || status == NOT_MODIFIED))
            ==> cache_policy(path, status) == "no-cache"@,
{
}

/// Every pattern read from the ignore file says something, and is named by
/// its line: numbers from one, in the order of the lines.
pub proof fn ignore_file_patterns_say_something(lines: Seq<Seq<char>>)
    ensures
        forall|i: int| 0 <= i < worth_reading(lines).len() ==> {
            let line = #[trigger] worth_reading(lines)[i];
            &&& line.pattern.len() > 0
            &&& line.pattern[0] != '#'
            &&& 1 <= line.number <= lines.len()
            &&& line.pattern == trimmed(lines[line.number - 1])
        },
        forall|i: int, j: int| 0 <= i < j < worth_reading(lines).len()
            ==> (#[trigger] worth_reading(lines)[i]).number < (#[trigger] worth_reading(lines)[j]).number,
    decreases lines.len(),
{
    if lines.len() > 0 {
        let before = lines.drop_last();
        ignore_file_patterns_say_something(before);
        let kept = worth_reading(before);
        assert forall|i: int| 0 <= i < kept.len() implies (#[trigger] kept[i]).number <= before.len()
            && lines[kept[i].number - 1] == before[kept[i].number - 1] by {}
    }
}

/// An address with no `%` in it decodes to itself.
pub proof fn plain_addresses_decode_to_themselves(raw: Seq<u8>)
    requires
        !raw.contains(37),
    ensures
        unescaped(raw) == raw,
    decreases raw.len(),
{
    if raw.len() > 0 {
        assert(raw[0] != 37) by {
            if raw[0] == 37 {
                assert(raw.contains(37));
            }
        }
        assert forall|x: u8| raw.drop_first().contains(x) implies raw.contains(x) by {
            let k = choose|k: int| 0 <= k < raw.drop_first().len() && raw.drop_first()[k] == x;
            assert(raw[k + 1] == x);
        }
        plain_addresses_decode_to_themselves(raw.drop_first());
        assert(raw =~= seq![raw[0]] + raw.drop_first());
    }
}

/// The missing app page is said once each time it goes missing, not once
/// per address: a look that finds it missing after one that already said so
/// stays quiet, and once the page has been found, its going missing again is
/// said afresh.
pub proof fn a_missing_page_is_said_once_each_time(said_missing: bool)
    ensures
        !page_look(page_look(said_missing, false).1, false).0,
        page_look(page_look(said_missing, true).1, false).0,
{
}

/// Written with some of its bytes as `%XX` escapes, an address with no `%`
/// of its own decodes to the same bytes.
pub proof fn escapes_decode_to_what_they_stand_for(raw: Seq<u8>, plain: Seq<u8>)
    requires
        escaped_form(raw, plain),
        !plain.contains(37),
    ensures
        unescaped(raw) == plain,
    decreases plain.len(),
{
    if plain.len() > 0 {
        assert(plain[0] != 37) by {
            if plain[0] == 37 {
                assert(plain.contains(37));
            }
        }
        assert forall|x: u8| plain.drop_first().contains(x) implies plain.contains(x) by {
            let k = choose|k: int| 0 <= k < plain.drop_first().len() && plain.drop_first()[k] == x;
            assert(plain[k + 1] == x);
        }
        if raw.len() > 0 && raw[0] == plain[0] && escaped_form(raw.drop_first(), plain.drop_first()) {
            escapes_decode_to_what_they_stand_for(raw.drop_first(), plain.drop_first());
        } else {
            escapes_decode_to_what_they_stand_for(raw.skip(3), plain.drop_first());
            assert(hex_value(raw[1])->0 < 16 && hex_value(raw[2])->0 < 16);
        }
        assert(plain =~= seq![plain[0]] + plain.drop_first());
    }
}

/// No character but `%` has a `%` byte in its UTF-8 encoding: every byte of
/// a longer encoding has its high bit set.
proof fn percent_only_from_percent(c: char)
    requires
        c != '%',
    ensures
        !vstd::utf8::encode_scalar(c as u32).contains(37),
{
    vstd::utf8::char_is_scalar(c);
    let s = c as u32;
    if s == 37 {
        vstd::utf8::char_u32_cast(c, s);
        assert(c == '%');
    }
    let e = vstd::utf8::encode_scalar(s);
    if vstd::utf8::has_width_1_encoding(s) {
        assert(((s & 0x7F) as u8) != 37u8) by (bit_vector)
            requires
                s <= 0x7F,
                s != 37;
    } else {
        assert(forall|x: u32| (0x80u8 | (x & 0x3F) as u8) != 37u8) by (bit_vector);
        assert(forall|x: u32| (0x80u8 | ((x >> 6) & 0x3F) as u8) != 37u8) by (bit_vector);
        assert(forall|x: u32| (0x80u8 | ((x >> 12) & 0x3F) as u8) != 37u8) by (bit_vector);
        assert(forall|x: u32| (0xC0u8 | ((x >> 6) & 0x1F) as u8) != 37u8) by (bit_vector);
        assert(forall|x: u32| (0xE0u8 | ((x >> 12) & 0x0F) as u8) != 37u8) by (bit_vector);
        assert(forall|x: u32| (0xF0u8 | ((x >> 18) & 0x7) as u8) != 37u8) by (bit_vector);
    }
    assert forall|k: int| 0 <= k < e.len() implies e[k] != 37 by {}
}

/// An address with no `%` in it has no `%` byte in its UTF-8 encoding.
proof fn no_percent_byte(chars: Seq<char>)
    requires
        !chars.contains('%'),
    ensures
        !vstd::utf8::encode_utf8(chars).contains(37),
    decreases chars.len(),
{
    if chars.len() > 0 {
        assert(chars[0] != '%') by {
            if chars[0] == '%' {
                assert(chars.contains('%'));
            }
        }
        assert forall|x: char| chars.drop_first().contains(x) implies chars.contains(x) by {
            let k = choose|k: int| 0 <= k < chars.drop_first().len() && chars.drop_first()[k] == x;
            assert(chars[k + 1] == x);
        }
        percent_only_from_percent(chars[0]);
        no_percent_byte(chars.drop_first());
        let head = vstd::utf8::encode_scalar(chars[0] as u32);
        let tail = vstd::utf8::encode_utf8(chars.drop_first());
        assert(vstd::utf8::encode_utf8(chars) == head + tail);
        assert forall|k: int| 0 <= k < head.len() + tail.len() implies (head + tail)[k] != 37 by {
            if k < head.len() {
                assert(head.contains(head[k]));
            } else {
                assert(tail.contains(tail[k - head.len()]));
            }
        }
    }
}

/// Writing characters of an address as the `%XX` escapes of their UTF-8
/// bytes, in either case, never hides a hidden file and never hides an
/// ordinary one: `/sub%2f.env` is refused as `/sub/.env` is.
pub proof fn escaping_an_address_changes_nothing_hidden(plain: Seq<char>, escaped: Seq<char>, platform: Platform)
    requires
        !plain.contains('%'),
        escaped_form(vstd::utf8::encode_utf8(escaped), vstd::utf8::encode_utf8(plain)),
    ensures
        hidden_address(escaped, platform) == hidden_address(plain, platform),
{
    no_percent_byte(plain);
    escapes_decode_to_what_they_stand_for(vstd::utf8::encode_utf8(escaped), vstd::utf8::encode_utf8(plain));
    plain_addresses_decode_to_themselves(vstd::utf8::encode_utf8(plain));
}

/// A path some glob of two lists matches is one some glob of either does.
proof fn matching_either_list(a: Seq<GlobSource>, b: Seq<GlobSource>, path: Seq<char>)
    ensures
        any_matches(a + b, path) == (any_matches(a, path) || any_matches(b, path)),
{
    if any_matches(a + b, path) {
        let i = choose|i: int| 0 <= i < (a + b).len()
            && crate::globs::glob_matches((a + b)[i].0, (a + b)[i].1, (a + b)[i].2, path);
        if i >= a.len() {
            assert((a + b)[i] == b[i - a.len()]);
        }
    }
    if any_matches(a, path) {
        let i = choose|i: int| 0 <= i < a.len() && crate::globs::glob_matches(a[i].0, a[i].1, a[i].2, path);
        assert((a + b)[i] == a[i]);
    }
    if any_matches(b, path) {
        let i = choose|i: int| 0 <= i < b.len() && crate::globs::glob_matches(b[i].0, b[i].1, b[i].2, path);
        assert((a + b)[a.len() + i] == b[i]);
    }
}

/// The globs of two lists together ignore exactly what either list
/// ignores: adding patterns never stops a path being ignored, and ignores
/// nothing the added ones do not.
pub proof fn more_globs_ignore_the_union(a: Seq<GlobSource>, b: Seq<GlobSource>, root: Seq<PartView>, path: Seq<PartView>)
    ensures
        ignored_by(a + b, root, path) == (ignored_by(a, root, path) || ignored_by(b, root, path)),
{
    if leads_with(path, root) {
        let relative = path.skip(root.len() as int);
        assert(chosen_above(a + b, relative) == (chosen_above(a, relative) || chosen_above(b, relative))) by {
            assert forall|k: int| 1 <= k <= relative.len() implies #[trigger] any_matches(a + b, crate::ignore::path_text(relative.take(k)))
                == (any_matches(a, crate::ignore::path_text(relative.take(k))) || any_matches(b, crate::ignore::path_text(relative.take(k)))) by {
                matching_either_list(a, b, crate::ignore::path_text(relative.take(k)));
            }
            if chosen_above(a + b, relative) {
                let k = choose|k: int| 1 <= k <= relative.len() && #[trigger] any_matches(a + b, crate::ignore::path_text(relative.take(k)));
                assert(any_matches(a + b, crate::ignore::path_text(relative.take(k))));
            }
            if chosen_above(a, relative) {
                let k = choose|k: int| 1 <= k <= relative.len() && #[trigger] any_matches(a, crate::ignore::path_text(relative.take(k)));
                assert(any_matches(a + b, crate::ignore::path_text(relative.take(k))));
            }
            if chosen_above(b, relative) {
                let k = choose|k: int| 1 <= k <= relative.len() && #[trigger] any_matches(b, crate::ignore::path_text(relative.take(k)));
                assert(any_matches(a + b, crate::ignore::path_text(relative.take(k))));
            }
        }
    }
}

/// The patterns given, one list after another, gather to the globs of the
/// first followed by those of the second.
proof fn given_lists_gather_in_turn(a: Seq<Seq<char>>, b: Seq<Seq<char>>, platform: Platform, ignore_case: bool)
    requires
        gather_given(a, platform, ignore_case) is Ok,
        gather_given(b, platform, ignore_case) is Ok,
    ensures
        gather_given(a + b, platform, ignore_case)
            == Ok::<Seq<GlobSource>, Seq<char>>(gather_given(a, platform, ignore_case)->Ok_0 + gather_given(b, platform, ignore_case)->Ok_0),
    decreases b.len(),
{
    if b.len() == 0 {
        assert(a + b =~= a);
        assert(gather_given(a, platform, ignore_case)->Ok_0 + Seq::<GlobSource>::empty() =~= gather_given(a, platform, ignore_case)->Ok_0);
    } else {
        given_lists_gather_in_turn(a, b.drop_last(), platform, ignore_case);
        assert((a + b).drop_last() =~= a + b.drop_last());
        assert((a + b).last() == b.last());
        let first = gather_given(a, platform, ignore_case)->Ok_0;
        let rest = gather_given(b.drop_last(), platform, ignore_case)->Ok_0;
        let more = crate::ignore::outcome_for(b.last(), platform, ignore_case)->Ok_0;
        assert(first + rest + more =~= first + (rest + more));
    }
}

/// The same for the lines of ignore files.
proof fn line_lists_gather_in_turn(a: Seq<LineView>, b: Seq<LineView>, platform: Platform, ignore_case: bool)
    requires
        gather_lines(a, platform, ignore_case) is Ok,
        gather_lines(b, platform, ignore_case) is Ok,
    ensures
        gather_lines(a + b, platform, ignore_case)
            == Ok::<Seq<GlobSource>, Seq<char>>(gather_lines(a, platform, ignore_case)->Ok_0 + gather_lines(b, platform, ignore_case)->Ok_0),
    decreases b.len(),
{
    if b.len() == 0 {
        assert(a + b =~= a);
        assert(gather_lines(a, platform, ignore_case)->Ok_0 + Seq::<GlobSource>::empty() =~= gather_lines(a, platform, ignore_case)->Ok_0);
    } else {
        line_lists_gather_in_turn(a, b.drop_last(), platform, ignore_case);
        assert((a + b).drop_last() =~= a + b.drop_last());
        assert((a + b).last() == b.last());
        let first = gather_lines(a, platform, ignore_case)->Ok_0;
        let rest = gather_lines(b.drop_last(), platform, ignore_case)->Ok_0;
        let more = crate::ignore::outcome_for(b.last().pattern, platform, ignore_case)->Ok_0;
        assert(first + rest + more =~= first + (rest + more));
    }
}

/// Adding patterns, on the command line or in the ignore file, never stops
/// a path being ignored: where both sets of patterns are accepted and so
/// are all of them together, together they ignore exactly what either set
/// ignores.
pub proof fn adding_patterns_ignores_the_union(
    given_a: Seq<Seq<char>>,
    lines_a: Seq<LineView>,
    given_b: Seq<Seq<char>>,
    lines_b: Seq<LineView>,
    platform: Platform,
    ignore_case: bool,
    root: Seq<PartView>,
    path: Seq<PartView>,
)
    requires
        chosen_by(given_a, lines_a, platform, ignore_case) is Ok,
        chosen_by(given_b, lines_b, platform, ignore_case) is Ok,
        chosen_by(given_a + given_b, lines_a + lines_b, platform, ignore_case) is Ok,
    ensures
        ignored_by(chosen_by(given_a + given_b, lines_a + lines_b, platform, ignore_case)->Ok_0, root, path)
            == (ignored_by(chosen_by(given_a, lines_a, platform, ignore_case)->Ok_0, root, path)
                || ignored_by(chosen_by(given_b, lines_b, platform, ignore_case)->Ok_0, root, path)),
{
    given_lists_gather_in_turn(given_a, given_b, platform, ignore_case);
    line_lists_gather_in_turn(lines_a, lines_b, platform, ignore_case);
    let ga = gather_given(given_a, platform, ignore_case)->Ok_0;
    let gb = gather_given(given_b, platform, ignore_case)->Ok_0;
    let la = gather_lines(lines_a, platform, ignore_case)->Ok_0;
    let lb = gather_lines(lines_b, platform, ignore_case)->Ok_0;
    assert(chosen_by(given_a + given_b, lines_a + lines_b, platform, ignore_case)->Ok_0 =~= (ga + la) + (gb + lb)
        || chosen_by(given_a + given_b, lines_a + lines_b, platform, ignore_case)->Ok_0 =~= ga + gb + (la + lb));
    more_globs_ignore_the_union(ga + gb, la + lb, root, path);
    more_globs_ignore_the_union(ga, gb, root, path);
    more_globs_ignore_the_union(la, lb, root, path);
    more_globs_ignore_the_union(ga, la, root, path);
    more_globs_ignore_the_union(gb, lb, root, path);
}

/// A pattern reads the same on the command line as on a line of the
/// ignore file: one is accepted where the other is, and they ignore the
/// same.
pub proof fn a_pattern_reads_the_same_given_or_in_the_file(pattern: Seq<char>, number: nat, platform: Platform, ignore_case: bool)
    ensures
        chosen_by(seq![pattern], Seq::empty(), platform, ignore_case) is Ok
            <==> chosen_by(Seq::empty(), seq![LineView { number, pattern }], platform, ignore_case) is Ok,
        chosen_by(seq![pattern], Seq::empty(), platform, ignore_case) is Ok
            ==> chosen_by(seq![pattern], Seq::empty(), platform, ignore_case)
                == chosen_by(Seq::empty(), seq![LineView { number, pattern }], platform, ignore_case),
{
    let given = seq![pattern];
    let lines = seq![LineView { number, pattern }];
    assert(given.drop_last() =~= Seq::<Seq<char>>::empty());
    assert(lines.drop_last() =~= Seq::<LineView>::empty());
    match crate::ignore::outcome_for(pattern, platform, ignore_case) {
        Ok(more) => {
            assert(Seq::<GlobSource>::empty() + more =~= more);
            assert(more + Seq::<GlobSource>::empty() =~= more);
        },
        Err(_) => {},
    }
}

/// What has been told after each of some looks in turn, from `told`.
pub open spec fn told_over(
    told: Seq<Seq<char>>,
    ignored: Ignored,
    root: Seq<Part>,
    looks: Seq<Seq<WatchProblem>>,
    platform: Platform,
) -> Seq<Seq<char>>
    decreases looks.len(),
{
    if looks.len() == 0 {
        told
    } else {
        told_after(told_over(told, ignored, root, looks.drop_last(), platform), ignored, root, looks.last(), platform)
    }
}

/// However many looks there are, each meeting its own unreadable paths,
/// nothing about them is said twice, no more than the most worth saying is
/// said, and what was said stays said.
pub proof fn unreadable_paths_are_told_once_over_every_look(
    told: Seq<Seq<char>>,
    ignored: Ignored,
    root: Seq<Part>,
    looks: Seq<Seq<WatchProblem>>,
    platform: Platform,
)
    requires
        told.no_duplicates(),
        told.len() <= MOST_PROBLEMS,
    ensures
        told_over(told, ignored, root, looks, platform).no_duplicates(),
        told_over(told, ignored, root, looks, platform).len() <= MOST_PROBLEMS,
        told_over(told, ignored, root, looks, platform).len() >= told.len(),
        told_over(told, ignored, root, looks, platform).take(told.len() as int) == told,
    decreases looks.len(),
{
    if looks.len() == 0 {
        assert(told.take(told.len() as int) =~= told);
    } else {
        unreadable_paths_are_told_once_over_every_look(told, ignored, root, looks.drop_last(), platform);
        let before = told_over(told, ignored, root, looks.drop_last(), platform);
        unreadable_paths_are_told_once(before, ignored, root, looks.last(), platform);
        let after = told_over(told, ignored, root, looks, platform);
        assert(after.take(told.len() as int) =~= after.take(before.len() as int).take(told.len() as int));
    }
}

/// After each wait, the check stops only once the watcher is gone; a
/// failed watch is always watched again; and the browser is told to
/// refresh only for a failed watch or a directory that is not the one
/// watched, never for one missing for the moment or the same as before.
pub proof fn the_check_refreshes_only_for_a_failure_or_a_new_directory(
    wake: Wake,
    watched: Option<DirectoryId>,
    now: Option<DirectoryId>,
)
    ensures
        (next_check(wake, watched, now) == Check::Stop) <==> (wake == Wake::Gone),
        wake == Wake::Failed ==> next_check(wake, watched, now) == Check::Again(Rewatch::WatchFailed),
        next_check(wake, watched, now) is Again ==> (wake == Wake::Failed || (wake == Wake::TimedOut
            && watched is Some && now is Some && watched != now)),
{
}

/// One change anywhere in a batch refreshes the browser: unless the batch is
/// a build clearing the served directory, a batch holding an event that is
/// a change, wherever it stands among the others, is answered with a
/// reload, and one holding none with nothing.
pub proof fn one_change_in_a_batch_is_enough(
    ignored: Ignored,
    root: Seq<Part>,
    events: Seq<Event>,
    polling: bool,
    root_is_dir: bool,
    announced_ago: Option<u64>,
    within: u64,
    i: int,
)
    requires
        0 <= i < events.len(),
        change(ignored, root, events[i], polling),
        !clearing(events, polling, root_is_dir),
    ensures
        response_to(ignored, root, events, polling, root_is_dir, announced_ago, within) is Reload,
{
}

/// A batch with no change in it never refreshes the browser.
pub proof fn a_batch_without_a_change_is_quiet(
    ignored: Ignored,
    root: Seq<Part>,
    events: Seq<Event>,
    polling: bool,
    root_is_dir: bool,
    announced_ago: Option<u64>,
    within: u64,
)
    requires
        forall|i: int| 0 <= i < events.len() ==> !change(ignored, root, #[trigger] events[i], polling),
    ensures
        response_to(ignored, root, events, polling, root_is_dir, announced_ago, within) == Response::Quiet,
{
}

/// Only a page request gets the app page: a request whose `Accept` header
/// does not name `text/html`, such as a browser asking for a stylesheet
/// with `text/css,*/*;q=0.1`, or one with no such header, keeps its 404.
/// And every page request for a missing address outside `/assets/` gets it.
pub proof fn only_page_requests_get_the_app_page(status: u16, accept: Option<Seq<char>>, path: Seq<char>)
    ensures
        app_page_instead(status, accept, path) ==> (accept matches Some(a) && holds(a, "text/html"@)),
        status == 404 && !begins_with(path, "/assets/"@) ==> ((accept matches Some(a) && holds(a, "text/html"@))
            ==> app_page_instead(status, accept, path)),
{
}

/// The banner says live reload is off exactly when `--no-reload` is given;
/// without it and without `--poll` it says on, and with `--poll` it says
/// on and how often the files are looked at.
pub proof fn live_reload_is_off_only_with_no_reload(settings: crate::banner::Settings)
    ensures
        (crate::banner::live_reload_words(settings) == "off"@) <==> settings.no_reload,
        !settings.no_reload && !settings.poll ==> crate::banner::live_reload_words(settings) == "on"@,
        !settings.no_reload && settings.poll ==> crate::banner::live_reload_words(settings)
            == "on, looking at the files every 1s"@,
{
    reveal_strlit("off");
    reveal_strlit("on");
    reveal_strlit("on, looking at the files every ");
    reveal_strlit("on, looking at the files every 1s");
    reveal_strlit("s");
    assert(crate::text::decimal(1) == seq!['1']);
    if !settings.no_reload && settings.poll {
        assert(crate::banner::live_reload_words(settings) =~= "on, looking at the files every 1s"@);
    }
    if !settings.no_reload {
        assert(crate::banner::live_reload_words(settings)[0] == 'o');
        assert(crate::banner::live_reload_words(settings)[1] == 'n');
        assert("off"@[1] == 'f');
    }
}

/// How many newlines `s` holds.
pub open spec fn newlines(s: Seq<char>) -> nat
    decreases s.len(),
{
    if s.len() == 0 {
        0
    } else {
        newlines(s.drop_last()) + if s.last() == '\n' { 1nat } else { 0nat }
    }
}

/// True when `s` from `a` up to `b` is one whole line of `s`: it starts at
/// the beginning or just after a newline, ends at the end or just before
/// one, and holds none.
pub open spec fn whole_line(s: Seq<char>, a: int, b: int) -> bool {
    &&& 0 <= a <= b <= s.len()
    &&& (a == 0 || s[a - 1] == '\n')
    &&& (b == s.len() || s[b] == '\n')
    &&& forall|k: int| a <= k < b ==> s[k] != '\n'
}

proof fn newlines_step(s: Seq<char>, k: int)
    requires
        0 <= k < s.len(),
    ensures
        newlines(s.take(k + 1)) == newlines(s.take(k)) + if s[k] == '\n' { 1nat } else { 0nat },
{
    assert(s.take(k + 1).drop_last() =~= s.take(k));
}

proof fn newlines_none_between(s: Seq<char>, a: int, k: int)
    requires
        0 <= a <= k <= s.len(),
        forall|j: int| a <= j < k ==> s[j] != '\n',
    ensures
        newlines(s.take(k)) == newlines(s.take(a)),
    decreases k - a,
{
    if k > a {
        newlines_none_between(s, a, k - 1);
        newlines_step(s, k - 1);
    }
}

proof fn newlines_grow(s: Seq<char>, i: int, j: int)
    requires
        0 <= i <= j <= s.len(),
    ensures
        newlines(s.take(i)) <= newlines(s.take(j)),
    decreases j - i,
{
    if j > i {
        newlines_grow(s, i, j - 1);
        newlines_step(s, j - 1);
    }
}

proof fn pieces_count(s: Seq<char>)
    ensures
        pieces(s, '\n').len() == newlines(s) + 1,
    decreases s.len(),
{
    if s.len() > 0 {
        pieces_count(s.drop_last());
    }
}

/// The piece of `s` after its `n`th newline is the line that starts there.
proof fn line_is_a_piece(s: Seq<char>, a: int, b: int)
    requires
        whole_line(s, a, b),
    ensures
        newlines(s.take(a)) < pieces(s, '\n').len(),
        pieces(s, '\n')[newlines(s.take(a)) as int] == s.subrange(a, b),
    decreases s.len(),
{
    pieces_count(s);
    if s.len() == 0 {
        assert(s.take(0) =~= s);
        assert(s.subrange(a, b) =~= Seq::<char>::empty());
    } else {
        let before = s.drop_last();
        pieces_count(before);
        assert(s.take(s.len() as int) =~= s);
        assert(before.take(before.len() as int) =~= before);
        if b == s.len() {
            if a == s.len() {
                assert(s.last() == '\n');
                assert(s.subrange(a, b) =~= Seq::<char>::empty());
            } else {
                assert(s.last() != '\n');
                assert(whole_line(before, a, b - 1));
                line_is_a_piece(before, a, b - 1);
                assert(before.take(a) =~= s.take(a));
                newlines_none_between(before, a, before.len() as int);
                assert(s.subrange(a, b) =~= s.subrange(a, b - 1).push(s.last()));
                assert(before.subrange(a, b - 1) =~= s.subrange(a, b - 1));
            }
        } else {
            assert(whole_line(before, a, b));
            line_is_a_piece(before, a, b);
            assert(before.take(a) =~= s.take(a));
            assert(before.subrange(a, b) =~= s.subrange(a, b));
            if s.last() != '\n' {
                newlines_none_between(s, a, b);
                newlines_step(s, b);
                newlines_grow(before, b + 1, before.len() as int);
                assert(before.take(b + 1) =~= s.take(b + 1));
                assert(before.take(b) =~= s.take(b));
            }
        }
    }
}

/// A line worth reading is among what is read of the lines, with its number.
proof fn a_line_worth_reading_is_kept(lines: Seq<Seq<char>>, k: int)
    requires
        0 <= k < lines.len(),
        trimmed(lines[k]).len() > 0,
        trimmed(lines[k])[0] != '#',
    ensures
        worth_reading(lines).contains(LineView { number: (k + 1) as nat, pattern: trimmed(lines[k]) }),
    decreases lines.len(),
{
    let line = LineView { number: (k + 1) as nat, pattern: trimmed(lines[k]) };
    if k == lines.len() - 1 {
        let kept = worth_reading(lines.drop_last());
        assert(worth_reading(lines) == kept.push(line));
        assert(worth_reading(lines)[kept.len() as int] == line);
    } else {
        a_line_worth_reading_is_kept(lines.drop_last(), k);
        assert(lines.drop_last()[k] == lines[k]);
        let kept = worth_reading(lines.drop_last());
        let j = choose|j: int| 0 <= j < kept.len() && kept[j] == line;
        let pattern = trimmed(lines.last());
        if pattern.len() > 0 && pattern[0] != '#' {
            assert(worth_reading(lines)[j] == line);
        }
    }
}

/// Every line of the ignore file, the last one included whether or not a
/// newline ends it, that says something once trimmed and is not a comment
/// is read as a pattern, numbered by its place in the file, counting from
/// one.
pub proof fn every_line_of_the_ignore_file_is_read(contents: Seq<char>, a: int, b: int)
    requires
        whole_line(unmarked(contents), a, b),
        trimmed(unmarked(contents).subrange(a, b)).len() > 0,
        trimmed(unmarked(contents).subrange(a, b))[0] != '#',
    ensures
        patterns_in(contents).contains(LineView {
            number: newlines(unmarked(contents).take(a)) + 1,
            pattern: trimmed(unmarked(contents).subrange(a, b)),
        }),
{
    let text = unmarked(contents);
    line_is_a_piece(text, a, b);
    a_line_worth_reading_is_kept(pieces(text, '\n'), newlines(text.take(a)) as int);
}

/// What is left of `s` without its trailing separators is the start of it.
proof fn trailing_separators_come_off_the_end(s: Seq<char>, platform: Platform)
    ensures
        without_trailing_separators(s, platform).len() <= s.len(),
        without_trailing_separators(s, platform) == s.take(without_trailing_separators(s, platform).len() as int),
    decreases s.len(),
{
    if s.len() > 0 && platform.parts(s.last()) {
        trailing_separators_come_off_the_end(s.drop_last(), platform);
        let r = without_trailing_separators(s.drop_last(), platform);
        assert(s.drop_last().take(r.len() as int) =~= s.take(r.len() as int));
    } else {
        assert(s.take(s.len() as int) =~= s);
    }
}

/// A path that starts with a separator has an empty first name.
proof fn a_leading_separator_is_an_empty_name(s: Seq<char>, platform: Platform)
    requires
        s.len() > 0,
        platform.parts(s[0]),
    ensures
        names_of(s, platform).len() >= 2,
        names_of(s, platform)[0] == Seq::<char>::empty(),
    decreases s.len(),
{
    if s.len() == 1 {
        assert(s.drop_last() =~= Seq::<char>::empty());
    } else {
        a_leading_separator_is_an_empty_name(s.drop_last(), platform);
    }
}

/// A trimmed text with no white space at either end is its own trimming.
proof fn trimmed_already(p: Seq<char>)
    requires
        p.len() > 0,
        !is_space(p[0]),
        !is_space(p.last()),
    ensures
        trimmed(p) == p,
{
    assert(p.skip(0) =~= p);
    assert(p.take(p.len() as int) =~= p);
}

/// A pattern that starts with two separators names nothing it could match.
proof fn two_leading_separators_are_refused(p: Seq<char>, platform: Platform)
    requires
        p.len() >= 2,
        platform.parts(p[0]),
        platform.parts(p[1]),
    ensures
        bare_problem(bare_of(p, platform), platform) is Some,
{
    let rest = p.drop_first();
    assert(after_leading_separator(p, platform) == Some(rest));
    let bare = without_trailing_separators(rest, platform);
    trailing_separators_come_off_the_end(rest, platform);
    if bare.len() > 0 {
        assert(bare[0] == rest[0]);
        a_leading_separator_is_an_empty_name(bare, platform);
        assert(names_of(bare, platform).contains(Seq::<char>::empty()));
    }
}

/// Separators added at the end of a pattern change nothing: `cache/` and
/// `cache//` stand for what `cache` stands for, at any depth, and
/// `build/cache/` for what `build/cache` does.
pub proof fn a_trailing_separator_changes_no_pattern(p: Seq<char>, sep: char, platform: Platform)
    requires
        p.len() > 0,
        !is_space(p[0]),
        !is_space(p.last()),
        platform.parts(sep),
        pattern_check(p, platform) is Ok,
    ensures
        pattern_check(p.push(sep), platform) == pattern_check(p, platform),
{
    let q = p.push(sep);
    trimmed_already(p);
    assert(!is_space(sep));
    trimmed_already(q);
    assert(!from_a_drive(p, platform));
    // Not from a drive with the separator added either.
    if platform.backslash_parts_paths && q.len() >= 2 && platform.parts(q[0]) && platform.parts(q[1]) {
        if p.len() == 1 {
            assert(after_leading_separator(p, platform) == Some(p.drop_first()));
            assert(bare_of(p, platform) =~= Seq::<char>::empty());
        } else {
            two_leading_separators_are_refused(p, platform);
        }
        assert(false);
    }
    assert(!from_a_drive(q, platform));
    // The same leading `/` or `./`, and the same bare pattern.
    let sp = if p[0] == '.' { p.drop_first() } else { p };
    let sq = if q[0] == '.' { q.drop_first() } else { q };
    if sp.len() == 0 {
        assert(p =~= seq!['.']);
        assert(after_leading_separator(p, platform) is None);
        assert(bare_of(p, platform) =~= seq!['.']);
        assert(false);
    }
    assert(sq =~= sp.push(sep));
    match after_leading_separator(p, platform) {
        Some(rest) => {
            assert(after_leading_separator(q, platform) == Some(rest.push(sep)));
            assert(rest.push(sep).drop_last() =~= rest);
        },
        None => {
            assert(after_leading_separator(q, platform) is None);
            assert(q.drop_last() =~= p);
        },
    }
    assert(bare_of(q, platform) == bare_of(p, platform));
}

/// A pattern with no separator in it is a name matched at any depth: its
/// first glob is `**/` followed by the pattern.
pub proof fn a_bare_name_is_matched_at_any_depth(p: Seq<char>, platform: Platform)
    requires
        p.len() > 0,
        !is_space(p[0]),
        !is_space(p.last()),
        forall|i: int| 0 <= i < p.len() ==> !platform.parts(#[trigger] p[i]),
        pattern_check(p, platform) is Ok,
    ensures
        pattern_check(p, platform)->Ok_0.len() > 0,
        pattern_check(p, platform)->Ok_0[0] == seq!['*', '*', '/'] + p,
{
    trimmed_already(p);
    let sp = if p[0] == '.' { p.drop_first() } else { p };
    if sp.len() > 0 {
        assert(!platform.parts(sp[0])) by {
            if p[0] == '.' {
                assert(sp[0] == p[1]);
            }
        }
    }
    assert(after_leading_separator(p, platform) is None);
    assert(!platform.parts(p.last()));
    assert(bare_of(p, platform) == p);
}

/// A leading `/` or `./` pins a name to the top of the served directory:
/// the first glob of `/cache` or `./cache` is `cache` itself.
#[verifier::rlimit(40)]
pub proof fn a_leading_separator_pins_a_name_to_the_top(lead: Seq<char>, p: Seq<char>, sep: char, platform: Platform)
    requires
        lead == seq![sep] || lead == seq!['.', sep],
        platform.parts(sep),
        p.len() > 0,
        !is_space(p.last()),
        forall|i: int| 0 <= i < p.len() ==> !platform.parts(#[trigger] p[i]),
        pattern_check(lead + p, platform) is Ok,
    ensures
        pattern_check(lead + p, platform)->Ok_0.len() > 0,
        pattern_check(lead + p, platform)->Ok_0[0] == p,
{
    let q = lead + p;
    assert(!is_space(sep));
    assert(q[0] == lead[0]);
    assert(q.last() == p.last());
    trimmed_already(q);
    if lead == seq![sep] {
        assert(q[0] == sep);
        assert(q.drop_first() =~= p);
    } else {
        assert(q[0] == '.');
        assert(q.drop_first()[0] == sep);
        assert(q.drop_first().drop_first() =~= p);
    }
    assert(after_leading_separator(q, platform) == Some(p));
    assert(!platform.parts(p.last()));
    assert(bare_of(q, platform) == p);
}

} // verus!
