//! What the running server promises, checked at the decisions the library
//! makes for it: what it says, which port it takes, what it hands out and
//! when it refreshes the browser.

use servio::banner::{Bound, Host, Settings, banner};
use servio::errors::{IoFailure, IoKind, cannot_reach};
use servio::guard::names_a_hidden_file;
use servio::ignore::Ignored;
use servio::listen::{Next, after_refusal_of};
use servio::paths::Part;
use servio::platform::Platform;
use servio::serve::{app_page_looked, keep_hashed_assets, serves_app_page};
use servio::watch::{
    ChangeKind, Check, DirectoryId, Event, EventPath, Response, Rewatch, Wake, WatchKind,
    WatchProblem, after_wake, cannot_watch_here, respond, rewatch_line, same_rebuild,
    worth_telling,
};

/// What a browser asks for when it wants a page.
const PAGE: &str = "text/html,application/xhtml+xml,application/xml;q=0.9,*/*;q=0.8";

fn site() -> Vec<Part> {
    vec![Part::Root, Part::Name("site".to_string())]
}

fn below(names: &[&str]) -> Vec<Part> {
    let mut parts = site();
    parts.extend(names.iter().map(|name| Part::Name(name.to_string())));
    parts
}

fn event(kind: ChangeKind, paths: &[&[&str]]) -> Event {
    Event {
        kind,
        paths: paths.iter().map(|names| EventPath { parts: below(names), is_dir: false }).collect(),
    }
}

fn nothing_chosen() -> Ignored {
    Ignored::from(&[], &[], &Platform::here(), false).expect("no patterns to refuse")
}

fn system(kind: IoKind, code: i32, text: &str) -> IoFailure {
    IoFailure { kind, unix_code: Some(code), text: text.to_string() }
}

fn on(host: Host, port: u16, shown: &str) -> Bound {
    Bound { host, port, shown: shown.to_string() }
}

fn defaults() -> Settings {
    Settings { port: None, spa: false, no_reload: false, poll: false, cache_assets: false }
}

fn failed(next: Next) -> String {
    match next {
        Next::Fail(said) => said,
        Next::Try(port) => panic!("expected a failure, got port {port}"),
    }
}

#[test]
fn a_directory_that_does_not_exist_names_itself() {
    let said = cannot_reach(
        "cannot serve /definitely/not/here",
        &system(IoKind::NotFound, 2, "No such file or directory (os error 2)"),
    )
    .whole();

    assert!(said.contains("/definitely/not/here"), "{said}");
    assert!(said.contains("no such directory"), "{said}");
    assert!(!said.contains("os error"), "{said}");
}

#[test]
fn a_directory_it_may_not_reach_says_so_plainly() {
    let said = cannot_reach(
        "cannot serve /tmp/locked/inner",
        &system(IoKind::PermissionDenied, 13, "Permission denied (os error 13)"),
    )
    .whole();

    assert!(said.contains("will not let this program read it"), "{said}");
    assert!(!said.contains("os error"), "{said}");
}

#[test]
fn a_directory_it_may_not_read_says_so_plainly() {
    let problem = WatchProblem {
        kind: WatchKind::Io(system(IoKind::PermissionDenied, 13, "Permission denied (os error 13)")),
        text: "Permission denied (os error 13) about [\"/tmp/closed\"]".to_string(),
        path: Some(vec![Part::Root, Part::Name("tmp".to_string()), Part::Name("closed".to_string())]),
        shown: "/tmp/closed".to_string(),
    };
    let said = cannot_watch_here("/tmp/closed", &problem);

    assert!(said.contains("will not let this program read it"), "{said}");
    assert!(!said.contains("os error"), "{said}");
    assert!(!said.contains("about ["), "{said}");
}

#[test]
fn offers_localhost_when_listening_everywhere() {
    let lines = banner(&on(Host::V4(0, 0, 0, 0), 3030, "0.0.0.0:3030"), &defaults(), "/site", false, &Vec::new());

    assert!(lines.iter().any(|line| line.contains("localhost")));
}

#[test]
fn offers_the_real_address_when_it_is_not_localhost() {
    let lines = banner(&on(Host::V4(127, 0, 0, 2), 3030, "127.0.0.2:3030"), &defaults(), "/site", false, &Vec::new());

    assert!(lines.iter().any(|line| line.contains("127.0.0.2")), "{}", lines.join("\n"));
    assert!(!lines.iter().any(|line| line.contains("localhost")), "{}", lines.join("\n"));
}

#[test]
fn says_what_it_is_doing_on_the_way_up() {
    let lines = banner(&on(Host::V4(127, 0, 0, 1), 3030, "127.0.0.1:3030"), &defaults(), "/site", false, &Vec::new());

    for label in ["Serving", "Live reload", "Single-page app"] {
        assert!(lines.iter().any(|line| line.contains(label)), "{label}");
    }
}

#[test]
fn a_port_that_was_asked_for_is_never_swapped_for_another() {
    let said = failed(after_refusal_of(
        Some(4321),
        4321,
        &system(IoKind::AddrInUse, 98, "Address already in use (os error 98)"),
        "127.0.0.1",
        "127.0.0.1:4321",
    ));

    assert!(said.contains("4321"), "{said}");
    assert!(said.contains("already in use"), "{said}");
    assert!(!said.contains("os error"), "{said}");
}

#[test]
fn the_next_port_is_used_when_none_was_asked_for() {
    let busy = system(IoKind::AddrInUse, 98, "Address already in use (os error 98)");
    let next = after_refusal_of(None, 3030, &busy, "127.0.0.1", "127.0.0.1:3030");
    let Next::Try(second) = next else {
        panic!("the second server should have stepped up");
    };
    assert!(second > 3030);

    let lines = banner(&on(Host::V4(127, 0, 0, 1), second, "127.0.0.1:3031"), &defaults(), "/site", false, &Vec::new());
    assert!(lines.iter().any(|line| line.contains("was busy")), "{}", lines.join("\n"));
}

#[test]
fn a_port_the_system_will_not_give_us_says_so_plainly() {
    let said = failed(after_refusal_of(
        Some(80),
        80,
        &system(IoKind::PermissionDenied, 13, "Permission denied (os error 13)"),
        "127.0.0.1",
        "127.0.0.1:80",
    ));

    assert!(said.contains("80"), "{said}");
    assert!(said.contains("--port"), "{said}");
    assert!(!said.contains("os error"), "{said}");
}

#[test]
fn hashed_assets_are_kept_and_everything_else_is_checked() {
    assert_eq!(keep_hashed_assets("/assets/app-abc123.css", 200), "public, max-age=31536000, immutable");
    assert_eq!(keep_hashed_assets("/", 200), "no-cache");
    assert_eq!(keep_hashed_assets("/nowhere.png", 404), "no-cache");
}

#[test]
fn an_address_with_no_file_behind_it_gets_the_app() {
    assert!(serves_app_page(404, Some(PAGE), "/users/123"));
}

#[test]
fn a_missing_script_or_image_is_still_not_found() {
    assert!(!serves_app_page(404, Some("*/*"), "/assets/typo.js"));
    assert!(!serves_app_page(404, Some("image/*"), "/photo.png"));
}

#[test]
fn real_files_are_still_served() {
    assert!(!serves_app_page(200, None, "/assets/app.css"));
    assert!(!serves_app_page(200, Some(PAGE), "/"));
}

#[test]
fn hidden_files_stay_hidden() {
    assert!(names_a_hidden_file("/.env"));
}

#[test]
fn says_so_when_there_is_no_index_to_fall_back_on() {
    let spa = Settings { spa: true, ..defaults() };
    let lines = banner(&on(Host::V4(127, 0, 0, 1), 3030, "127.0.0.1:3030"), &spa, "/site", true, &Vec::new());
    assert_eq!(lines.iter().filter(|line| line.contains("no page will load")).count(), 1);

    // The banner already said it; the first request does not say it again.
    let (say, _) = app_page_looked(true, false);
    assert!(!say, "said twice");
}

#[test]
fn says_so_each_time_the_app_page_goes_missing() {
    let mut said = 0;
    let mut missing = false;
    // Removed, then a request for a route; back, and a request for a real
    // file; removed again, and two more routes.
    for found in [false, true, false, false] {
        let (say, now) = app_page_looked(missing, found);
        missing = now;
        if say {
            said += 1;
        }
    }

    assert_eq!(said, 2, "said for each address, or not each time it went");
}

#[test]
fn serving_a_page_does_not_refresh_it() {
    let read = vec![event(ChangeKind::OtherAccess, &[&["index.html"]])];

    assert_eq!(respond(&nothing_chosen(), &site(), &read, false, true, None, 300), Response::Quiet);
}

#[test]
fn files_that_are_never_served_do_not_refresh() {
    let hidden = vec![
        event(ChangeKind::Modified, &[&[".env"]]),
        event(ChangeKind::Modified, &[&["node_modules", "left-pad", "index.js"]]),
    ];

    assert_eq!(respond(&nothing_chosen(), &site(), &hidden, false, true, None, 300), Response::Quiet);
}

#[test]
fn changes_the_web_can_reach_still_refresh() {
    let known = vec![event(ChangeKind::Modified, &[&[".well-known", "security.txt"]])];

    assert_eq!(
        respond(&nothing_chosen(), &site(), &known, false, true, None, 300),
        Response::Reload { say: true }
    );
}

#[test]
fn changing_only_permissions_does_not_refresh() {
    let touched = vec![event(ChangeKind::OtherMetadata, &[&["index.html"]])];

    assert_eq!(respond(&nothing_chosen(), &site(), &touched, false, true, None, 300), Response::Quiet);
}

#[test]
fn while_polling_the_ignored_files_are_still_ignored() {
    let mut directory = event(ChangeKind::WriteTime, &[&[]]);
    directory.paths[0].is_dir = true;
    let scratch = vec![
        directory,
        event(ChangeKind::Create, &[&["index.html.swp"]]),
        event(ChangeKind::Create, &[&["node_modules", "left-pad", "index.js"]]),
    ];

    assert_eq!(respond(&nothing_chosen(), &site(), &scratch, true, true, None, 1300), Response::Quiet);
}

#[test]
fn while_polling_a_rebuild_is_not_reported_as_a_fault() {
    // Files vanish under the look while a build clears the directory.
    let gone = WatchProblem {
        kind: WatchKind::Io(system(IoKind::NotFound, 2, "No such file or directory (os error 2)")),
        text: "No such file or directory (os error 2)".to_string(),
        path: Some(below(&["index.html"])),
        shown: "/site/index.html".to_string(),
    };
    let mut told = Vec::new();
    let said = worth_telling(&nothing_chosen(), &site(), &vec![gone], &mut told, &Platform::here());
    assert!(said.is_empty(), "{said:?}");

    let cleared = vec![event(ChangeKind::Remove, &[&["index.html"]])];
    assert_eq!(respond(&nothing_chosen(), &site(), &cleared, true, false, None, 1300), Response::Quiet);
}

#[test]
fn a_rebuild_is_announced_once() {
    let old = DirectoryId { volume: 1, number: 7 };
    let new = DirectoryId { volume: 1, number: 8 };

    let Check::Again(reason) = after_wake(Wake::TimedOut, Some(old), Some(new)) else {
        panic!("a replaced directory should be watched again");
    };
    assert_eq!(reason, Rewatch::Replaced);
    assert_eq!(rewatch_line(reason), "Directory replaced, reloading...");

    // The watcher's own account of the same rebuild arrives later, and is
    // the echo of the line just said.
    let written = vec![event(ChangeKind::Create, &[&["index.html"]])];
    let window = same_rebuild(false);
    assert_eq!(
        respond(&nothing_chosen(), &site(), &written, false, true, Some(50), window),
        Response::Reload { say: false }
    );
}
