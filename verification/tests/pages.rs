use servio::banner::{Bound, Host, Settings, authority, banner, hyperlink, list_of, live_reload, on_off, row, url};
use servio::errors::{IoFailure, IoKind, because, cannot_reach, why};
use servio::serve::{app_page_looked, keep_hashed_assets, serves_app_page};

fn bound(host: Host, port: u16, shown: &str) -> Bound {
    Bound { host, port, shown: shown.to_string() }
}

#[test]
fn offers_localhost_for_every_interface_and_for_localhost_itself() {
    assert_eq!(authority(&bound(Host::V4(0, 0, 0, 0), 3030, "0.0.0.0:3030")), "localhost:3030");
    assert_eq!(authority(&bound(Host::V4(127, 0, 0, 1), 3031, "127.0.0.1:3031")), "localhost:3031");
    assert_eq!(authority(&bound(Host::V6(0, 0, 0, 0, 0, 0, 0, 1), 8080, "[::1]:8080")), "localhost:8080");
    assert_eq!(authority(&bound(Host::V6(0, 0, 0, 0, 0, 0, 0, 0), 80, "[::]:80")), "localhost:80");
    assert_eq!(authority(&bound(Host::V4(127, 0, 0, 2), 3030, "127.0.0.2:3030")), "127.0.0.2:3030");
    assert_eq!(url(&bound(Host::V4(10, 0, 0, 5), 3030, "10.0.0.5:3030")), "http://10.0.0.5:3030");
}

#[test]
fn the_banner_lines_up_its_colons() {
    assert_eq!(row("Open", "x"), "  Open           : \x1b[94mx\x1b[0m");
    assert_eq!(row("Single-page app", "on"), "  Single-page app: \x1b[94mon\x1b[0m");
    assert_eq!(row("A label longer than fifteen", "v"), "  A label longer than fifteen: \x1b[94mv\x1b[0m");
    assert_eq!(on_off(true), "on");
    assert_eq!(on_off(false), "off");
    assert_eq!(hyperlink("http://a", "a"), "\x1b]8;;http://a\x1b\\a\x1b]8;;\x1b\\");
}

#[test]
fn says_what_it_is_doing_on_the_way_up_in_lines() {
    let settings = Settings { port: None, spa: true, no_reload: false, poll: true, cache_assets: false };
    assert_eq!(live_reload(&settings), "on, looking at the files every 1s");
    let lines = banner(&bound(Host::V4(127, 0, 0, 1), 3031, "127.0.0.1:3031"), &settings, "/site", true, &Vec::new());
    assert_eq!(lines.len(), 10);
    assert_eq!(lines[0], "-----------------------------------------------");
    assert_eq!(lines[1], "  Serving        : \x1b[94m/site\x1b[0m");
    assert_eq!(lines[2], "  Note           : \x1b[94mport 3030 was busy, using 3031\x1b[0m");
    assert_eq!(lines[3], "  Live reload    : \x1b[94mon, looking at the files every 1s\x1b[0m");
    assert_eq!(lines[4], "  Single-page app: \x1b[94mon\x1b[0m");
    assert_eq!(lines[5], "  Caching        : \x1b[94moff\x1b[0m");
    assert_eq!(lines[6], "  Warning        : \x1b[94mthere is no index.html here, so no page will load\x1b[0m");
    assert_eq!(lines[7], "  Open           : \x1b[94m\x1b]8;;http://localhost:3031\x1b\\localhost:3031\x1b]8;;\x1b\\\x1b[0m");
    assert_eq!(lines[9], "");

    let quiet = Settings { port: Some(3031), spa: false, no_reload: true, poll: false, cache_assets: true };
    let lines = banner(&bound(Host::V4(127, 0, 0, 1), 3031, "127.0.0.1:3031"), &quiet, "/site", false, &Vec::new());
    assert_eq!(lines.len(), 8);
    assert_eq!(lines[2], "  Live reload    : \x1b[94moff\x1b[0m");
    assert_eq!(lines[4], "  Caching        : \x1b[94mfiles under /assets/ for a year\x1b[0m");
}

#[test]
fn only_a_missing_page_route_gets_the_app() {
    assert!(serves_app_page(404, Some("text/html,*/*"), "/users/123"));
    assert!(!serves_app_page(200, Some("text/html"), "/users/123"));
    assert!(!serves_app_page(404, Some("*/*"), "/gone.js"));
    assert!(!serves_app_page(404, None, "/users/123"));
    assert!(!serves_app_page(404, Some("text/html"), "/assets/typo.js"));
}

#[test]
fn hashed_files_that_are_there_are_kept_for_a_year() {
    assert_eq!(keep_hashed_assets("/assets/app-abc123.css", 200), "public, max-age=31536000, immutable");
    assert_eq!(keep_hashed_assets("/assets/app-abc123.css", 304), "public, max-age=31536000, immutable");
    assert_eq!(keep_hashed_assets("/assets/missing.css", 404), "no-cache");
    assert_eq!(keep_hashed_assets("/nowhere.png", 200), "no-cache");
}

#[test]
fn a_failure_is_one_sentence_in_plain_words() {
    let failure = |kind, unix_code| IoFailure { kind, unix_code, text: "Bad address (os error 14)".to_string() };
    assert_eq!(
        cannot_reach("cannot serve /site", &failure(IoKind::NotFound, Some(2))).whole(),
        "cannot serve /site: there is no such directory"
    );
    // On its own, the failure says only what could not be done.
    let alone = cannot_reach("cannot serve /site", &failure(IoKind::NotFound, Some(2)));
    assert_eq!(alone.plain(), "cannot serve /site");
    assert_eq!(alone.why, "there is no such directory");
    assert_eq!(why(&failure(IoKind::PermissionDenied, Some(13))), "the system will not let this program read it");
    assert_eq!(why(&failure(IoKind::NotADirectory, Some(20))), "part of that path is a file, not a directory");
    assert_eq!(why(&failure(IoKind::IsADirectory, Some(21))), "it is a directory, not a file");
    assert!(why(&failure(IoKind::Unlisted, Some(24))).starts_with("the system has no open files left"));
    assert!(why(&failure(IoKind::Unlisted, Some(23))).starts_with("the system has no open files left"));
    assert_eq!(why(&failure(IoKind::Unlisted, Some(14))), "Bad address (os error 14)");
    assert_eq!(because("cannot serve /x", "it is not a directory"), "cannot serve /x: it is not a directory");
}

#[test]
fn a_missing_app_page_is_said_once_each_time_it_goes() {
    // The banner said it already: the first request stays quiet.
    assert_eq!(app_page_looked(true, false), (false, true));
    // It goes missing while the server runs: said once, then not again.
    assert_eq!(app_page_looked(false, false), (true, true));
    let (_, missing) = app_page_looked(false, false);
    assert_eq!(app_page_looked(missing, false), (false, true));
    // Back, then gone again: said afresh.
    let (_, missing) = app_page_looked(true, true);
    assert!(!missing);
    assert_eq!(app_page_looked(missing, false), (true, true));
}

#[test]
fn the_banner_lists_what_is_being_ignored() {
    let settings = Settings { port: Some(3030), spa: false, no_reload: false, poll: false, cache_assets: false };
    let ignoring = vec!["*.log".to_string(), "cache".to_string(), "build/*.log".to_string()];
    let lines = banner(&bound(Host::V4(127, 0, 0, 1), 3030, "127.0.0.1:3030"), &settings, "/site", false, &ignoring);
    assert_eq!(lines.len(), 9);
    assert_eq!(lines[5], "  Ignoring       : \x1b[94m*.log, cache, build/*.log\x1b[0m");
    assert!(lines[6].starts_with("  Open"));

    let lines = banner(&bound(Host::V4(127, 0, 0, 1), 3030, "127.0.0.1:3030"), &settings, "/site", false, &Vec::new());
    assert!(!lines.iter().any(|line| line.contains("Ignoring")));

    assert_eq!(list_of(&Vec::new()), "");
    assert_eq!(list_of(&vec!["one".to_string()]), "one");
}
