use servio::errors::{IoFailure, IoKind};
use servio::ignore::Ignored;
use servio::paths::Part;
use servio::platform::Platform;
use servio::watch::{
    ChangeKind, Check, DirectoryId, Event, EventPath, POLL_INTERVAL, Response, Rewatch, Wake,
    WatchKind, WatchProblem, after_wake, cannot_look, cannot_watch_here, clearing_the_directory,
    is_change, just_announced, respond, rewatch_line, same_rebuild, watch_failures, worth_telling,
};
use std::path::{Component, Path};

const ROOT: &str = "/site";

fn parts(path: &str) -> Vec<Part> {
    Path::new(path)
        .components()
        .map(|component| match component {
            Component::Prefix(prefix) => Part::Prefix(prefix.as_os_str().to_string_lossy().into_owned()),
            Component::RootDir => Part::Root,
            Component::CurDir => Part::Here,
            Component::ParentDir => Part::Up,
            Component::Normal(name) => Part::Name(name.to_string_lossy().into_owned()),
        })
        .collect()
}

fn event(kind: ChangeKind, paths: &[&str]) -> Event {
    Event {
        kind,
        paths: paths
            .iter()
            .map(|path| EventPath { parts: parts(path), is_dir: false })
            .collect(),
    }
}

fn written(paths: &[&str]) -> Event {
    event(ChangeKind::Modified, paths)
}

fn nothing_chosen() -> Ignored {
    Ignored::from(&[], &[], &Platform::here(), false).expect("no patterns to refuse")
}

#[test]
fn reading_a_file_is_not_a_change() {
    let read = event(ChangeKind::OtherAccess, &["/site/index.html"]);

    assert!(!is_change(&nothing_chosen(), &parts(ROOT), &read, false));
}

#[test]
fn a_finished_save_is_a_change() {
    let saved = event(ChangeKind::ClosedAfterWrite, &["/site/index.html"]);

    assert!(is_change(&nothing_chosen(), &parts(ROOT), &saved, false));
}

#[test]
fn a_poll_says_a_file_was_written_by_its_write_time() {
    let rewritten = event(ChangeKind::WriteTime, &["/site/index.html"]);

    assert!(is_change(&nothing_chosen(), &parts(ROOT), &rewritten, true));
    assert!(!is_change(&nothing_chosen(), &parts(ROOT), &rewritten, false));
}

#[test]
fn a_directorys_own_write_time_is_not_a_change() {
    let touched = Event {
        kind: ChangeKind::WriteTime,
        paths: vec![EventPath { parts: parts(ROOT), is_dir: true }],
    };

    assert!(!is_change(&nothing_chosen(), &parts(ROOT), &touched, true));
}

#[test]
fn permissions_and_timestamps_are_not_changes() {
    let touched = event(ChangeKind::OtherMetadata, &["/site/index.html"]);

    assert!(!is_change(&nothing_chosen(), &parts(ROOT), &touched, false));
}

#[test]
fn writing_creating_and_deleting_are_changes() {
    let root = parts(ROOT);
    assert!(is_change(&nothing_chosen(), &root, &written(&["/site/app.css"]), false));
    assert!(is_change(&nothing_chosen(), &root, &event(ChangeKind::Create, &["/site/new.css"]), false));
    assert!(is_change(&nothing_chosen(), &root, &event(ChangeKind::Remove, &["/site/old.css"]), false));
}

#[test]
fn writing_an_ignored_file_is_not_a_change() {
    assert!(!is_change(&nothing_chosen(), &parts(ROOT), &written(&["/site/app.css.swp"]), false));
}

#[test]
fn one_real_file_among_ignored_ones_is_a_change() {
    let mixed = written(&["/site/app.css.swp", "/site/app.css"]);
    assert!(is_change(&nothing_chosen(), &parts(ROOT), &mixed, false));
}

#[test]
fn polling_waits_longer_to_recognise_the_echo_of_a_rebuild() {
    assert!(same_rebuild(true) >= same_rebuild(false) + POLL_INTERVAL);
}

fn could_not_read(path: &str, kind: IoKind) -> WatchProblem {
    WatchProblem {
        kind: WatchKind::Io(IoFailure { kind, unix_code: None, text: "os said no".to_string() }),
        text: "os said no".to_string(),
        path: Some(parts(path)),
        shown: path.to_string(),
    }
}

#[test]
fn a_path_that_was_not_there_is_not_worth_a_word() {
    let root = parts(ROOT);
    let here = Platform::here();

    assert!(cannot_look(&nothing_chosen(), &root, &could_not_read("/site/app.css", IoKind::NotFound), &here).is_none());

    let said = cannot_look(
        &nothing_chosen(),
        &root,
        &could_not_read("/site/app.css", IoKind::PermissionDenied),
        &here,
    )
    .expect("a path that cannot be read should be reported");
    assert!(said.starts_with("Cannot look at app.css:"), "{said}");
    assert!(!said.contains("directory"), "{said}");
}

#[test]
fn trouble_with_no_path_is_not_a_watch_that_went_down() {
    let error = WatchProblem {
        kind: WatchKind::Generic,
        text: "a walk with no end".to_string(),
        path: None,
        shown: String::new(),
    };
    let said = cannot_look(&nothing_chosen(), &parts(ROOT), &error, &Platform::here()).expect("it should be reported");

    assert!(!said.contains("Cannot watch for changes"), "{said}");
    assert!(said.contains("a walk with no end"), "{said}");
}

#[test]
fn the_served_directory_and_paths_elsewhere_keep_their_whole_names() {
    let root = parts(ROOT);
    let here = Platform::here();
    let said = cannot_look(&nothing_chosen(), &root, &could_not_read("/site", IoKind::PermissionDenied), &here).unwrap();
    assert_eq!(said, "Cannot look at /site: the system will not let this program read it");
    let said = cannot_look(&nothing_chosen(), &root, &could_not_read("/elsewhere/x", IoKind::PermissionDenied), &here).unwrap();
    assert_eq!(said, "Cannot look at /elsewhere/x: the system will not let this program read it");
    let said = cannot_look(&nothing_chosen(), &root, &could_not_read("/site/a/b.css", IoKind::PermissionDenied), &here).unwrap();
    assert_eq!(said, "Cannot look at a/b.css: the system will not let this program read it");
    assert!(cannot_look(&nothing_chosen(), &root, &could_not_read("/site/node_modules/.cache", IoKind::PermissionDenied), &here).is_none());
}

#[test]
fn an_unreadable_path_is_told_once_and_only_so_many() {
    let root = parts(ROOT);
    let here = Platform::here();
    let mut told = Vec::new();
    let errors = vec![
        could_not_read("/site/closed", IoKind::PermissionDenied),
        could_not_read("/site/closed", IoKind::PermissionDenied),
    ];
    let said = worth_telling(&nothing_chosen(), &root, &errors, &mut told, &here);
    assert_eq!(said, ["Cannot look at closed: the system will not let this program read it"]);
    let said = worth_telling(&nothing_chosen(), &root, &errors, &mut told, &here);
    assert!(said.is_empty());

    let many: Vec<WatchProblem> = (0..30).map(|n| could_not_read(&format!("/site/f{n}"), IoKind::PermissionDenied)).collect();
    let said = worth_telling(&nothing_chosen(), &root, &many, &mut told, &here);
    assert_eq!(said.len(), 19);
    assert_eq!(told.len(), 20);
}

#[test]
fn a_watch_that_went_down_says_so_for_each_failure() {
    let errors = vec![
        WatchProblem { kind: WatchKind::MaxFilesWatch, text: String::new(), path: None, shown: String::new() },
        WatchProblem { kind: WatchKind::PathNotFound, text: String::new(), path: None, shown: String::new() },
    ];
    assert_eq!(
        watch_failures(&errors),
        [
            "Cannot watch for changes: the system has no file watches left \u{2014} serve the build output rather than the whole project, or raise the limit",
            "Cannot watch for changes: there is no such directory",
        ]
    );
    assert_eq!(
        cannot_watch_here("/site", &errors[1]),
        "cannot watch /site for changes: there is no such directory"
    );
}

#[test]
fn a_rebuild_is_announced_by_the_check_and_only_echoed_by_the_watcher() {
    let root = parts(ROOT);
    let events = vec![written(&["/site/index.html"])];
    let window = same_rebuild(false);
    assert_eq!(respond(&nothing_chosen(), &root, &events, false, true, None, window), Response::Reload { say: true });
    assert_eq!(respond(&nothing_chosen(), &root, &events, false, true, Some(10), window), Response::Reload { say: false });
    assert_eq!(respond(&nothing_chosen(), &root, &events, false, true, Some(window), window), Response::Reload { say: true });
    assert!(just_announced(Some(299), 300));
    assert!(!just_announced(Some(300), 300));
    assert!(!just_announced(None, 300));
    assert_eq!(same_rebuild(false), 300);
    assert_eq!(same_rebuild(true), 1300);
}

#[test]
fn a_build_clearing_the_directory_refreshes_nothing_while_polling() {
    let root = parts(ROOT);
    let removed = vec![event(ChangeKind::Remove, &["/site/index.html"])];
    assert!(clearing_the_directory(&removed, true, false));
    assert!(!clearing_the_directory(&removed, false, false));
    assert!(!clearing_the_directory(&removed, true, true));
    assert_eq!(respond(&nothing_chosen(), &root, &removed, true, false, None, 1300), Response::Quiet);
    assert_eq!(respond(&nothing_chosen(), &root, &removed, false, false, None, 300), Response::Reload { say: true });
}

#[test]
fn the_watch_follows_the_directory_not_its_name() {
    let old = DirectoryId { volume: 1, number: 7 };
    let new = DirectoryId { volume: 1, number: 8 };
    assert_eq!(after_wake(Wake::TimedOut, Some(old), Some(old)), Check::Wait);
    assert_eq!(after_wake(Wake::TimedOut, Some(old), Some(new)), Check::Again(Rewatch::Replaced));
    assert_eq!(after_wake(Wake::TimedOut, Some(old), None), Check::Wait);
    assert_eq!(after_wake(Wake::TimedOut, None, Some(new)), Check::PutBack);
    assert_eq!(after_wake(Wake::Failed, Some(old), Some(old)), Check::Again(Rewatch::WatchFailed));
    assert_eq!(after_wake(Wake::Gone, None, None), Check::Stop);
    assert_eq!(rewatch_line(Rewatch::Replaced), "Directory replaced, reloading...");
    assert_eq!(rewatch_line(Rewatch::WatchFailed), "Watching again, reloading...");
}
