use servio::ignore::{Ignored, Line, lines_of};
use servio::paths::Part;
use servio::platform::Platform;
use std::path::{Component, Path};

const ROOT: &str = "/site";

fn parts(path: &Path) -> Vec<Part> {
    path.components()
        .map(|component| match component {
            Component::Prefix(prefix) => Part::Prefix(prefix.as_os_str().to_string_lossy().into_owned()),
            Component::RootDir => Part::Root,
            Component::CurDir => Part::Here,
            Component::ParentDir => Part::Up,
            Component::Normal(name) => Part::Name(name.to_string_lossy().into_owned()),
        })
        .collect()
}

fn here() -> Platform {
    Platform::here()
}

fn from(given: &[String], file: &[Line]) -> Result<Ignored, String> {
    Ignored::from(given, file, &here(), false)
}

fn ignoring(patterns: &[&str]) -> Ignored {
    let patterns: Vec<String> = patterns.iter().map(|it| it.to_string()).collect();
    from(&patterns, &[]).expect("the patterns should be accepted")
}

fn contains(ignored: &Ignored, root: &Path, path: &Path) -> bool {
    ignored.contains(&parts(root), &parts(path))
}

fn is_ignored(ignored: &Ignored, path: &str) -> bool {
    contains(ignored, Path::new(ROOT), Path::new(path))
}

#[test]
fn build_directories_are_ignored() {
    let ignored = ignoring(&[]);
    for path in [
        "/site/.git/HEAD",
        "/site/node_modules/left-pad/index.js",
        "/site/target/debug/app",
    ] {
        assert!(is_ignored(&ignored, path), "{path}");
    }
}

#[test]
fn ignore_editor_scratch_files_are_ignored() {
    let ignored = ignoring(&[]);
    for path in [
        "/site/index.html.swp",
        "/site/index.html~",
        "/site/draft.tmp",
        "/site/.#index.html",
        "/site/#index.html#",
        "/site/index.html___jb_tmp___",
        "/site/4913",
        "/site/.DS_Store",
    ] {
        assert!(is_ignored(&ignored, path), "{path}");
    }
}

#[test]
fn ordinary_files_are_not_ignored() {
    let ignored = ignoring(&[]);
    for path in ["/site/index.html", "/site/assets/app.css", "/site/a~b/c.js"] {
        assert!(!is_ignored(&ignored, path), "{path}");
    }
}

#[test]
fn only_the_part_below_the_root_is_judged() {
    let ignored = ignoring(&["cache"]);
    let root = Path::new("/project/target/cache/site");
    assert!(!contains(&ignored, root, Path::new("/project/target/cache/site/app.css")));
    assert!(contains(&ignored, root, Path::new("/project/target/cache/site/target/x")));
    assert!(contains(&ignored, root, Path::new("/project/target/cache/site/cache/x")));
}

#[test]
fn a_path_from_outside_the_root_is_left_alone() {
    let ignored = ignoring(&["*.css"]);
    assert!(!is_ignored(&ignored, "/elsewhere/app.css"));
}

#[test]
fn files_the_server_will_not_send_are_ignored() {
    let ignored = ignoring(&[]);
    for path in [
        "/site/.env",
        "/site/.idea/workspace.xml",
        "/site/.vscode/settings.json",
    ] {
        assert!(is_ignored(&ignored, path), "{path}");
    }
}

#[test]
fn changes_the_web_can_reach_are_not_ignored() {
    let ignored = ignoring(&[]);
    assert!(!is_ignored(&ignored, "/site/.well-known/token"));
}

#[test]
fn a_name_is_ignored_at_any_depth() {
    let ignored = ignoring(&["*.log", "cache"]);
    for path in [
        "/site/debug.log",
        "/site/build/debug.log",
        "/site/cache",
        "/site/cache/pages/index.html",
        "/site/assets/cache/x.css",
    ] {
        assert!(is_ignored(&ignored, path), "{path}");
    }
    for path in ["/site/log", "/site/cached/x.css", "/site/app.log.css"] {
        assert!(!is_ignored(&ignored, path), "{path}");
    }
}

#[test]
fn a_path_is_ignored_from_the_served_directory_down() {
    let ignored = ignoring(&["build/*.log", "tmp/**"]);
    for path in ["/site/build/a.log", "/site/tmp/a", "/site/tmp/deep/b"] {
        assert!(is_ignored(&ignored, path), "{path}");
    }
    for path in ["/site/build/sub/a.log", "/site/other/build/a.log"] {
        assert!(!is_ignored(&ignored, path), "{path}");
    }
}

#[test]
fn everything_in_a_directory_covers_the_directory_too() {
    let ignored = ignoring(&["tmp/**"]);
    assert!(is_ignored(&ignored, "/site/tmp"));
    assert!(!is_ignored(&ignored, "/site/tmpfile"));
}

#[test]
fn a_leading_slash_pins_a_name_to_the_top() {
    for pattern in ["/cache", "./cache", "/cache/"] {
        let ignored = ignoring(&[pattern]);
        assert!(is_ignored(&ignored, "/site/cache/x"), "{pattern:?}");
        assert!(!is_ignored(&ignored, "/site/assets/cache/x"), "{pattern:?}");
    }
    assert!(is_ignored(&ignoring(&["cache"]), "/site/assets/cache/x"));
}

#[test]
fn a_path_that_climbs_is_not_judged() {
    let ignored = ignoring(&["cache"]);
    assert!(!is_ignored(&ignored, "/site/cache/../app.css"));
}

#[test]
fn a_name_starting_with_a_dot_is_a_name() {
    let ignored = ignoring(&[".cache"]);
    assert!(is_ignored(&ignored, "/site/sub/.cache/x"));
}

#[test]
fn two_stars_in_the_middle_stand_for_any_depth_including_none() {
    let ignored = ignoring(&["build/**/x.log"]);
    for path in ["/site/build/x.log", "/site/build/a/b/x.log"] {
        assert!(is_ignored(&ignored, path), "{path}");
    }
    assert!(!is_ignored(&ignored, "/site/build/y.log"));
}

#[test]
fn a_pattern_may_list_alternatives_and_single_characters() {
    let ignored = ignoring(&["*.{log,map}", "draft-?.html"]);
    for path in ["/site/a.log", "/site/css/a.map", "/site/draft-1.html"] {
        assert!(is_ignored(&ignored, path), "{path}");
    }
    assert!(!is_ignored(&ignored, "/site/draft-10.html"));
}

#[test]
fn the_served_directory_itself_is_never_ignored() {
    for pattern in ["**", "*", "site"] {
        let ignored = ignoring(&[pattern]);
        assert!(
            !contains(&ignored, Path::new(ROOT), Path::new(ROOT)),
            "{pattern}"
        );
    }
}

#[test]
fn a_pattern_that_climbs_out_is_refused() {
    for pattern in ["../build", "a/../../b"] {
        let said = from(&[pattern.to_string()], &[])
            .err()
            .expect("a pattern that climbs out should be refused");
        assert!(said.contains("stays inside the served directory"), "{said}");
    }
    assert!(is_ignored(&ignoring(&["..cache"]), "/site/..cache"));
}

#[test]
fn a_pattern_naming_the_served_directory_is_refused() {
    let said = from(&[".".to_string()], &[])
        .err()
        .expect("a dot should be refused");
    assert!(said.contains("never ignored"), "{said}");

    let said = from(&["build/./x".to_string()], &[])
        .err()
        .expect("a dot in the middle should be refused");
    assert!(said.contains("leave it out"), "{said}");
    assert!(is_ignored(&ignoring(&[".cache"]), "/site/.cache/x"));
}

#[test]
fn a_pattern_keeping_a_file_back_is_refused() {
    let said = from(&["!keep.log".to_string()], &[])
        .err()
        .expect("a leading ! should be refused");
    assert!(said.contains("cannot keep a file back"), "{said}");

    assert!(is_ignored(&ignoring(&["a!b.log"]), "/site/a!b.log"));
}

#[test]
fn a_pattern_starting_from_home_is_refused() {
    for pattern in ["~", "~/site/cache"] {
        let said = from(&[pattern.to_string()], &[])
            .err()
            .expect("a home path should be refused");
        assert!(said.contains("not from your home directory"), "{said}");
    }
    assert!(is_ignored(&ignoring(&["~scratch"]), "/site/~scratch"));
}

#[test]
fn case_does_not_matter_where_the_disk_ignores_it() {
    // As on Windows and macOS, where the disk does not tell `Build.LOG`
    // from `build.log`.
    let patterns = vec!["*.log".to_string(), "cache".to_string()];
    let ignored = Ignored::from(&patterns, &[], &here(), true).unwrap();
    assert!(contains(&ignored, Path::new(ROOT), Path::new("/site/Build.LOG")));
    assert!(contains(&ignored, Path::new(ROOT), Path::new("/site/Cache/x")));
}

#[test]
fn case_matters_where_the_disk_minds_it() {
    let ignored = ignoring(&["*.log", "cache"]);
    assert!(!is_ignored(&ignored, "/site/Build.LOG"));
    assert!(!is_ignored(&ignored, "/site/Cache/x"));
}

#[test]
fn a_pattern_starting_from_a_drive_or_another_machine_is_refused() {
    // As Windows reads paths.
    let windows = Platform { backslash_parts_paths: true };
    for pattern in [r"C:\site\cache", r"\\server\share\cache"] {
        let said = Ignored::from(&[pattern.to_string()], &[], &windows, true)
            .err()
            .unwrap_or_else(|| panic!("{pattern} should be refused"));
        assert!(said.contains("not from a drive"), "{said}");
    }
}

#[test]
fn a_pattern_with_a_separator_too_many_is_refused() {
    for pattern in ["//cache", ".//cache", "build//*.log"] {
        let said = from(&[pattern.to_string()], &[])
            .err()
            .unwrap_or_else(|| panic!("{pattern} should be refused"));
        assert!(said.contains("names nothing"), "{pattern}: {said}");
    }
}

#[test]
fn a_star_does_not_cross_a_directory() {
    let one_deep = ignoring(&["build/*.log"]);
    assert!(is_ignored(&one_deep, "/site/build/a.log"));
    assert!(!is_ignored(&one_deep, "/site/build/sub/a.log"));

    let any_depth = ignoring(&["*.log"]);
    assert!(is_ignored(&any_depth, "/site/build/sub/a.log"));
}

#[test]
fn the_ways_of_writing_a_directory_all_read_the_same() {
    for pattern in ["cache", "cache/", "./cache", "/cache", " cache "] {
        let ignored = ignoring(&[pattern]);
        assert!(is_ignored(&ignored, "/site/cache/x"), "{pattern:?}");
    }
}

#[test]
fn a_pattern_that_names_nothing_is_refused() {
    for pattern in ["", " ", "/", "./"] {
        let refused = from(&[pattern.to_string()], &[]).err();
        assert!(refused.is_some(), "{pattern:?} should be refused");
    }
}

#[test]
fn a_broken_pattern_is_refused_in_plain_words() {
    let said = from(&["[abc".to_string()], &[])
        .err()
        .expect("an unclosed [ should be refused");

    assert!(said.starts_with("cannot ignore \"[abc\":"), "{said}");
    assert!(said.contains("no ] to close it"), "{said}");
}

#[test]
fn a_broken_line_of_the_ignore_file_is_named_by_its_number() {
    let line = Line {
        number: 3,
        pattern: "{a".to_string(),
    };
    let said = from(&[], &[line])
        .err()
        .expect("an unclosed { should be refused");

    assert_eq!(
        said,
        "cannot ignore \"{a\", line 3 of .servioignore: a { has no } to close it"
    );
}

#[test]
fn the_ignore_file_is_read_a_pattern_to_a_line() {
    assert!(lines_of("").is_empty(), "no file, nothing to read");

    let lines = lines_of("# what the build writes\n\n*.log\n  cache  \n");
    let read: Vec<(usize, &str)> = lines
        .iter()
        .map(|line| (line.number, line.pattern.as_str()))
        .collect();
    assert_eq!(read, [(3, "*.log"), (4, "cache")]);

    let ignored = from(&[], &lines).unwrap();
    let root = Path::new("/tmp/servio-ignore-file");
    assert!(contains(&ignored, root, &root.join("build.log")));
    assert!(contains(&ignored, root, &root.join("cache/x")));
    assert!(!contains(&ignored, root, &root.join("app.css")));
}

#[test]
fn an_invisible_mark_at_the_start_of_the_file_is_no_pattern() {
    let lines = lines_of("\u{feff}a.log\r\n#x\r\nb\r\n");
    let read: Vec<(usize, &str)> = lines
        .iter()
        .map(|line| (line.number, line.pattern.as_str()))
        .collect();
    assert_eq!(read, [(1, "a.log"), (3, "b")]);
}

#[test]
fn other_broken_patterns_are_refused_in_plain_words() {
    let said = from(&["}".to_string()], &[]).err().expect("an unopened } should be refused");
    assert_eq!(said, "cannot ignore \"}\": a } has no { to open it");
    let said = from(&["[z-a]".to_string()], &[]).err().expect("a backward range should be refused");
    assert_eq!(said, "cannot ignore \"[z-a]\": the range z-a runs backwards");
    let said = from(&["a\\".to_string()], &[]).err().expect("a dangling escape should be refused");
    assert_eq!(said, "cannot ignore \"a\\\": it ends with a \\ that escapes nothing");
}

#[test]
fn adding_patterns_never_stops_a_path_being_ignored() {
    let logs = ignoring(&["*.log"]);
    let cache = from(&[], &[Line { number: 3, pattern: "cache".to_string() }]).expect("accepted");
    let both = from(&["*.log".to_string()], &[Line { number: 3, pattern: "cache".to_string() }]).expect("accepted");

    for path in ["/site/app.log", "/site/cache/x.css", "/site/app.css", "/site/deep/cache", "/site/logs/a.txt"] {
        assert_eq!(
            is_ignored(&both, path),
            is_ignored(&logs, path) || is_ignored(&cache, path),
            "{path}"
        );
    }
    assert!(is_ignored(&both, "/site/app.log"));
    assert!(is_ignored(&both, "/site/cache/x.css"));
    assert!(!is_ignored(&both, "/site/app.css"));
}

#[test]
fn a_pattern_reads_the_same_given_or_in_the_file() {
    let given = ignoring(&["build/*.map"]);
    let filed = from(&[], &[Line { number: 7, pattern: "build/*.map".to_string() }]).expect("accepted");
    for path in ["/site/build/app.js.map", "/site/build/app.js", "/site/other/app.js.map"] {
        assert_eq!(is_ignored(&given, path), is_ignored(&filed, path), "{path}");
    }
}

#[test]
fn nothing_to_ignore_is_always_accepted() {
    assert!(from(&[], &[]).is_ok());
}
