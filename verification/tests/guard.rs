use servio::guard::{decode, hex, is_hidden, leads_inside, names_a_hidden_file, names_a_hidden_file_on, relative_address, unescape};
use servio::paths::Part;
use servio::platform::Platform;

fn name(n: &str) -> Part {
    Part::Name(n.to_string())
}

#[test]
fn hidden_addresses_are_refused() {
    for path in [
        "/.env",
        "/.git/config",
        "/%2e%65nv",
        "/%2Eenv",
        "/js/.hidden.js",
        "/.well-known/.secret",
    ] {
        assert!(names_a_hidden_file(path), "{path}");
    }
}

#[test]
fn an_encoded_separator_does_not_hide_a_hidden_file() {
    for path in ["/sub%2f.env", "/sub%2F.env", "/sub%2f.git%2fconfig"] {
        assert!(names_a_hidden_file(path), "{path}");
    }
}

#[test]
fn a_backslash_is_an_ordinary_character_in_a_name_here() {
    assert!(!names_a_hidden_file("/sub%5c.env"));
}

#[test]
fn ordinary_addresses_are_allowed() {
    for path in ["/", "/index.html", "/a.b/c.js", "/.well-known/acme/token"] {
        assert!(!names_a_hidden_file(path), "{path}");
    }
}

#[test]
fn a_backslash_parts_names_where_it_parts_directories() {
    let windows = Platform { backslash_parts_paths: true };
    assert!(names_a_hidden_file_on("/sub%5c.env", &windows));
    assert!(names_a_hidden_file_on("/sub\\.env", &windows));
}

#[test]
fn each_escape_is_decoded_once() {
    assert_eq!(unescape(b"%2e%2E%41"), b".\x2eA");
    assert_eq!(unescape(b"%252e"), b"%2e");
    assert_eq!(unescape(b"%g1%4"), b"%g1%4");
    assert_eq!(unescape(b"100%"), b"100%");
    assert_eq!(hex(&b'f'), Some(15));
    assert_eq!(hex(&b'A'), Some(10));
    assert_eq!(hex(&b'9'), Some(9));
    assert_eq!(hex(&b'g'), None);
}

#[test]
fn decoded_bytes_are_read_as_text() {
    assert_eq!(decode("/caf%C3%A9"), "/café");
    assert_eq!(decode("/%41"), "/A");
    assert_eq!(decode("/%ff"), "/\u{fffd}");
}

#[test]
fn the_address_is_looked_up_below_the_served_directory() {
    let unix = Platform { backslash_parts_paths: false };
    assert_eq!(relative_address("//a%2fb", &unix), "a/b");
    assert_eq!(relative_address("/", &unix), "");
    let windows = Platform { backslash_parts_paths: true };
    assert_eq!(relative_address("/%5c/x", &windows), "x");
}

#[test]
fn a_link_leading_out_is_refused_and_one_leading_nowhere_is_not() {
    let root = vec![Part::Root, name("site")];
    let inside = vec![Part::Root, name("site"), name("a.css")];
    let outside = vec![Part::Root, name("etc"), name("passwd")];
    let sibling = vec![Part::Root, name("site2")];
    assert!(leads_inside(Some(&inside), &root));
    assert!(!leads_inside(Some(&outside), &root));
    assert!(!leads_inside(Some(&sibling), &root));
    assert!(leads_inside(None, &root));
}

#[test]
fn only_the_web_s_own_hidden_directory_is_served() {
    assert!(is_hidden(".env"));
    assert!(is_hidden(".well-knownx"));
    assert!(!is_hidden(".well-known"));
    assert!(!is_hidden("index.html"));
    assert!(!is_hidden(""));
}

#[test]
fn escaping_an_address_changes_nothing_hidden() {
    for (plain, escaped) in [
        ("/sub/.env", "/sub%2f.env"),
        ("/sub/.env", "/sub%2F%2eenv"),
        ("/.git/config", "%2F%2Egit%2fconfig"),
        ("/index.html", "/%69ndex.html"),
        ("/a.b/c.js", "/a%2Eb/c.js"),
    ] {
        assert_eq!(names_a_hidden_file(plain), names_a_hidden_file(escaped), "{escaped}");
    }
}
