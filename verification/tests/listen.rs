use servio::errors::{IoFailure, IoKind};
use servio::listen::{Next, after_refusal_of, first_port, is_taken};

fn refused(kind: IoKind) -> IoFailure {
    IoFailure { kind, unix_code: None, text: "refused".to_string() }
}

#[test]
fn a_port_the_system_keeps_is_stepped_past_like_a_busy_one() {
    assert!(is_taken(IoKind::AddrInUse));
    assert!(is_taken(IoKind::PermissionDenied));

    // This address does not exist here; the next port would not help.
    assert!(!is_taken(IoKind::AddrNotAvailable));
}

fn failed(next: Next) -> String {
    match next {
        Next::Fail(said) => said,
        Next::Try(port) => panic!("expected a failure, got port {port}"),
    }
}

#[test]
fn a_port_asked_for_is_the_only_one_tried() {
    assert_eq!(first_port(Some(8080)), 8080);
    let said = failed(after_refusal_of(Some(8080), 8080, &refused(IoKind::AddrInUse), "127.0.0.1", "127.0.0.1:8080"));
    assert_eq!(said, "port 8080 is already in use \u{2014} choose another one with --port");
    let said = failed(after_refusal_of(Some(80), 80, &refused(IoKind::PermissionDenied), "127.0.0.1", "127.0.0.1:80"));
    assert_eq!(said, "the system will not give this program port 80 \u{2014} choose another one with --port");
    let said = failed(after_refusal_of(Some(80), 80, &refused(IoKind::AddrNotAvailable), "10.9.9.9", "10.9.9.9:80"));
    assert_eq!(said, "this machine has no address 10.9.9.9 \u{2014} check --host");
    let said = failed(after_refusal_of(Some(80), 80, &refused(IoKind::Unlisted), "127.0.0.1", "127.0.0.1:80"));
    assert_eq!(said, "cannot listen on 127.0.0.1:80: refused");
}

#[test]
fn with_none_asked_for_the_next_port_is_tried_up_to_the_last() {
    assert_eq!(first_port(None), 3030);
    assert!(matches!(after_refusal_of(None, 3030, &refused(IoKind::AddrInUse), "h", "a"), Next::Try(3031)));
    assert!(matches!(after_refusal_of(None, 3038, &refused(IoKind::PermissionDenied), "h", "a"), Next::Try(3039)));
    let said = failed(after_refusal_of(None, 3039, &refused(IoKind::AddrInUse), "h", "a"));
    assert_eq!(said, "no free port between 3030 and 3039 \u{2014} choose another one with --port");
    let said = failed(after_refusal_of(None, 3030, &refused(IoKind::AddrNotAvailable), "h", "a"));
    assert_eq!(said, "this machine has no address h \u{2014} check --host");
}
