use containerd_manager::error::{Code, IoError, IoKind, Status};
use containerd_manager::time::Duration;
use containerd_manager::util::{
    into_crate_error, map_image_status, poll_until, rpc_result, validate_identifier, PollVerdict,
    MAX_IDENTIFIER_LEN,
};
use containerd_manager::Error;

#[test]
fn validate_accepts_simple() {
    assert!(validate_identifier("a").is_ok());
    assert!(validate_identifier("abc").is_ok());
    assert!(validate_identifier("ABC123").is_ok());
}

#[test]
fn validate_accepts_internal_separators() {
    assert!(validate_identifier("my-container").is_ok());
    assert!(validate_identifier("my_container").is_ok());
    assert!(validate_identifier("my.container").is_ok());
    assert!(validate_identifier("a.b-c_d").is_ok());
}

#[test]
fn validate_rejects_empty() {
    assert!(validate_identifier("").is_err());
}

#[test]
fn validate_rejects_path_traversal() {
    assert!(validate_identifier("..").is_err());
    assert!(validate_identifier("../foo").is_err());
    assert!(validate_identifier("foo/bar").is_err());
}

#[test]
fn validate_rejects_shell_metachars() {
    assert!(validate_identifier("foo;ls").is_err());
    assert!(validate_identifier("foo$bar").is_err());
    assert!(validate_identifier("foo`bar`").is_err());
    assert!(validate_identifier("foo bar").is_err());
}

#[test]
fn validate_rejects_leading_or_trailing_separator() {
    assert!(validate_identifier("-foo").is_err());
    assert!(validate_identifier("foo-").is_err());
    assert!(validate_identifier(".foo").is_err());
    assert!(validate_identifier("foo.").is_err());
}

#[test]
fn validate_rejects_consecutive_separators() {
    assert!(validate_identifier("foo--bar").is_err());
    assert!(validate_identifier("foo._bar").is_err());
}

#[test]
fn validate_rejects_too_long() {
    let s = "a".repeat(MAX_IDENTIFIER_LEN + 1);
    assert!(validate_identifier(&s).is_err());
}

#[test]
fn validate_accepts_max_length() {
    let s = "a".repeat(MAX_IDENTIFIER_LEN);
    assert!(validate_identifier(&s).is_ok());
}

fn complaint(id: &str) -> String {
    match validate_identifier(id) {
        Err(Error::InvalidArgument(m)) => m,
        _ => panic!("{id} went through"),
    }
}

#[test]
fn complaints_show_the_identifier() {
    assert_eq!(complaint(""), "identifier must not be empty");
    assert_eq!(
        complaint(&"a".repeat(77)),
        format!("identifier exceeds 76 characters: \"{}\"", "a".repeat(77))
    );
    assert_eq!(
        complaint("a\"-"),
        "identifier must start and end with an alphanumeric: \"a\\\"-\""
    );
    assert_eq!(complaint("a--b"), "identifier contains consecutive separators: \"a--b\"");
    assert_eq!(complaint("a\nb"), "identifier contains invalid character '\\n': \"a\\nb\"");
    // The offending byte of a longer character is shown by itself.
    assert_eq!(
        complaint("a\u{e9}b"),
        "identifier contains invalid character '\u{c3}': \"a\u{e9}b\""
    );
    // What comes first is complained about.
    assert_eq!(complaint("a--b c"), "identifier contains consecutive separators: \"a--b c\"");
}

#[test]
fn image_statuses_are_mapped() {
    let status = |code| Status { code, message: "m".to_string() };
    assert!(matches!(
        map_image_status("get_image", "busybox", status(Code::NotFound)),
        Error::ImageNotFound(i) if i == "busybox"
    ));
    assert!(matches!(
        map_image_status("get_image", "busybox", status(Code::Internal)),
        Error::Containerd { op: "get_image", source } if source.code == Code::Internal
    ));
    assert!(matches!(
        into_crate_error(status(Code::NotFound), "x"),
        Error::Containerd { op: "x", .. }
    ));
    assert_eq!(rpc_result("x", Ok(3)).unwrap(), 3);
    assert!(matches!(
        rpc_result::<u8>("x", Err(status(Code::Aborted))),
        Err(Error::Containerd { op: "x", source }) if source.message == "m"
    ));
}

#[test]
fn polling_ends_with_the_deadline() {
    let s = Duration::from_secs;
    assert_eq!(poll_until(s(1), s(1), true), PollVerdict::Ready);
    assert_eq!(poll_until(s(1), s(1), false), PollVerdict::Again);
    assert_eq!(poll_until(s(2), s(1), true), PollVerdict::TimedOut);
}

#[test]
fn errors_show_what_went_wrong() {
    let s = |t: &str| t.to_string();
    let status = || Status { code: Code::Internal, message: "m".to_string() };
    let io = IoError { kind: IoKind::Other, message: s("disk") };
    let cases = [
        (
            Error::SocketNotFound { path: s("/p") },
            "containerd socket not found at '/p'. Is containerd running? (hint: start Colima or set CONTAINERD_SOCKET)",
        ),
        (
            Error::ConnectionRefused { path: s("/p") },
            "connection refused to containerd socket at '/p'. Is containerd running?",
        ),
        (Error::Transport(s("x")), "transport error"),
        (Error::Containerd { op: "pull", source: status() }, "containerd pull failed"),
        (Error::Io { context: "read", source: io }, "io error: read"),
        (Error::ImageNotFound(s("i")), "image not found: i"),
        (Error::ContainerAlreadyExists(s("c")), "container already exists: c"),
        (Error::ContainerNotFound(s("c")), "container not found: c"),
        (Error::TaskAlreadyExists(s("c")), "task already exists for container: c"),
        (Error::TaskNotFound(s("c")), "task not found: c"),
        (Error::TaskExited(s("c")), "task exited before becoming ready: c"),
        (Error::SnapshotAlreadyExists(s("s")), "snapshot already exists: s"),
        (Error::SnapshotNotFound(s("s")), "snapshot not found: s"),
        (
            Error::SnapshotNotManaged { name: s("s") },
            "snapshot 's' was not created by containerd-manager (missing managed label)",
        ),
        (Error::StatePoisoned("lock"), "internal client state poisoned: lock"),
        (Error::Timeout(s("t")), "timeout: t"),
        (Error::PortForward(s("p")), "port forwarding error: p"),
        (Error::InvalidArgument(s("a")), "invalid argument: a"),
        (Error::ResourceExhausted(s("r")), "resource exhausted: r"),
        (Error::NotImplemented, "not implemented"),
    ];
    for (e, text) in cases {
        assert_eq!(e.message(), text);
    }
}
