use containerd_manager::connect::{
    connect, connect_unix, default_socket_path, find_colima_socket_in, profile_socket,
    resolve_socket_path_with, Profile, SocketProbe,
};
use containerd_manager::error::{IoError, IoKind};
use containerd_manager::Error;

fn default() -> String {
    default_socket_path(false, None)
}

#[test]
fn resolve_explicit_path_takes_precedence() {
    let path = resolve_socket_path_with(Some("/my/socket.sock"), None, &default());
    assert_eq!(path, "/my/socket.sock");
}

#[test]
fn resolve_env_var_overrides_default() {
    let path = resolve_socket_path_with(None, Some("/from/env.sock"), &default());
    assert_eq!(path, "/from/env.sock");
}

#[test]
fn resolve_empty_env_var_falls_through() {
    let path = resolve_socket_path_with(None, Some(""), &default());
    assert_eq!(path, default());
}

#[test]
fn resolve_unset_env_var_falls_through() {
    let path = resolve_socket_path_with(None, None, &default());
    assert_eq!(path, default());
}

#[test]
fn resolve_explicit_beats_env_var() {
    let path =
        resolve_socket_path_with(Some("/explicit.sock"), Some("/from/env.sock"), &default());
    assert_eq!(path, "/explicit.sock");
}

#[test]
fn default_socket_depends_on_the_platform() {
    assert_eq!(default_socket_path(false, None), "/run/containerd/containerd.sock");
    assert_eq!(
        default_socket_path(false, Some("/colima".to_string())),
        "/run/containerd/containerd.sock"
    );
    assert_eq!(default_socket_path(true, None), "/var/run/containerd/containerd.sock");
    assert_eq!(default_socket_path(true, Some("/colima".to_string())), "/colima");
}

/// The profiles that have a socket, of those given.
fn profiles(list: &[(&str, bool)]) -> Vec<Profile> {
    list.iter()
        .filter(|(_, with_sock)| *with_sock)
        .map(|(name, _)| Profile {
            name: name.to_string(),
            socket: profile_socket("/home/me/.colima", name),
        })
        .collect()
}

#[test]
fn find_colima_socket_returns_none_for_missing_dir() {
    assert!(find_colima_socket_in(&profiles(&[])).is_none());
}

#[test]
fn find_colima_socket_returns_none_when_empty() {
    assert!(find_colima_socket_in(&vec![]).is_none());
}

#[test]
fn find_colima_socket_returns_none_when_no_profile_has_sock() {
    let found = find_colima_socket_in(&profiles(&[("default", false), ("custom", false)]));
    assert!(found.is_none());
}

#[test]
fn find_colima_socket_prefers_non_default_profile() {
    let sock =
        find_colima_socket_in(&profiles(&[("default", true), ("containerd-dev", true)])).unwrap();
    // Must NOT have picked the "default" profile.
    assert!(!sock.starts_with("/home/me/.colima/default"));
    assert!(sock.ends_with("containerd.sock"));
}

#[test]
fn find_colima_socket_falls_back_to_default_when_only_option() {
    let sock = find_colima_socket_in(&profiles(&[("default", true)])).unwrap();
    assert_eq!(sock, "/home/me/.colima/default/containerd.sock");
}

#[test]
fn find_colima_socket_skips_profile_without_sock() {
    let sock = find_colima_socket_in(&profiles(&[("custom", false), ("default", true)])).unwrap();
    assert_eq!(sock, "/home/me/.colima/default/containerd.sock");
}

#[test]
fn find_colima_socket_takes_the_first_by_name() {
    for order in [
        ["zeta", "alpha", "default", "alph", "mid"],
        ["default", "mid", "alph", "zeta", "alpha"],
    ] {
        let list: Vec<(&str, bool)> = order.iter().map(|n| (*n, true)).collect();
        let sock = find_colima_socket_in(&profiles(&list)).unwrap();
        assert_eq!(sock, "/home/me/.colima/alph/containerd.sock");
    }
}

#[test]
fn connect_socket_not_found() {
    match connect_unix("/path/to/nowhere.sock".to_string(), SocketProbe::Missing) {
        Err(Error::SocketNotFound { path }) => assert_eq!(path, "/path/to/nowhere.sock"),
        other => panic!("Expected SocketNotFound error, got: {:?}", other),
    }
}

#[test]
fn connect_happy_path() {
    assert!(connect_unix("/c.sock".to_string(), SocketProbe::Connected).is_ok());
}

#[test]
fn connect_connection_refused() {
    let probe = |kind| SocketProbe::Failed(IoError { kind, message: String::new() });
    match connect_unix("/c.sock".to_string(), probe(IoKind::ConnectionRefused)) {
        Err(Error::ConnectionRefused { path }) => assert_eq!(path, "/c.sock"),
        other => panic!("Expected ConnectionRefused error, got: {:?}", other),
    }
    let err = connect_unix("/c.sock".to_string(), probe(IoKind::Other)).unwrap_err();
    assert_eq!(err.message(), "io error: connect socket");
}

#[test]
fn connecting_takes_unix_sockets() {
    assert_eq!(connect(true, Some("/a.sock"), Some("/b.sock"), &default()).unwrap(), "/a.sock");
    assert_eq!(connect(true, None, None, "/d.sock").unwrap(), "/d.sock");
    assert_eq!(
        connect(false, Some("/a.sock"), None, &default()).unwrap_err().message(),
        "invalid argument: containerd-manager requires a Unix-socket-capable target. On Windows, \
         build and run inside WSL2."
    );
}
