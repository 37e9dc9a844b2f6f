use unixsock_stream::address::{
    fits_system, names_abstract, socket_addr_to_string, to_socket_addr,
    tokio_socket_addr_to_string,
};
use unixsock_stream::SocketAddr;

#[test]
fn a_path_names_a_file() {
    match to_socket_addr("/tmp/s", true, 108) {
        Ok((SocketAddr::Pathname(path), false)) => assert_eq!(path, b"/tmp/s"),
        _ => panic!("not a file"),
    }
    match to_socket_addr("a@b", false, 108) {
        Ok((SocketAddr::Pathname(path), false)) => assert_eq!(path, b"a@b"),
        _ => panic!("not a file"),
    }
}

#[test]
fn the_empty_path_names_nothing() {
    for abstract_names in [false, true] {
        match to_socket_addr("", abstract_names, 108) {
            Ok((addr, false)) => {
                assert!(matches!(addr, SocketAddr::Unnamed));
                assert_eq!(socket_addr_to_string(&addr), None);
            }
            _ => panic!("named"),
        }
    }
}

#[test]
fn the_system_holds_short_addresses() {
    let path = |len: usize| SocketAddr::Pathname(vec![b'a'; len]);
    let name = |len: usize| SocketAddr::Abstract(vec![0; len]);
    assert!(fits_system(&path(107), 108));
    assert!(!fits_system(&path(108), 108));
    assert!(!fits_system(&SocketAddr::Pathname(b"a\0b".to_vec()), 108));
    assert!(fits_system(&name(107), 108));
    assert!(!fits_system(&name(108), 108));
    assert!(fits_system(&name(0), 1));
    assert!(fits_system(&SocketAddr::Unnamed, 0));
}

#[test]
fn addresses_that_the_system_cannot_hold_are_refused() {
    let refused = |path: &str| match to_socket_addr(path, true, 108) {
        Ok(_) => panic!("taken"),
        Err(e) => e.message(),
    };
    assert!(to_socket_addr(&"a".repeat(107), true, 108).is_ok());
    assert_eq!(refused(&"a".repeat(108)), "path must be shorter than SUN_LEN");
    assert_eq!(refused(&"\u{e9}".repeat(54)), "path must be shorter than SUN_LEN");
    assert_eq!(refused("a\0b"), "paths must not contain interior null bytes");
    let name = |len: usize| format!("@{}", "a".repeat(len));
    assert!(to_socket_addr(&name(107), true, 108).is_ok());
    assert_eq!(refused(&name(108)), "abstract socket address must be shorter than SUN_LEN");
    match to_socket_addr("@a\0b", true, 108) {
        Ok((SocketAddr::Abstract(bytes), true)) => assert_eq!(bytes, b"a\0b"),
        _ => panic!("refused"),
    }
    match to_socket_addr(&name(108), false, 108) {
        Ok(_) => panic!("taken"),
        Err(e) => assert_eq!(
            e.message(),
            "Abstract Unix sockets ('@') are only supported on Linux"
        ),
    }
}

#[test]
fn an_at_sign_names_an_abstract_socket() {
    assert!(names_abstract("@"));
    assert!(!names_abstract("/@"));
    match to_socket_addr("@na\u{e9}", true, 108) {
        Ok((SocketAddr::Abstract(name), true)) => assert_eq!(name, b"na\xc3\xa9"),
        _ => panic!("not abstract"),
    }
    match to_socket_addr("@", true, 108) {
        Ok((SocketAddr::Abstract(name), true)) => assert!(name.is_empty()),
        _ => panic!("not abstract"),
    }
}

#[test]
fn abstract_names_may_be_unsupported() {
    match to_socket_addr("@name", false, 108) {
        Ok(_) => panic!("supported"),
        Err(e) => assert_eq!(
            e.message(),
            "Abstract Unix sockets ('@') are only supported on Linux"
        ),
    }
}

#[test]
fn addresses_are_shown_as_paths() {
    let text = |a: &SocketAddr| {
        let shown = socket_addr_to_string(a);
        assert_eq!(shown, tokio_socket_addr_to_string(a));
        shown
    };
    assert_eq!(text(&SocketAddr::Pathname(b"/tmp/s".to_vec())), Some("/tmp/s".to_string()));
    assert_eq!(text(&SocketAddr::Pathname(vec![0x2f, 0xff])), None);
    assert_eq!(text(&SocketAddr::Abstract(b"n".to_vec())), Some("@n".to_string()));
    assert_eq!(text(&SocketAddr::Abstract(vec![])), Some("@".to_string()));
    assert_eq!(
        text(&SocketAddr::Abstract(vec![0x61, 0xff, 0x62])),
        Some("@a\u{fffd}b".to_string())
    );
    assert_eq!(text(&SocketAddr::Unnamed), None);
}

#[test]
fn a_path_comes_back_from_its_address() {
    for path in ["/tmp/s", "@name", "@", "rel/\u{1f600}", "@\u{e9}@"] {
        match to_socket_addr(path, true, 108) {
            Ok((addr, _)) => assert_eq!(socket_addr_to_string(&addr), Some(path.to_string())),
            Err(_) => panic!("{}", path),
        }
    }
}
