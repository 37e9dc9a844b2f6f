use unixsock_stream::listen::{lock_file_beside, ListenAction, ListenReply, NewListener};
use unixsock_stream::{EndPoint, SocketAddr};

fn start(endpoint: &str) -> NewListener<u32> {
    let endpoint = EndPoint::from_text(endpoint.to_string()).ok().unwrap();
    match NewListener::start(endpoint, true, 108) {
        Ok((listener, ListenAction::Resolve(_))) => listener,
        _ => panic!("not started"),
    }
}

fn step(listener: NewListener<u32>, reply: ListenReply<u32>) -> (NewListener<u32>, ListenAction) {
    assert!(listener.expects(&reply));
    listener.step(reply)
}

fn file(dev: u64, ino: u64) -> ListenReply<u32> {
    ListenReply::Identity { dev, ino }
}

fn bound(path: &str) -> ListenReply<u32> {
    ListenReply::Address(SocketAddr::Pathname(path.as_bytes().to_vec()))
}

/// The replies with which a listener on the file `path` succeeds, but for the last.
fn good(path: &str) -> Vec<ListenReply<u32>> {
    vec![
        ListenReply::Done,
        ListenReply::Opened(7),
        ListenReply::Done,
        file(1, 2),
        file(1, 2),
        ListenReply::Done,
        ListenReply::Done,
        ListenReply::Done,
        bound(path),
    ]
}

const ENDPOINT: &str = "unixsock-stream//tmp/s?b=1#c=2";

fn after(steps: usize) -> NewListener<u32> {
    let mut listener = start(ENDPOINT);
    for reply in good("/tmp/s").into_iter().take(steps) {
        listener = step(listener, reply).0;
    }
    listener
}

fn failed(steps: usize, reply: ListenReply<u32>) -> String {
    match step(after(steps), reply) {
        (listener, ListenAction::Fail(e)) => {
            assert!(!listener.expects(&ListenReply::Done));
            assert!(!listener.works_on_files());
            assert!(listener.into_lock_file().is_none());
            e.message()
        }
        _ => panic!("went on"),
    }
}

fn no() -> ListenReply<u32> {
    ListenReply::Failed("no".to_string())
}

#[test]
fn the_lock_file_stands_beside_the_socket_file() {
    assert_eq!(lock_file_beside("/tmp/s"), "/tmp/s.lock");
}

#[test]
fn a_listener_on_a_file_takes_the_lock_first() {
    let (l, a) = step(start(ENDPOINT), ListenReply::Done);
    assert!(matches!(&a, ListenAction::OpenLockFile(p) if p == "/tmp/s.lock"));
    assert!(l.works_on_files());
    assert!(l.get_lock_file().is_none());
    let (l, a) = step(l, ListenReply::Opened(7));
    assert!(matches!(a, ListenAction::TryLock));
    assert_eq!(l.get_lock_file(), Some(&7));
    let (l, a) = step(l, ListenReply::Done);
    assert!(matches!(a, ListenAction::StatOpened));
    let (l, a) = step(l, file(1, 2));
    assert!(matches!(&a, ListenAction::StatOnDisk(p) if p == "/tmp/s.lock"));
    let (l, a) = step(l, file(1, 2));
    assert!(matches!(&a, ListenAction::RemoveSocketFile(p) if p == "/tmp/s"));
    assert!(l.works_on_files());
    let (l, a) = step(l, ListenReply::Done);
    assert!(matches!(&a, ListenAction::Bind(SocketAddr::Pathname(p)) if p == b"/tmp/s"));
    assert!(!l.works_on_files());
    let (l, a) = step(l, ListenReply::Done);
    assert!(matches!(a, ListenAction::SetNonblocking));
    let (l, a) = step(l, ListenReply::Done);
    assert!(matches!(a, ListenAction::LocalAddr));
    let (l, a) = step(l, bound("/tmp/s"));
    assert!(matches!(a, ListenAction::Adopt));
    let (l, a) = step(l, ListenReply::Done);
    assert_eq!(l.into_lock_file(), Some(7));
    match a {
        ListenAction::Register { path, endpoint, locator, locked } => {
            assert_eq!(path, "/tmp/s");
            assert_eq!(endpoint.as_str(), ENDPOINT);
            assert_eq!(locator.as_str(), "unixsock-stream//tmp/s?b=1");
            assert!(locked);
        }
        _ => panic!("not registered"),
    }
}

#[test]
fn an_abstract_listener_works_on_no_file() {
    let mut listener = start("unixsock-stream/@s");
    let mut last = None;
    for reply in [
        ListenReply::Done,
        ListenReply::Done,
        ListenReply::Done,
        ListenReply::Address(SocketAddr::Abstract(b"s".to_vec())),
        ListenReply::Done,
    ] {
        let (next, action) = step(listener, reply);
        assert!(!next.works_on_files());
        listener = next;
        last = Some(action);
    }
    match last {
        Some(ListenAction::Register { path, endpoint, locator, locked }) => {
            assert_eq!(path, "@s");
            assert_eq!(endpoint.as_str(), "unixsock-stream/@s");
            assert_eq!(locator.as_str(), "unixsock-stream/@s");
            assert!(!locked);
        }
        _ => panic!("not registered"),
    }
}

#[test]
fn abstract_listeners_may_be_unsupported() {
    let endpoint = EndPoint::from_text("unixsock-stream/@s".to_string()).ok().unwrap();
    match NewListener::<u32>::start(endpoint, false, 108) {
        Ok(_) => panic!("started"),
        Err(e) => assert_eq!(
            e.message(),
            "Abstract Unix sockets ('@') are only supported on Linux"
        ),
    }
}

#[test]
fn the_listener_is_known_under_the_path_of_its_socket() {
    let listener = step(after(8), bound("/var/other")).0;
    match step(listener, ListenReply::Done).1 {
        ListenAction::Register { path, endpoint, locator, locked } => {
            assert_eq!(path, "/var/other");
            assert_eq!(endpoint.as_str(), "unixsock-stream//var/other?b=1#c=2");
            assert_eq!(endpoint.address(), "/var/other");
            assert_eq!(locator.as_str(), "unixsock-stream//var/other?b=1");
            assert!(locked);
        }
        _ => panic!("not registered"),
    }
}

#[test]
fn failures_say_what_went_wrong() {
    let on = "Can not create a new UnixSocketStream listener on /tmp/s";
    assert_eq!(failed(0, no()), "no");
    assert_eq!(failed(1, no()), format!("{} - Unable to open lock file: no", on));
    assert_eq!(failed(2, no()), format!("{} - Unable to acquire lock: no", on));
    assert_eq!(failed(3, no()), "no");
    assert_eq!(failed(4, no()), "no");
    assert_eq!(failed(6, no()), format!("{}: no", on));
    assert_eq!(failed(7, no()), "no");
    assert_eq!(failed(8, no()), format!("{}: no", on));
    assert_eq!(failed(9, no()), "no");
}

#[test]
fn a_lock_that_is_held_elsewhere_ends_the_listener() {
    assert_eq!(
        failed(2, ListenReply::WouldBlock),
        "Can not create a new UnixSocketStream listener on /tmp/s - Unable to acquire lock: WouldBlock"
    );
}

#[test]
fn a_lock_file_that_was_replaced_ends_the_listener() {
    let message = "Can not create a new UnixSocketStream listener on /tmp/s - Lockfile was substituted during acquisition";
    assert_eq!(failed(4, file(1, 3)), message);
    assert_eq!(failed(4, file(2, 2)), message);
    assert_eq!(failed(4, file(2, 1)), message);
}

#[test]
fn it_does_not_matter_whether_there_was_a_socket_file() {
    let (listener, action) = step(after(5), no());
    assert!(matches!(action, ListenAction::Bind(_)));
    assert!(!listener.works_on_files());
}

#[test]
fn a_socket_without_a_path_ends_the_listener() {
    let message = "Can not create a new UnixSocketStream listener on /tmp/s";
    assert_eq!(failed(8, ListenReply::Address(SocketAddr::Unnamed)), message);
    let bytes = SocketAddr::Pathname(vec![0xc3, 0x28]);
    assert_eq!(failed(8, ListenReply::Address(bytes)), message);
}

#[test]
fn a_path_that_no_endpoint_holds_ends_the_listener() {
    let listener = step(after(8), bound(&"a".repeat(300))).0;
    match step(listener, ListenReply::Done).1 {
        ListenAction::Fail(e) => {
            assert_eq!(e.message(), "Endpoint too big: 318 bytes. Max: 255 bytes. ")
        },
        _ => panic!("registered"),
    }
}

#[test]
fn a_path_that_makes_no_endpoint_ends_the_listener() {
    let listener = step(start("unixsock-stream/@s"), ListenReply::Done).0;
    let listener = step(listener, ListenReply::Done).0;
    let listener = step(listener, ListenReply::Done).0;
    let listener = step(listener, bound("a?")).0;
    match step(listener, ListenReply::Done).1 {
        ListenAction::Fail(e) => assert_eq!(
            e.message(),
            "Endpoints must be of the form <protocol>/<address>[?<metadata>][#<config>]: unixsock-stream/a?",
        ),
        _ => panic!("registered"),
    }
}

#[test]
fn a_failed_listener_lets_go_of_the_lock_file() {
    for steps in 2..10 {
        assert_eq!(after(steps).get_lock_file(), Some(&7));
        failed(if steps == 5 { 4 } else { steps }, no());
    }
}

#[test]
fn addresses_that_the_system_cannot_hold_are_not_listened_on() {
    for (address, message) in [
        ("a".repeat(108), "path must be shorter than SUN_LEN"),
        ("a\0b".to_string(), "paths must not contain interior null bytes"),
        (format!("@{}", "a".repeat(108)), "abstract socket address must be shorter than SUN_LEN"),
    ] {
        let endpoint = EndPoint::from_text(format!("unixsock-stream/{}", address)).ok().unwrap();
        match NewListener::<u32>::start(endpoint, true, 108) {
            Ok(_) => panic!("started"),
            Err(e) => assert_eq!(e.message(), message),
        }
    }
}

#[test]
fn a_lost_worker_ends_the_listener() {
    let lost = || ListenReply::Lost("task 3 panicked".to_string());
    for steps in 1..6 {
        assert_eq!(failed(steps, lost()), "Spawn blocking join error: task 3 panicked");
    }
    for steps in [0, 6, 7, 8, 9] {
        assert!(!after(steps).expects(&lost()));
    }
}

#[test]
fn an_endpoint_without_an_address_names_no_socket() {
    let endpoint = EndPoint::from_text("unixsock-stream/?m=1".to_string()).ok().unwrap();
    match NewListener::<u32>::start(endpoint, true, 108) {
        Ok((l, ListenAction::Resolve(SocketAddr::Unnamed))) => {
            let (_, action) = step(l, ListenReply::Done);
            assert!(matches!(&action, ListenAction::OpenLockFile(p) if p == ".lock"));
        }
        _ => panic!("not started"),
    }
}

#[test]
fn only_answers_to_what_was_asked_are_expected() {
    assert!(!start(ENDPOINT).expects(&ListenReply::WouldBlock));
    assert!(!after(2).expects(&file(1, 1)));
    assert!(!after(3).expects(&ListenReply::Done));
    assert!(!after(4).expects(&ListenReply::Done));
    assert!(!after(8).expects(&ListenReply::Done));
    assert!(!after(9).expects(&bound("a")));
    assert!(!after(1).expects(&ListenReply::Done));
    assert!(!after(2).expects(&ListenReply::Opened(1)));
}
