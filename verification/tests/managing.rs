use unixsock_stream::connect::LinkAction;
use unixsock_stream::listen::{ListenAction, ListenReply};
use unixsock_stream::release::{Release, ReleaseAction, ReleaseReply};
use unixsock_stream::{
    EndPoint, LinkManagerUnicastUnixSocketStream, ListenerUnixSocketStream, SocketAddr,
};

type Manager = LinkManagerUnicastUnixSocketStream<&'static str, u8, u16, u32>;

fn endpoint(text: &str) -> EndPoint {
    EndPoint::from_text(text.to_string()).ok().unwrap()
}

fn listener(text: &str, token: u8, lock: Option<u32>) -> ListenerUnixSocketStream<u8, u16, u32> {
    ListenerUnixSocketStream::new(endpoint(text), token, 9, lock)
}

fn told(manager: &Manager) -> Vec<String> {
    let mut told: Vec<String> =
        manager.get_listeners().iter().map(|e| e.as_str().to_string()).collect();
    told.sort();
    told
}

fn step(release: Release, reply: ReleaseReply) -> (Release, ReleaseAction) {
    assert!(release.expects(&reply));
    release.step(reply)
}

#[test]
fn a_new_manager_has_no_listeners() {
    let manager = Manager::new("sender");
    assert_eq!(*manager.get_manager(), "sender");
    assert!(manager.get_listeners().is_empty());
    assert!(manager.get_locators().is_empty());
}

#[test]
fn a_listener_keeps_its_parts() {
    let l = listener("p/a", 3, Some(4));
    assert_eq!(l.endpoint.as_str(), "p/a");
    assert_eq!((l.token, l.handle, l.lock_file), (3, 9, Some(4)));
}

#[test]
fn listeners_are_told_with_their_locators() {
    let mut manager = Manager::new("sender");
    assert!(manager.add_listener("a".to_string(), listener("p/a#x=1", 1, None)).is_none());
    assert!(manager.add_listener("b".to_string(), listener("p/b?m=1", 2, None)).is_none());
    assert_eq!(told(&manager), vec!["p/a#x=1", "p/b?m=1"]);
    let mut locators: Vec<String> =
        manager.get_locators().iter().map(|l| l.as_str().to_string()).collect();
    locators.sort();
    assert_eq!(locators, vec!["p/a", "p/b?m=1"]);
}

#[test]
fn a_listener_replaces_the_one_on_its_path() {
    let mut manager = Manager::new("sender");
    manager.add_listener("a".to_string(), listener("p/a#x=1", 1, None));
    manager.add_listener("b".to_string(), listener("p/b", 2, None));
    let replaced = manager.add_listener("a".to_string(), listener("p/a", 3, None));
    assert_eq!(replaced.map(|l| l.token), Some(1));
    assert_eq!(told(&manager), vec!["p/a", "p/b"]);
}

#[test]
fn removing_a_listener_leaves_the_others() {
    let mut manager = Manager::new("sender");
    for (i, path) in ["a", "b", "c"].iter().enumerate() {
        manager.add_listener(path.to_string(), listener(&format!("p/{}", path), i as u8, None));
    }
    assert_eq!(manager.remove_listener("b").map(|l| l.token), Some(1));
    assert!(manager.remove_listener("b").is_none());
    assert!(manager.remove_listener("d").is_none());
    assert_eq!(told(&manager), vec!["p/a", "p/c"]);
    assert_eq!(*manager.get_manager(), "sender");
}

#[test]
fn links_and_listeners_start_at_the_address_of_the_endpoint() {
    let manager = Manager::new("sender");
    match manager.new_link(endpoint("unixsock-stream//tmp/s?m=1#c=1"), false, 108) {
        Ok((_, LinkAction::Resolve(SocketAddr::Pathname(p)))) => assert_eq!(p, b"/tmp/s"),
        _ => panic!("not started"),
    }
    match manager.new_listener(endpoint("unixsock-stream/@s#c=1"), true, 108) {
        Ok((_, ListenAction::Resolve(SocketAddr::Abstract(n)))) => assert_eq!(n, b"s"),
        _ => panic!("not started"),
    }
    let long = format!("unixsock-stream/{}", "a".repeat(108));
    assert!(manager.new_link(endpoint(&long), false, 108).is_err());
    assert!(manager.new_listener(endpoint(&long), false, 108).is_err());
    assert!(manager.new_link(endpoint(&long), false, 109).is_ok());
    assert!(manager.new_link(endpoint("unixsock-stream/@s"), false, 108).is_err());
    assert!(manager.new_listener(endpoint("unixsock-stream/@s"), false, 108).is_err());
}

#[test]
fn a_listener_that_is_not_there_cannot_be_deleted() {
    let mut manager = Manager::new("sender");
    manager.add_listener("/tmp/a".to_string(), listener("unixsock-stream//tmp/a", 1, None));
    match manager.del_listener(&endpoint("unixsock-stream//tmp/b#c=1")) {
        Ok(_) => panic!("deleted"),
        Err(e) => assert_eq!(
            e.message(),
            "Can not delete the UnixSocketStream listener because it has not been found: /tmp/b"
        ),
    }
    assert_eq!(told(&manager), vec!["unixsock-stream//tmp/a"]);
}

#[test]
fn a_listener_with_a_lock_has_its_files_cleared() {
    let mut manager = Manager::new("sender");
    manager.add_listener("/tmp/a".to_string(), listener("unixsock-stream//tmp/a", 1, Some(5)));
    match manager.del_listener(&endpoint("unixsock-stream//tmp/a?m=1#c=1")) {
        Ok((l, release, ReleaseAction::Stop)) => {
            assert_eq!((l.token, l.lock_file), (1, Some(5)));
            assert!(!release.works_on_files());
            let (release, action) = step(release, ReleaseReply::Done);
            assert!(matches!(action, ReleaseAction::Join));
            let (release, action) = step(release, ReleaseReply::Done);
            assert!(matches!(&action, ReleaseAction::RemoveSocketFile(p) if p == "/tmp/a"));
            assert!(release.works_on_files());
            let (release, action) = step(release, ReleaseReply::Failed("gone".to_string()));
            assert!(matches!(&action, ReleaseAction::RemoveLockFile(p) if p == "/tmp/a.lock"));
            let (release, action) = step(release, ReleaseReply::Failed("gone".to_string()));
            assert!(matches!(action, ReleaseAction::Unlock));
            assert!(release.works_on_files());
            let (release, action) = step(release, ReleaseReply::Done);
            assert!(matches!(action, ReleaseAction::Finish));
            assert!(!release.works_on_files());
            assert!(!release.expects(&ReleaseReply::Done));
        }
        _ => panic!("not deleted"),
    }
    assert!(told(&manager).is_empty());
}

#[test]
fn a_listener_without_a_lock_leaves_no_files() {
    let (release, _) = Release::start("@a".to_string(), false);
    assert!(!release.expects(&ReleaseReply::Failed("no".to_string())));
    let (release, _) = step(release, ReleaseReply::Done);
    let (release, action) = step(release, ReleaseReply::Done);
    assert!(matches!(action, ReleaseAction::Finish));
    assert!(!release.expects(&ReleaseReply::Done));
}

#[test]
fn a_listener_that_ended_badly_is_left_as_it_is() {
    let (release, _) = Release::start("/tmp/a".to_string(), true);
    let (release, _) = step(release, ReleaseReply::Done);
    match step(release, ReleaseReply::Failed("panicked".to_string())) {
        (release, ReleaseAction::Fail(e)) => {
            assert_eq!(e.message(), "panicked");
            assert!(!release.works_on_files());
            assert!(!release.expects(&ReleaseReply::Done));
        }
        _ => panic!("went on"),
    }
}

/// Answers what opening a listener on the file `path` asks for, and tells how it ended.
fn open(manager: &Manager, asked: &str, path: &str, lock: ListenReply<u32>) -> ListenAction {
    let mut machine = manager.new_listener(endpoint(asked), true, 108).ok().unwrap().0;
    let mut replies = vec![
        ListenReply::Done,
        ListenReply::Opened(3),
        lock,
        ListenReply::Identity { dev: 1, ino: 1 },
        ListenReply::Identity { dev: 1, ino: 1 },
        ListenReply::Done,
        ListenReply::Done,
        ListenReply::Done,
        ListenReply::Address(SocketAddr::Pathname(path.as_bytes().to_vec())),
        ListenReply::Done,
    ];
    replies.reverse();
    while let Some(reply) = replies.pop() {
        assert!(machine.expects(&reply));
        let (next, action) = machine.step(reply);
        machine = next;
        match action {
            ListenAction::Register { .. } => return action,
            ListenAction::Fail(_) => return action,
            _ => {}
        }
    }
    panic!("not ended")
}

fn keep(manager: &mut Manager, action: ListenAction) {
    match action {
        ListenAction::Register { path, endpoint, .. } => {
            manager.add_listener(path, ListenerUnixSocketStream::new(endpoint, 1, 2, Some(3)));
        }
        _ => panic!("not registered"),
    }
}

#[test]
fn a_registered_listener_is_found_under_both_its_endpoints() {
    let asked = "unixsock-stream//tmp/s?b=1#c=2";
    for by_told in [false, true] {
        let mut manager = Manager::new("sender");
        let opened = open(&manager, asked, "/tmp/s", ListenReply::Done);
        keep(&mut manager, opened);
        let by = if by_told {
            manager.get_listeners().remove(0)
        } else {
            endpoint(asked)
        };
        assert!(manager.del_listener(&by).is_ok());
        assert!(manager.get_listeners().is_empty());
    }
}

#[test]
fn opening_and_deleting_a_listener_leaves_the_others() {
    let mut manager = Manager::new("sender");
    for path in ["/tmp/a", "/tmp/b"] {
        let asked = format!("unixsock-stream/{}#c=1", path);
        let opened = open(&manager, &asked, path, ListenReply::Done);
        keep(&mut manager, opened);
    }
    let before = told(&manager);
    let asked = "unixsock-stream//tmp/s";
    let opened = open(&manager, asked, "/tmp/s", ListenReply::Done);
    keep(&mut manager, opened);
    assert_eq!(told(&manager).len(), 3);
    assert!(manager.del_listener(&endpoint(asked)).is_ok());
    assert!(manager.remove_listener("/tmp/s").is_none());
    assert_eq!(told(&manager), before);
    for e in manager.get_listeners() {
        assert!(manager.del_listener(&e).is_ok());
    }
    assert!(told(&manager).is_empty());
}

#[test]
fn a_second_listener_on_a_file_fails() {
    let mut manager = Manager::new("sender");
    let asked = "unixsock-stream//tmp/s";
    let opened = open(&manager, asked, "/tmp/s", ListenReply::Done);
    keep(&mut manager, opened);
    match open(&manager, asked, "/tmp/s", ListenReply::WouldBlock) {
        ListenAction::Fail(e) => assert_eq!(
            e.message(),
            "Can not create a new UnixSocketStream listener on /tmp/s - Unable to acquire lock: WouldBlock"
        ),
        _ => panic!("opened"),
    }
    assert_eq!(told(&manager), vec![asked]);
}

#[test]
fn a_lost_worker_ends_the_taking_down() {
    let lost = || ReleaseReply::Lost("task 3 panicked".to_string());
    for steps in 2..5 {
        let (mut release, _) = Release::start("/tmp/a".to_string(), true);
        for _ in 0..steps {
            if !release.works_on_files() {
                assert!(!release.expects(&lost()));
            }
            release = step(release, ReleaseReply::Done).0;
        }
        match step(release, lost()) {
            (release, ReleaseAction::Fail(e)) => {
                assert_eq!(e.message(), "Spawn blocking join error: task 3 panicked");
                assert!(!release.works_on_files());
                assert!(!release.expects(&ReleaseReply::Done));
            }
            _ => panic!("went on"),
        }
    }
}
