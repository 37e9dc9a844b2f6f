use unixsock_stream::connect::{LinkAction, LinkReply, NewLink};
use unixsock_stream::SocketAddr;

fn start(path: &str) -> NewLink {
    match NewLink::start(path.to_string(), true, 108) {
        Ok((link, LinkAction::Resolve(_))) => link,
        _ => panic!("not started"),
    }
}

fn done(link: NewLink) -> (NewLink, LinkAction) {
    assert!(link.expects(&LinkReply::Done));
    link.step(LinkReply::Done)
}

/// The connection to `path` after `steps` steps were done, the own address being `own`.
fn after(path: &str, steps: usize, own: SocketAddr) -> NewLink {
    let mut link = start(path);
    let mut own = Some(own);
    for i in 0..steps {
        let reply = if i == 3 {
            LinkReply::Address(own.take().unwrap())
        } else {
            LinkReply::Done
        };
        assert!(link.expects(&reply));
        link = link.step(reply).0;
    }
    link
}

fn failure(path: &str, steps: usize) -> String {
    let link = after(path, steps, SocketAddr::Unnamed);
    let reply = LinkReply::Failed("no".to_string());
    assert!(link.expects(&reply));
    match link.step(reply) {
        (link, LinkAction::Fail(e)) => {
            assert!(!link.expects(&LinkReply::Done));
            e.message()
        }
        _ => panic!("went on"),
    }
}

fn is_random_uuid(s: &str) -> bool {
    let b = s.as_bytes();
    b.len() == 36
        && b.iter().enumerate().all(|(i, c)| match i {
            8 | 13 | 18 | 23 => *c == b'-',
            14 => *c == b'4',
            19 => b"89ab".contains(c),
            _ => b"0123456789abcdef".contains(c),
        })
}

#[test]
fn the_first_step_is_the_address_of_the_path() {
    match NewLink::start("/tmp/s".to_string(), false, 108) {
        Ok((_, LinkAction::Resolve(SocketAddr::Pathname(p)))) => assert_eq!(p, b"/tmp/s"),
        _ => panic!("not a file"),
    }
    match NewLink::start("@s".to_string(), true, 108) {
        Ok((_, LinkAction::Resolve(SocketAddr::Abstract(n)))) => assert_eq!(n, b"s"),
        _ => panic!("not abstract"),
    }
    assert!(NewLink::start("@s".to_string(), false, 108).is_err());
    assert!(NewLink::start("a".repeat(107), true, 108).is_ok());
    assert!(NewLink::start("a".repeat(108), true, 108).is_err());
    assert!(NewLink::start("a\0b".to_string(), true, 108).is_err());
}

#[test]
fn steps_come_in_their_order() {
    let (link, action) = done(start("/tmp/s"));
    assert!(matches!(&action, LinkAction::Connect(SocketAddr::Pathname(p)) if p == b"/tmp/s"));
    let (link, action) = done(link);
    assert!(matches!(action, LinkAction::SetNonblocking));
    let (link, action) = done(link);
    assert!(matches!(action, LinkAction::LocalAddr));
    assert!(!link.expects(&LinkReply::Done));
    let own = LinkReply::Address(SocketAddr::Pathname(b"/tmp/own".to_vec()));
    assert!(link.expects(&own));
    let (link, action) = link.step(own);
    assert!(matches!(action, LinkAction::PeerAddr));
    assert!(!link.expects(&LinkReply::Address(SocketAddr::Unnamed)));
    let (link, action) = done(link);
    assert!(matches!(action, LinkAction::Adopt));
    let (link, action) = done(link);
    match action {
        LinkAction::Deliver { src_path, dst_path } => {
            assert_eq!(src_path, "/tmp/own");
            assert_eq!(dst_path, "/tmp/s");
        }
        _ => panic!("not delivered"),
    }
    assert!(!link.expects(&LinkReply::Done));
}

#[test]
fn a_link_without_a_path_of_its_own_gets_a_random_one() {
    let mut seen = vec![];
    for own in [SocketAddr::Unnamed, SocketAddr::Pathname(vec![0xff])] {
        match done(after("@s", 5, own)).1 {
            LinkAction::Deliver { src_path, dst_path } => {
                assert!(is_random_uuid(&src_path), "{}", src_path);
                assert!(unixsock_stream::link::fits_locator(&src_path));
                assert_eq!(dst_path, "@s");
                seen.push(src_path);
            }
            _ => panic!("not delivered"),
        }
    }
    assert_ne!(seen[0], seen[1]);
}

#[test]
fn the_fresh_path_is_used_only_where_there_is_none() {
    let link = after("p", 4, SocketAddr::Unnamed);
    let (link, _) = link.step_with(LinkReply::Done, "fresh".to_string());
    match link.step_with(LinkReply::Done, "other".to_string()).1 {
        LinkAction::Deliver { src_path, .. } => assert_eq!(src_path, "fresh"),
        _ => panic!("not delivered"),
    }
    let link = after("p", 4, SocketAddr::Abstract(b"own".to_vec()));
    let (link, _) = link.step_with(LinkReply::Done, "fresh".to_string());
    match link.step_with(LinkReply::Done, "other".to_string()).1 {
        LinkAction::Deliver { src_path, .. } => assert_eq!(src_path, "@own"),
        _ => panic!("not delivered"),
    }
}

#[test]
fn failures_say_which_link_could_not_be_made() {
    let bound = "Can not create a new UnixSocketStream link bound to \"/tmp/s\": no";
    assert_eq!(failure("/tmp/s", 0), "no");
    assert_eq!(failure("/tmp/s", 1), bound);
    assert_eq!(failure("/tmp/s", 2), "no");
    assert_eq!(failure("/tmp/s", 3), bound);
    assert_eq!(failure("/tmp/s", 4), bound);
    assert_eq!(failure("/tmp/s", 5), "no");
}

#[test]
fn the_path_of_a_failed_link_is_quoted() {
    assert_eq!(
        failure("a\"b\\\n", 1),
        "Can not create a new UnixSocketStream link bound to \"a\\\"b\\\\\\n\": no"
    );
}
