use unixsock_stream::accept::{AcceptAction, AcceptEvent, AcceptLoop};
use unixsock_stream::link::fits_locator;
use unixsock_stream::SocketAddr;

fn serving() -> AcceptLoop {
    let addr = SocketAddr::Pathname(b"/tmp/s".to_vec());
    match AcceptLoop::start(Ok(addr), String::new(), 250) {
        Ok((s, AcceptAction::Accept)) => s,
        _ => panic!("not started"),
    }
}

fn step(s: &mut AcceptLoop, event: AcceptEvent) -> AcceptAction {
    assert!(s.expects(event));
    s.step(event)
}

#[test]
fn a_socket_without_an_address_is_not_served() {
    match AcceptLoop::start(Err("bad descriptor".to_string()), String::new(), 250) {
        Ok(_) => panic!("served"),
        Err(e) => assert_eq!(e.message(), "bad descriptor"),
    }
    match AcceptLoop::start(Ok(SocketAddr::Unnamed), "(unnamed)".to_string(), 250) {
        Ok(_) => panic!("served"),
        Err(e) => assert_eq!(
            e.message(),
            "Can not create a new UnixSocketStream link bound to (unnamed)"
        ),
    }
}

#[test]
fn links_go_from_the_listener_to_a_random_path() {
    let mut s = serving();
    assert_eq!(s.get_path(), "/tmp/s");
    let mut seen = vec![];
    for taken in [AcceptEvent::Sent, AcceptEvent::SendFailed] {
        match step(&mut s, AcceptEvent::Accepted) {
            AcceptAction::Deliver { src_path, dst_path } => {
                assert_eq!(src_path, "/tmp/s");
                assert_eq!(dst_path.len(), 36);
                assert_eq!(dst_path.as_bytes()[14], b'4');
                assert!(fits_locator(&dst_path));
                seen.push(dst_path);
            }
            _ => panic!("not delivered"),
        }
        assert!(!s.expects(AcceptEvent::Cancelled));
        assert!(matches!(step(&mut s, taken), AcceptAction::Accept));
    }
    assert_ne!(seen[0], seen[1]);
}

#[test]
fn the_other_end_goes_by_the_fresh_path() {
    let mut s = serving();
    match s.step_with(AcceptEvent::Accepted, "fresh".to_string()) {
        AcceptAction::Deliver { src_path, dst_path } => {
            assert_eq!(src_path, "/tmp/s");
            assert_eq!(dst_path, "fresh");
        }
        _ => panic!("not delivered"),
    }
}

#[test]
fn a_failure_to_accept_makes_a_pause() {
    let mut s = serving();
    for _ in 0..3 {
        match step(&mut s, AcceptEvent::AcceptFailed) {
            AcceptAction::Sleep(micros) => assert_eq!(micros, 250),
            _ => panic!("no pause"),
        }
        assert!(!s.expects(AcceptEvent::Accepted));
        assert!(!s.expects(AcceptEvent::Cancelled));
        assert!(matches!(step(&mut s, AcceptEvent::Slept), AcceptAction::Accept));
    }
}

#[test]
fn a_listener_stops_when_it_is_told_to() {
    let mut s = serving();
    assert!(!s.expects(AcceptEvent::Slept));
    assert!(!s.expects(AcceptEvent::Sent));
    assert!(matches!(step(&mut s, AcceptEvent::Cancelled), AcceptAction::Stop));
    for event in [AcceptEvent::Cancelled, AcceptEvent::Accepted, AcceptEvent::AcceptFailed] {
        assert!(!s.expects(event));
    }
}
