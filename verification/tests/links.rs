use unixsock_stream::link::fits_locator;
use unixsock_stream::{LinkAuthId, LinkUnicastUnixSocketStream};

fn link() -> LinkUnicastUnixSocketStream<u8> {
    assert!(fits_locator("/tmp/a") && fits_locator("b"));
    LinkUnicastUnixSocketStream::new(7u8, "/tmp/a", "b", 4096)
}

#[test]
fn a_link_knows_its_socket_and_its_locators() {
    let l = link();
    assert_eq!(*l.get_socket(), 7);
    assert_eq!(l.get_src().as_str(), "unixsock-stream//tmp/a");
    assert_eq!(l.get_dst().as_str(), "unixsock-stream/b");
    assert_eq!(l.to_string(), "unixsock-stream//tmp/a => unixsock-stream/b");
}

#[test]
fn a_link_is_a_reliable_stream() {
    let l = link();
    assert_eq!(l.get_mtu(), 4096);
    assert!(l.is_reliable());
    assert!(l.is_streamed());
    assert!(l.get_interface_names().is_empty());
    assert_eq!(*l.get_auth_id(), LinkAuthId::UnixsockStream);
}

#[test]
fn socket_outcomes_pass_through() {
    let l = link();
    assert!(matches!(l.close(Ok(())), Ok(())));
    assert!(matches!(l.write(Ok(3)), Ok(3)));
    assert!(matches!(l.write_all(Ok(())), Ok(())));
    assert!(matches!(l.read(Ok(0)), Ok(0)));
    assert!(matches!(l.read_exact(Ok(5)), Ok(())));
}

#[test]
fn socket_failures_name_the_link() {
    let l = link();
    let cause = || "broken pipe".to_string();
    let write = "Write error on UnixSocketStream link unixsock-stream//tmp/a => unixsock-stream/b: broken pipe";
    let read = "Read error on UnixSocketStream link unixsock-stream//tmp/a => unixsock-stream/b: broken pipe";
    assert_eq!(l.close(Err(cause())).err().unwrap().message(), "broken pipe");
    assert_eq!(l.write(Err(cause())).err().unwrap().message(), write);
    assert_eq!(l.write_all(Err(cause())).err().unwrap().message(), write);
    assert_eq!(l.read(Err(cause())).err().unwrap().message(), read);
    assert_eq!(l.read_exact(Err(cause())).err().unwrap().message(), read);
}

#[test]
fn some_paths_do_not_fit_a_locator() {
    assert!(!fits_locator(""));
    assert!(fits_locator(&"a".repeat(240)));
    assert!(!fits_locator(&"a".repeat(241)));
    assert!(!fits_locator("a?"));
    assert!(!fits_locator("a#"));
    assert!(!fits_locator("a#b?c"));
}

#[test]
fn parameters_in_a_path_are_put_in_order() {
    assert!(fits_locator("a?b=2;a=1") && fits_locator("b#y;x"));
    let l = LinkUnicastUnixSocketStream::new((), "a?b=2;a=1", "b#y;x", 4096);
    assert_eq!(l.get_src().as_str(), "unixsock-stream/a?a=1;b=2");
    assert_eq!(l.get_dst().as_str(), "unixsock-stream/b#x;y");
}

#[test]
fn the_address_of_an_endpoint_fits_a_locator() {
    let text = "unixsock-stream//tmp/a?m=1#c=2".to_string();
    let address = unixsock_stream::EndPoint::from_text(text).unwrap().address();
    assert!(fits_locator(&address));
    let l = LinkUnicastUnixSocketStream::new((), &address, &address, 4096);
    assert_eq!(l.get_src().as_str(), "unixsock-stream//tmp/a");
}
