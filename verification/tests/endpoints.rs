use unixsock_stream::parameters::normal_form;
use unixsock_stream::{EndPoint, Locator};

fn endpoint(text: &str) -> EndPoint {
    EndPoint::from_text(text.to_string()).unwrap()
}

const FORM: &str = "Endpoints must be of the form <protocol>/<address>[?<metadata>][#<config>]";

#[test]
fn parts_of_a_full_endpoint() {
    let e = endpoint("unixsock-stream//tmp/a.sock?prio=1;rel=1#x=1;y=2");
    assert_eq!(e.as_str(), "unixsock-stream//tmp/a.sock?prio=1;rel=1#x=1;y=2");
    assert_eq!(e.protocol(), "unixsock-stream");
    assert_eq!(e.address(), "/tmp/a.sock");
    assert_eq!(e.metadata(), "prio=1;rel=1");
    assert_eq!(e.config(), "x=1;y=2");
    assert_eq!(e.to_locator().as_str(), "unixsock-stream//tmp/a.sock?prio=1;rel=1");
}

#[test]
fn parts_that_are_missing_are_empty() {
    let e = endpoint("unixsock-stream/@name");
    assert_eq!(e.address(), "@name");
    assert_eq!(e.metadata(), "");
    assert_eq!(e.config(), "");
    assert_eq!(e.to_locator().as_str(), "unixsock-stream/@name");

    let e = endpoint("unixsock-stream/a#c=1");
    assert_eq!(e.address(), "a");
    assert_eq!(e.metadata(), "");
    assert_eq!(e.config(), "c=1");
    assert_eq!(e.to_locator().as_str(), "unixsock-stream/a");
}

#[test]
fn parts_hold_characters_of_any_width() {
    let e = endpoint("unixsock-stream//tmp/\u{e9}\u{1f600}?k=\u{4e2d}#c=\u{df}");
    assert_eq!(e.address(), "/tmp/\u{e9}\u{1f600}");
    assert_eq!(e.metadata(), "k=\u{4e2d}");
    assert_eq!(e.config(), "c=\u{df}");
}

#[test]
fn texts_that_are_no_endpoints() {
    for text in [
        "",
        "unixsock-stream",
        "unixsock-stream/",
        "/a",
        "a?b/c",
        "a#b/c",
        "p/a#c?m",
        "p/a?",
        "p/a#",
        "p/a?#c",
        "p/a?m#",
    ] {
        match EndPoint::from_text(text.to_string()) {
            Ok(_) => panic!("{} was taken", text),
            Err(e) => assert_eq!(e.message(), format!("{}: {}", FORM, text)),
        }
    }
}

#[test]
fn made_endpoints_have_their_keys_in_order() {
    let e = EndPoint::new("p", "a", "b=2;a=1", "z=1;y=2").ok().unwrap();
    assert_eq!(e.as_str(), "p/a?a=1;b=2#y=2;z=1");
    let e = EndPoint::new("p", "a", "", "z;y").ok().unwrap();
    assert_eq!(e.as_str(), "p/a#y;z");
    let e = EndPoint::new("p", "a", "", "").ok().unwrap();
    assert_eq!(e.as_str(), "p/a");
    assert_eq!(e.clone().as_str(), "p/a");
}

#[test]
fn the_joined_text_decides_what_the_parts_are() {
    for (address, metadata, config, text) in [
        ("/tmp/x", "", "", "p//tmp/x"),
        ("/tmp/x", "rel=1;prio=2-3", "", "p//tmp/x?prio=2-3;rel=1"),
        ("/tmp/x", "", "b=1;a", "p//tmp/x#a;b=1"),
        ("/tmp/x", ";;", "b=1;a", "p//tmp/x?#a;b=1"),
        ("/tmp/x?m=1", "", "b=1;a", "p//tmp/x?m=1#a;b=1"),
        ("/tmp/x#m=1", "", "", "p//tmp/x#m=1"),
        ("", "m=1", "", "p/?m=1"),
    ] {
        let e = EndPoint::new("p", address, metadata, config).unwrap();
        assert_eq!(e.as_str(), text);
    }
    for (protocol, address) in [("p", ""), ("", "/a"), ("p", "a?"), ("p", "a#"), ("p", "a#b?c")] {
        let e = EndPoint::new(protocol, address, "", "").unwrap_err();
        assert_eq!(e.message(), format!("{}: {}/{}", FORM, protocol, address));
    }
}

#[test]
fn parameters_have_a_normal_form() {
    assert_eq!(normal_form(""), "");
    assert_eq!(normal_form(";;"), "");
    assert_eq!(normal_form("=1"), "");
    assert_eq!(normal_form("b=;=x;a=1=2;;a=0"), "a=1=2;a=0;b");
    assert_eq!(normal_form("ab;a;b;aa"), "a;aa;ab;b");
    assert_eq!(normal_form("a-b;a=z"), "a=z;a-b");
    assert_eq!(normal_form("\u{1f600};\u{ff5e};z"), "z;\u{ff5e};\u{1f600}");
    assert_eq!(normal_form(&normal_form("c;b=2;b=1;a")), "a;b=2;b=1;c");
}

#[test]
fn an_endpoint_is_read_in_its_normal_form() {
    let e = endpoint("p/a?b=2;a=1#z;y=");
    assert_eq!(e.as_str(), "p/a?a=1;b=2#y;z");
    assert_eq!(endpoint(e.as_str()).as_str(), e.as_str());
}

#[test]
fn endpoints_hold_at_most_255_bytes_before_their_configuration() {
    let fits = "a".repeat(255 - 1 - 3);
    let long = "a".repeat(255 - 1 - 3 + 1);
    assert!(EndPoint::new("p", &fits, "m=1", "").is_ok());
    let e = EndPoint::new("p", &long, "m=1", "").unwrap_err();
    assert_eq!(e.message(), "Endpoint too big: 256 bytes. Max: 255 bytes. ");
    assert!(EndPoint::new("p", &fits, "m=1", &"c".repeat(400)).is_ok());
    let wide = "\u{e9}".repeat(127);
    assert!(EndPoint::new("p", &wide, "", "").is_ok());
    let wide = "\u{e9}".repeat(128);
    assert!(EndPoint::new("p", &wide, "", "").is_err());
}

#[test]
fn locators_are_made_of_their_parts() {
    let l = Locator::new("unixsock-stream", "/tmp/a", "").ok().unwrap();
    assert_eq!(l.as_str(), "unixsock-stream//tmp/a");
    let l = Locator::new("unixsock-stream", "/tmp/a", "b=2;a=1").ok().unwrap();
    assert_eq!(l.as_str(), "unixsock-stream//tmp/a?a=1;b=2");
    assert!(Locator::new("unixsock-stream", "", "").is_err());
    match Locator::new("unixsock-stream", &"a".repeat(241), "") {
        Ok(_) => panic!("taken"),
        Err(e) => assert_eq!(e.message(), "Endpoint too big: 256 bytes. Max: 255 bytes. "),
    }
}

#[test]
fn the_parts_of_an_endpoint_make_it_again() {
    let text = "unixsock-stream//tmp/a?a=1;b=2#y=2;z=1";
    let e = endpoint(text);
    let again = EndPoint::new(&e.protocol(), &e.address(), &e.metadata(), &e.config());
    assert_eq!(again.ok().unwrap().as_str(), text);
}
