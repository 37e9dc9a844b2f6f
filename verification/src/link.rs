//! A connected link and what is told of it.

use crate::endpoint;
use crate::endpoint::Locator;
use crate::error::{LinkError, LinkErrorView};
use crate::text;
use vstd::prelude::*;
use vstd::utf8::*;

verus! {

/// The protocol of the locators of links and listeners.
pub const UNIXSOCKSTREAM_LOCATOR_PREFIX: &'static str = "unixsock-stream";

/// A link neither loses nor reorders what it carries.
pub const IS_RELIABLE: bool = true;

/// What is known of who stands at the other end of a link: nothing but what kind of link it is.
#[derive(Clone, Copy, Debug, PartialEq, Eq, Structural)]
pub enum LinkAuthId {
    /// A link over a Unix domain socket.
    UnixsockStream,
}

/// A path that a locator can hold as its address.
pub open spec fn path_fits(path: Seq<char>) -> bool {
    endpoint::parts_accepted(UNIXSOCKSTREAM_LOCATOR_PREFIX@, path, Seq::empty(), Seq::empty())
}

/// The text of the locator of the socket at `path`.
pub open spec fn path_locator(path: Seq<char>) -> Seq<char> {
    endpoint::endpoint_text(UNIXSOCKSTREAM_LOCATOR_PREFIX@, path, Seq::empty(), Seq::empty())
}

/// A path without `?` and `#` that is neither empty nor longer than 240 bytes fits. Its locator
/// is `unixsock-stream/<path>`, and the path is the address of that locator.
pub proof fn lemma_plain_path_fits(path: Seq<char>)
    requires
        path.len() > 0,
        !path.contains('?') && !path.contains('#'),
        encode_utf8(path).len() <= 240,
    ensures
        path_fits(path),
        path_locator(path) == UNIXSOCKSTREAM_LOCATOR_PREFIX@ + seq!['/'] + path,
        endpoint::protocol_of(path_locator(path)) == UNIXSOCKSTREAM_LOCATOR_PREFIX@,
        endpoint::address_of(path_locator(path)) == path,
{
    let prefix = UNIXSOCKSTREAM_LOCATOR_PREFIX@;
    let none = Seq::<char>::empty();
    let s = endpoint::joined(prefix, path, none, none);
    reveal_strlit("unixsock-stream");
    assert(prefix.len() == 15);
    assert(is_ascii_chars(prefix));
    is_ascii_chars_encode_utf8(prefix);
    assert(encode_utf8(none).len() == 0);
    assert(!prefix.contains('/') && !prefix.contains('?') && !prefix.contains('#'));
    endpoint::lemma_joined_parts(prefix, path, none, none);
    assert(s =~= prefix + seq!['/'] + path);
    assert forall|i: int| 0 <= i < s.len() implies s[i] != '?' && s[i] != '#' by {
        if i < 15 {
            assert(prefix.contains(s[i]));
        } else if i > 15 {
            assert(path.contains(path[i - 16]));
            assert(s[i] == path[i - 16]);
        } else {
            assert(s[i] == '/');
        }
    }
    assert forall|i: int| 0 <= i < 15 implies s[i] != '/' by {
        assert(prefix.contains(prefix[i]));
        assert(s[i] == prefix[i]);
    }
    text::lemma_find_is(s, '/', 15);
    text::lemma_find_is(s, '?', s.len() as int);
    text::lemma_find_is(s, '#', s.len() as int);
}

/// The address of an endpoint fits, unless it is empty or longer than 240 bytes: links to and
/// from the socket that an endpoint names can have locators.
pub proof fn lemma_endpoint_address_fits(s: Seq<char>)
    requires
        endpoint::is_endpoint(s),
        endpoint::address_of(s).len() > 0,
        encode_utf8(endpoint::address_of(s)).len() <= 240,
    ensures
        path_fits(endpoint::address_of(s)),
        endpoint::address_of(path_locator(endpoint::address_of(s))) == endpoint::address_of(s),
{
    endpoint::lemma_parts_are_plain(s);
    lemma_plain_path_fits(endpoint::address_of(s));
}

/// Tells whether a locator can hold `path` as its address.
pub fn fits_locator(path: &str) -> (fits: bool)
    ensures
        fits == path_fits(path@),
{
    proof {
        reveal_strlit("");
        assert(""@ =~= Seq::<char>::empty());
    }
    match Locator::new(UNIXSOCKSTREAM_LOCATOR_PREFIX, path, "") {
        Ok(_) => true,
        Err(_) => false,
    }
}

/// The locator of the socket at `path`.
fn locator_at(path: &str) -> (locator: Locator)
    requires
        path_fits(path@),
    ensures
        locator@ == path_locator(path@),
{
    proof {
        reveal_strlit("");
        assert(""@ =~= Seq::<char>::empty());
    }
    Locator::new(UNIXSOCKSTREAM_LOCATOR_PREFIX, path, "").unwrap()
}

/// A link over a connected socket, between two locators.
pub struct LinkUnicastUnixSocketStream<S> {
    socket: S,
    mtu: u16,
    src_locator: Locator,
    dst_locator: Locator,
}

/// The line that names a link: where it comes from and where it goes.
pub open spec fn link_line(src: Seq<char>, dst: Seq<char>) -> Seq<char> {
    src + " => "@ + dst
}

/// What a link makes of the outcome of a call on its socket.
pub open spec fn socket_outcome<T>(
    outcome: Result<T, String>,
    result: Result<T, LinkError>,
    error: spec_fn(Seq<char>) -> LinkErrorView,
) -> bool {
    match outcome {
        Ok(value) => result == Ok::<T, LinkError>(value),
        Err(cause) => result is Err && result->Err_0@ == error(cause@),
    }
}

impl<S> LinkUnicastUnixSocketStream<S> {
    /// The socket.
    pub closed spec fn socket(self) -> S {
        self.socket
    }

    /// The most bytes that one message can hold.
    pub closed spec fn mtu(self) -> u16 {
        self.mtu
    }

    /// The text of the locator that the link comes from.
    pub closed spec fn src(self) -> Seq<char> {
        self.src_locator@
    }

    /// The text of the locator that the link goes to.
    pub closed spec fn dst(self) -> Seq<char> {
        self.dst_locator@
    }

    /// The failure of a write to this link.
    pub open spec fn write_failure(self, cause: Seq<char>) -> LinkErrorView {
        LinkErrorView::WriteFailed { link: link_line(self.src(), self.dst()), cause }
    }

    /// The failure of a read from this link.
    pub open spec fn read_failure(self, cause: Seq<char>) -> LinkErrorView {
        LinkErrorView::ReadFailed { link: link_line(self.src(), self.dst()), cause }
    }

    /// A link over `socket` from `src_path` to `dst_path`, with at most `mtu` bytes to a message.
    pub fn new(socket: S, src_path: &str, dst_path: &str, mtu: u16) -> (link:
        LinkUnicastUnixSocketStream<S>)
        requires
            path_fits(src_path@),
            path_fits(dst_path@),
        ensures
            link.socket() == socket,
            link.mtu() == mtu,
            link.src() == path_locator(src_path@),
            link.dst() == path_locator(dst_path@),
    {
        LinkUnicastUnixSocketStream {
            socket,
            mtu,
            src_locator: locator_at(src_path),
            dst_locator: locator_at(dst_path),
        }
    }

    /// The socket of the link.
    pub fn get_socket(&self) -> (socket: &S)
        ensures
            *socket == self.socket(),
    {
        &self.socket
    }

    /// The locator that the link comes from.
    pub fn get_src(&self) -> (locator: &Locator)
        ensures
            locator@ == self.src(),
    {
        &self.src_locator
    }

    /// The locator that the link goes to.
    pub fn get_dst(&self) -> (locator: &Locator)
        ensures
            locator@ == self.dst(),
    {
        &self.dst_locator
    }

    /// The most bytes that one message can hold.
    pub fn get_mtu(&self) -> (mtu: u16)
        ensures
            mtu == self.mtu(),
    {
        self.mtu
    }

    /// The network interfaces under the link: a Unix socket has none.
    pub fn get_interface_names(&self) -> (names: Vec<String>)
        ensures
            names@.len() == 0,
    {
        Vec::new()
    }

    /// Whether the link neither loses nor reorders what it carries.
    pub fn is_reliable(&self) -> (reliable: bool)
        ensures
            reliable == IS_RELIABLE,
    {
        IS_RELIABLE
    }

    /// Whether the link is a stream of bytes: it is.
    pub fn is_streamed(&self) -> (streamed: bool)
        ensures
            streamed,
    {
        true
    }

    /// What is known of who stands at the other end.
    pub fn get_auth_id(&self) -> (id: &LinkAuthId)
        ensures
            *id == LinkAuthId::UnixsockStream,
    {
        &LinkAuthId::UnixsockStream
    }

    /// The line that names the link.
    pub fn to_string(&self) -> (line: String)
        ensures
            line@ == link_line(self.src(), self.dst()),
    {
        self.src_locator.as_str().to_owned().concat(" => ").concat(self.dst_locator.as_str())
    }

    /// What closing the link comes to, given how the socket was shut down.
    pub fn close(&self, outcome: Result<(), String>) -> (result: Result<(), LinkError>)
        ensures
            socket_outcome(outcome, result, |cause: Seq<char>| LinkErrorView::Io { cause }),
    {
        match outcome {
            Ok(()) => Ok(()),
            Err(cause) => Err(LinkError::Io { cause }),
        }
    }

    /// What a write to the link comes to, given how many bytes the socket took.
    pub fn write(&self, outcome: Result<usize, String>) -> (result: Result<usize, LinkError>)
        ensures
            socket_outcome(outcome, result, |cause: Seq<char>| self.write_failure(cause)),
    {
        match outcome {
            Ok(len) => Ok(len),
            Err(cause) => Err(LinkError::WriteFailed { link: self.to_string(), cause }),
        }
    }

    /// What a write of a whole buffer comes to, given whether the socket took all of it.
    pub fn write_all(&self, outcome: Result<(), String>) -> (result: Result<(), LinkError>)
        ensures
            socket_outcome(outcome, result, |cause: Seq<char>| self.write_failure(cause)),
    {
        match outcome {
            Ok(()) => Ok(()),
            Err(cause) => Err(LinkError::WriteFailed { link: self.to_string(), cause }),
        }
    }

    /// What a read from the link comes to, given how many bytes the socket gave.
    pub fn read(&self, outcome: Result<usize, String>) -> (result: Result<usize, LinkError>)
        ensures
            socket_outcome(outcome, result, |cause: Seq<char>| self.read_failure(cause)),
    {
        match outcome {
            Ok(len) => Ok(len),
            Err(cause) => Err(LinkError::ReadFailed { link: self.to_string(), cause }),
        }
    }

    /// What a read of a whole buffer comes to, given how many bytes the socket gave.
    pub fn read_exact(&self, outcome: Result<usize, String>) -> (result: Result<(), LinkError>)
        ensures
            result is Ok <==> outcome is Ok,
            outcome matches Err(cause) ==> result->Err_0@ == self.read_failure(cause@),
    {
        match outcome {
            Ok(_) => Ok(()),
            Err(cause) => Err(LinkError::ReadFailed { link: self.to_string(), cause }),
        }
    }
}

} // verus!
