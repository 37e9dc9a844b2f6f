//! Socket addresses and the paths that name them. A path that starts with `@` names a socket in
//! the abstract namespace, the empty path none, any other a file.

use crate::error::{LinkError, LinkErrorView};
use crate::text;
use vstd::prelude::*;
use vstd::utf8::*;

verus! {

/// The address of a Unix domain socket.
pub enum SocketAddr {
    /// A file with this path.
    Pathname(Vec<u8>),
    /// A name in the abstract namespace.
    Abstract(Vec<u8>),
    /// No name at all, as of a socket that was never bound.
    Unnamed,
}

/// A `SocketAddr` as a value over bytes.
pub enum SocketAddrView {
    Pathname(Seq<u8>),
    Abstract(Seq<u8>),
    Unnamed,
}

impl View for SocketAddr {
    type V = SocketAddrView;

    open spec fn view(&self) -> SocketAddrView {
        match *self {
            SocketAddr::Pathname(path) => SocketAddrView::Pathname(path@),
            SocketAddr::Abstract(name) => SocketAddrView::Abstract(name@),
            SocketAddr::Unnamed => SocketAddrView::Unnamed,
        }
    }
}

/// A path that names a socket in the abstract namespace.
pub open spec fn is_abstract(path: Seq<char>) -> bool {
    path.len() > 0 && path[0] == '@'
}

/// The address that `path` names.
pub open spec fn named_address(path: Seq<char>) -> SocketAddrView {
    if is_abstract(path) {
        SocketAddrView::Abstract(encode_utf8(path.subrange(1, path.len() as int)))
    } else if path.len() == 0 {
        SocketAddrView::Unnamed
    } else {
        SocketAddrView::Pathname(encode_utf8(path))
    }
}

/// Whether the system can hold `address`, where its sockets have room for `capacity` bytes: one
/// is set aside, and a path has no zero byte in it.
pub open spec fn system_holds(address: SocketAddrView, capacity: nat) -> bool {
    match address {
        SocketAddrView::Pathname(path) => path.len() < capacity && !path.contains(0u8),
        SocketAddrView::Abstract(name) => name.len() < capacity,
        SocketAddrView::Unnamed => true,
    }
}

/// The path that names `address`, where there is one. The bytes of a file's path must be text;
/// those of an abstract name are shown as text as far as they are.
pub open spec fn address_path(address: SocketAddrView) -> Option<Seq<char>> {
    match address {
        SocketAddrView::Pathname(path) => if valid_utf8(path) {
            Some(decode_utf8(path))
        } else {
            None
        },
        SocketAddrView::Abstract(name) => Some(seq!['@'] + text::lossy_text(name)),
        SocketAddrView::Unnamed => None,
    }
}

/// What is said against a path whose address there is not, or the system cannot hold.
pub open spec fn address_refusal(path: Seq<char>, abstract_names: bool) -> LinkErrorView {
    match named_address(path) {
        SocketAddrView::Pathname(bytes) => if bytes.contains(0u8) {
            LinkErrorView::PathHoldsZero
        } else {
            LinkErrorView::PathTooLong
        },
        _ => if abstract_names {
            LinkErrorView::NameTooLong
        } else {
            LinkErrorView::AbstractUnsupported
        },
    }
}

/// Tells whether `path` names a socket in the abstract namespace.
pub fn names_abstract(path: &str) -> (answer: bool)
    ensures
        answer == is_abstract(path@),
{
    path.unicode_len() > 0 && path.get_char(0) == '@'
}

/// The address that `path` names.
pub(crate) fn address_named(path: &str) -> (addr: SocketAddr)
    ensures
        addr@ == named_address(path@),
{
    if names_abstract(path) {
        let name: &str = path.substring_char(1, path.unicode_len());
        SocketAddr::Abstract(name.as_bytes_vec())
    } else if path.unicode_len() == 0 {
        SocketAddr::Unnamed
    } else {
        SocketAddr::Pathname(path.as_bytes_vec())
    }
}

/// Tells whether a zero is among `bytes`.
fn holds_zero(bytes: &Vec<u8>) -> (answer: bool)
    ensures
        answer == bytes@.contains(0u8),
{
    let mut i: usize = 0;
    while i < bytes.len()
        invariant
            i <= bytes@.len(),
            forall|j: int| 0 <= j < i ==> bytes@[j] != 0u8,
        decreases bytes@.len() - i,
    {
        if bytes[i] == 0 {
            return true;
        }
        i = i + 1;
    }
    false
}

/// Tells whether the system can hold `addr`, where its sockets have room for `capacity` bytes.
pub fn fits_system(addr: &SocketAddr, capacity: usize) -> (fits: bool)
    ensures
        fits == system_holds(addr@, capacity as nat),
{
    match addr {
        SocketAddr::Pathname(path) => path.len() < capacity && !holds_zero(path),
        SocketAddr::Abstract(name) => name.len() < capacity,
        SocketAddr::Unnamed => true,
    }
}

/// The address that `path` names, and whether it is in the abstract namespace. Where
/// `abstract_names` is false there is no such namespace; where the sockets of the system have
/// room for `capacity` bytes, it can hold only some addresses.
pub fn to_socket_addr(path: &str, abstract_names: bool, capacity: usize) -> (result: Result<
    (SocketAddr, bool),
    LinkError,
>)
    ensures
        result is Err <==> is_abstract(path@) && !abstract_names || !system_holds(
            named_address(path@),
            capacity as nat,
        ),
        result matches Ok(r) ==> r.0@ == named_address(path@) && r.1 == is_abstract(path@),
        result matches Err(e) ==> e@ == address_refusal(path@, abstract_names),
{
    let is_abstract: bool = names_abstract(path);
    if is_abstract && !abstract_names {
        return Err(LinkError::AbstractUnsupported);
    }
    let addr: SocketAddr = address_named(path);
    if fits_system(&addr, capacity) {
        return Ok((addr, is_abstract));
    }
    match &addr {
        SocketAddr::Pathname(bytes) => {
            if holds_zero(bytes) {
                Err(LinkError::PathHoldsZero)
            } else {
                Err(LinkError::PathTooLong)
            }
        },
        _ => Err(LinkError::NameTooLong),
    }
}

/// The path that names `addr`, where there is one.
pub fn socket_addr_to_string(addr: &SocketAddr) -> (path: Option<String>)
    ensures
        path is Some <==> address_path(addr@) is Some,
        path matches Some(p) ==> address_path(addr@) == Some(p@),
{
    match addr {
        SocketAddr::Pathname(path) => text::utf8_text(path.as_slice()),
        SocketAddr::Abstract(name) => {
            let shown: String = text::utf8_text_lossy(name.as_slice());
            proof {
                reveal_strlit("@");
                assert("@"@ =~= seq!['@']);
            }
            Some("@".to_owned().concat(shown.as_str()))
        },
        SocketAddr::Unnamed => None,
    }
}

/// The path that names the address of a socket in service, where there is one.
pub fn tokio_socket_addr_to_string(addr: &SocketAddr) -> (path: Option<String>)
    ensures
        path is Some <==> address_path(addr@) is Some,
        path matches Some(p) ==> address_path(addr@) == Some(p@),
{
    socket_addr_to_string(addr)
}

/// The path of the address that a path names is that path, unless it is empty.
pub proof fn lemma_path_round_trip(path: Seq<char>)
    requires
        path.len() > 0,
    ensures
        address_path(named_address(path)) == Some(path),
{
    broadcast use encode_utf8_valid_utf8, encode_utf8_decode_utf8;

    if is_abstract(path) {
        assert(seq!['@'] + path.subrange(1, path.len() as int) =~= path);
    }
}

/// Different paths name different addresses.
pub proof fn lemma_paths_name_distinct_addresses(a: Seq<char>, b: Seq<char>)
    ensures
        named_address(a) == named_address(b) <==> a == b,
{
    if a.len() > 0 {
        lemma_path_round_trip(a);
    }
    if b.len() > 0 {
        lemma_path_round_trip(b);
    }
    if a.len() == 0 && b.len() == 0 {
        assert(a =~= b);
    }
}

} // verus!
