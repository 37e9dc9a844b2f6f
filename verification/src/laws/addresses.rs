//! Laws of socket addresses and of the paths that name them.

use crate::address;
use crate::address::SocketAddrView;
use crate::error::LinkErrorView;
use crate::text;
use vstd::prelude::*;
use vstd::utf8::*;

verus! {

/// `path` names `addr`: what follows an `@` spells the bytes of an abstract name, any other text
/// those of a file's path, and no text spells nothing.
pub open spec fn names(path: Seq<char>, addr: SocketAddrView) -> bool {
    match addr {
        SocketAddrView::Abstract(bytes) => valid_utf8(bytes) && path == seq!['@'] + decode_utf8(
            bytes,
        ),
        SocketAddrView::Pathname(bytes) => {
            &&& valid_utf8(bytes)
            &&& path == decode_utf8(bytes)
            &&& path.len() > 0
            &&& path[0] != '@'
        },
        SocketAddrView::Unnamed => path.len() == 0,
    }
}

/// `addr` is shown as `path`: the bytes of a file's path by the text they spell, if they spell
/// one; those of an abstract name behind an `@`; and no name by nothing.
pub open spec fn shows(addr: SocketAddrView, path: Option<Seq<char>>) -> bool {
    match (addr, path) {
        (SocketAddrView::Pathname(bytes), Some(p)) => encode_utf8(p) == bytes,
        (SocketAddrView::Pathname(bytes), None) => !valid_utf8(bytes),
        (SocketAddrView::Abstract(bytes), Some(p)) => {
            &&& p.len() > 0
            &&& p[0] == '@'
            &&& valid_utf8(bytes) ==> encode_utf8(p.skip(1)) == bytes
            &&& !valid_utf8(bytes) ==> p.skip(1) == text::utf8_replaced(bytes)
        },
        (SocketAddrView::Abstract(_), None) => false,
        (SocketAddrView::Unnamed, _) => path is None,
    }
}

/// A path names one address, the one that is made of it.
pub proof fn lemma_named(path: Seq<char>, addr: SocketAddrView)
    ensures
        names(path, address::named_address(path)),
        names(path, addr) ==> addr == address::named_address(path),
{
    broadcast use encode_utf8_valid_utf8, encode_utf8_decode_utf8, decode_utf8_encode_utf8;

    let rest = path.subrange(1, path.len() as int);
    if path.len() > 0 && path[0] == '@' {
        assert(seq!['@'] + rest =~= path);
    }
    if names(path, addr) {
        match addr {
            SocketAddrView::Abstract(bytes) => {
                assert(path.len() > 0 && path[0] == '@');
                assert(rest =~= decode_utf8(bytes));
            },
            _ => {},
        }
    }
}

/// The bytes of an abstract name are those of the text behind the `@`; the bytes of a file's path
/// are those of the whole path.
pub proof fn lemma_named_bytes(name: Seq<char>)
    ensures
        address::named_address(seq!['@'] + name) == SocketAddrView::Abstract(encode_utf8(name)),
        name.len() > 0 && name[0] != '@' ==> address::named_address(name)
            == SocketAddrView::Pathname(encode_utf8(name)),
        name.len() == 0 ==> address::named_address(name) == SocketAddrView::Unnamed,
{
    assert((seq!['@'] + name).subrange(1, name.len() as int + 1) =~= name);
}

/// A path is abstract when it starts with `@`, and not otherwise.
pub proof fn lemma_abstract(name: Seq<char>, first: char)
    ensures
        address::is_abstract(seq![first] + name) <==> first == '@',
        !address::is_abstract(Seq::empty()),
{
}

/// An address is shown by the path that spells it, and by no other.
pub proof fn lemma_shown(addr: SocketAddrView, path: Option<Seq<char>>)
    ensures
        shows(addr, address::address_path(addr)),
        shows(addr, path) ==> path == address::address_path(addr),
{
    broadcast use encode_utf8_valid_utf8, encode_utf8_decode_utf8, decode_utf8_encode_utf8;

    if let SocketAddrView::Abstract(bytes) = addr {
        let shown = address::address_path(addr)->0;
        assert(shown.skip(1) =~= text::lossy_text(bytes));
        if shows(addr, path) {
            let p = path->0;
            assert(p =~= seq!['@'] + p.skip(1));
        }
    }
}

/// The system holds a file's path that is shorter than its room and has no zero byte, an abstract
/// name that is shorter than its room, whatever its bytes, and no name always.
pub proof fn lemma_held(bytes: Seq<u8>, capacity: nat)
    ensures
        address::system_holds(SocketAddrView::Pathname(bytes), capacity) <==> bytes.len()
            < capacity && (forall|i: int| 0 <= i < bytes.len() ==> bytes[i] != 0),
        address::system_holds(SocketAddrView::Abstract(bytes), capacity) <==> bytes.len()
            < capacity,
        address::system_holds(SocketAddrView::Unnamed, capacity),
{
}

/// What is said against a path: an abstract name either does not exist here or is too long; a
/// file's path has a zero byte in it or is too long.
pub proof fn lemma_refused(path: Seq<char>, abstract_names: bool)
    requires
        path.len() > 0,
    ensures
        path[0] == '@' ==> address::address_refusal(path, abstract_names) == if abstract_names {
            LinkErrorView::NameTooLong
        } else {
            LinkErrorView::AbstractUnsupported
        },
        path[0] != '@' && encode_utf8(path).contains(0u8) ==> address::address_refusal(
            path,
            abstract_names,
        ) == LinkErrorView::PathHoldsZero,
        path[0] != '@' && !encode_utf8(path).contains(0u8) ==> address::address_refusal(
            path,
            abstract_names,
        ) == LinkErrorView::PathTooLong,
{
}

} // verus!
