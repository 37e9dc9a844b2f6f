//! Laws of errors: what is said of each, in full.

use crate::error::{LinkError, LinkErrorView};
use crate::text;
use vstd::prelude::*;

verus! {

/// What is said of a link that could not be made or used.
pub proof fn lemma_link_messages(path: Seq<char>, cause: Seq<char>)
    ensures
        (LinkErrorView::LinkNotBound { path, cause }).message()
            == "Can not create a new UnixSocketStream link bound to "@ + text::quoted(path) + ": "@
            + cause,
        (LinkErrorView::LinkUnaddressed { address: path }).message()
            == "Can not create a new UnixSocketStream link bound to "@ + path,
        (LinkErrorView::WriteFailed { link: path, cause }).message()
            == "Write error on UnixSocketStream link "@ + path + ": "@ + cause,
        (LinkErrorView::ReadFailed { link: path, cause }).message()
            == "Read error on UnixSocketStream link "@ + path + ": "@ + cause,
{
}

/// What is said of a listener that could not be opened or found.
pub proof fn lemma_listener_messages(path: Seq<char>, cause: Seq<char>)
    ensures
        (LinkErrorView::LockFileNotOpened { path, cause }).message()
            == "Can not create a new UnixSocketStream listener on "@ + path
            + " - Unable to open lock file: "@ + cause,
        (LinkErrorView::LockHeld { path }).message()
            == "Can not create a new UnixSocketStream listener on "@ + path
            + " - Unable to acquire lock: WouldBlock"@,
        (LinkErrorView::LockNotTaken { path, cause }).message()
            == "Can not create a new UnixSocketStream listener on "@ + path
            + " - Unable to acquire lock: "@ + cause,
        (LinkErrorView::LockFileSubstituted { path }).message()
            == "Can not create a new UnixSocketStream listener on "@ + path
            + " - Lockfile was substituted during acquisition"@,
        (LinkErrorView::ListenerNotBound { path, cause }).message()
            == "Can not create a new UnixSocketStream listener on "@ + path + ": "@ + cause,
        (LinkErrorView::ListenerUnaddressed { path }).message()
            == "Can not create a new UnixSocketStream listener on "@ + path,
        (LinkErrorView::ListenerNotFound { path }).message()
            == "Can not delete the UnixSocketStream listener because it has not been found: "@
            + path,
{
}

/// What is said of everything else.
pub proof fn lemma_other_messages(cause: Seq<char>, len: nat)
    ensures
        LinkErrorView::AbstractUnsupported.message()
            == "Abstract Unix sockets ('@') are only supported on Linux"@,
        LinkErrorView::PathHoldsZero.message() == "paths must not contain interior null bytes"@,
        LinkErrorView::PathTooLong.message() == "path must be shorter than SUN_LEN"@,
        LinkErrorView::NameTooLong.message()
            == "abstract socket address must be shorter than SUN_LEN"@,
        (LinkErrorView::Io { cause }).message() == cause,
        (LinkErrorView::WorkerLost { cause }).message() == "Spawn blocking join error: "@ + cause,
        (LinkErrorView::EndPointTooBig { len }).message() == "Endpoint too big: "@ + text::decimal(
            len,
        ) + " bytes. Max: 255 bytes. "@,
        (LinkErrorView::EndPointMalformed { text: cause }).message()
            == "Endpoints must be of the form <protocol>/<address>[?<metadata>][#<config>]: "@
            + cause,
{
}

/// An error stands for its kind and its texts.
pub proof fn lemma_error_values(path: String, cause: String, len: u128)
    ensures
        LinkError::AbstractUnsupported@ == LinkErrorView::AbstractUnsupported,
        LinkError::PathHoldsZero@ == LinkErrorView::PathHoldsZero,
        LinkError::PathTooLong@ == LinkErrorView::PathTooLong,
        LinkError::NameTooLong@ == LinkErrorView::NameTooLong,
        (LinkError::Io { cause })@ == (LinkErrorView::Io { cause: cause@ }),
        (LinkError::LinkNotBound { path, cause })@ == (LinkErrorView::LinkNotBound {
            path: path@,
            cause: cause@,
        }),
        (LinkError::LinkUnaddressed { address: path })@ == (LinkErrorView::LinkUnaddressed {
            address: path@,
        }),
        (LinkError::LockFileNotOpened { path, cause })@ == (LinkErrorView::LockFileNotOpened {
            path: path@,
            cause: cause@,
        }),
        (LinkError::LockHeld { path })@ == (LinkErrorView::LockHeld { path: path@ }),
        (LinkError::LockNotTaken { path, cause })@ == (LinkErrorView::LockNotTaken {
            path: path@,
            cause: cause@,
        }),
        (LinkError::LockFileSubstituted { path })@ == (LinkErrorView::LockFileSubstituted {
            path: path@,
        }),
        (LinkError::WorkerLost { cause })@ == (LinkErrorView::WorkerLost { cause: cause@ }),
        (LinkError::ListenerNotBound { path, cause })@ == (LinkErrorView::ListenerNotBound {
            path: path@,
            cause: cause@,
        }),
        (LinkError::ListenerUnaddressed { path })@ == (LinkErrorView::ListenerUnaddressed {
            path: path@,
        }),
        (LinkError::ListenerNotFound { path })@ == (LinkErrorView::ListenerNotFound {
            path: path@,
        }),
        (LinkError::WriteFailed { link: path, cause })@ == (LinkErrorView::WriteFailed {
            link: path@,
            cause: cause@,
        }),
        (LinkError::ReadFailed { link: path, cause })@ == (LinkErrorView::ReadFailed {
            link: path@,
            cause: cause@,
        }),
        (LinkError::EndPointTooBig { len })@ == (LinkErrorView::EndPointTooBig {
            len: len as nat,
        }),
        (LinkError::EndPointMalformed { text: path })@ == (LinkErrorView::EndPointMalformed {
            text: path@,
        }),
{
}

/// The number that a text of decimal digits stands for.
pub open spec fn value_of(digits: Seq<char>) -> int
    decreases digits.len(),
{
    if digits.len() == 0 {
        0
    } else {
        value_of(digits.drop_last()) * 10 + (digits.last() as int - '0' as int)
    }
}

/// A decimal number is made of digits, starts with a zero only if it is zero, and stands for the
/// number that it was made of.
pub proof fn lemma_decimal(n: nat)
    ensures
        value_of(text::decimal(n)) == n,
        text::decimal(n).len() > 0,
        forall|i: int|
            0 <= i < text::decimal(n).len() ==> '0' <= #[trigger] text::decimal(n)[i] <= '9',
        n > 0 ==> text::decimal(n)[0] != '0',
    decreases n,
{
    let d = text::decimal(n);
    if n < 10 {
        assert(d.drop_last() =~= Seq::<char>::empty());
        assert(value_of(d.drop_last()) == 0);
    } else {
        let tens = text::decimal(n / 10);
        lemma_decimal(n / 10);
        assert(d.drop_last() =~= tens);
        assert(d.last() == text::digit(n % 10));
        assert forall|i: int| 0 <= i < d.len() implies '0' <= #[trigger] d[i] <= '9' by {
            if i < tens.len() {
                assert(d[i] == tens[i]);
            }
        }
        assert(d[0] == tens[0]);
    }
}

} // verus!
