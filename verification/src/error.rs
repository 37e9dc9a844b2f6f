//! What can go wrong with a link or a listener, and the text that says so.

use crate::text;
use vstd::prelude::*;

verus! {

/// Why a link or a listener could not be made, used or taken down. A `cause` is the text of the
/// error underneath.
#[derive(Debug)]
pub enum LinkError {
    /// A path starts with `@` where abstract names do not exist.
    AbstractUnsupported,
    /// A path has a zero byte in it.
    PathHoldsZero,
    /// A path has more bytes than the system has room for.
    PathTooLong,
    /// An abstract name has more bytes than the system has room for.
    NameTooLong,
    /// A step failed with nothing to add to its cause.
    Io { cause: String },
    /// The link to `path` could not be connected or has no addresses.
    LinkNotBound { path: String, cause: String },
    /// The socket of a listener has no address that a link could be bound to.
    LinkUnaddressed { address: String },
    /// The lock file beside `path` could not be opened.
    LockFileNotOpened { path: String, cause: String },
    /// The lock beside `path` is held elsewhere.
    LockHeld { path: String },
    /// The lock beside `path` could not be taken.
    LockNotTaken { path: String, cause: String },
    /// The lock file beside `path` is no longer the one that was locked.
    LockFileSubstituted { path: String },
    /// The thread that worked on files did not finish.
    WorkerLost { cause: String },
    /// The listener on `path` could not be bound or has no address.
    ListenerNotBound { path: String, cause: String },
    /// The address of the listener on `path` has no text.
    ListenerUnaddressed { path: String },
    /// There is no listener on `path`.
    ListenerNotFound { path: String },
    /// The socket of `link` could not be written.
    WriteFailed { link: String, cause: String },
    /// The socket of `link` could not be read.
    ReadFailed { link: String, cause: String },
    /// The parts of an endpoint before its configuration have `len` bytes, which is too many.
    EndPointTooBig { len: u128 },
    /// `text` is not that of an endpoint.
    EndPointMalformed { text: String },
}

/// A `LinkError` as a value over texts.
pub enum LinkErrorView {
    AbstractUnsupported,
    PathHoldsZero,
    PathTooLong,
    NameTooLong,
    Io { cause: Seq<char> },
    LinkNotBound { path: Seq<char>, cause: Seq<char> },
    LinkUnaddressed { address: Seq<char> },
    LockFileNotOpened { path: Seq<char>, cause: Seq<char> },
    LockHeld { path: Seq<char> },
    LockNotTaken { path: Seq<char>, cause: Seq<char> },
    LockFileSubstituted { path: Seq<char> },
    WorkerLost { cause: Seq<char> },
    ListenerNotBound { path: Seq<char>, cause: Seq<char> },
    ListenerUnaddressed { path: Seq<char> },
    ListenerNotFound { path: Seq<char> },
    WriteFailed { link: Seq<char>, cause: Seq<char> },
    ReadFailed { link: Seq<char>, cause: Seq<char> },
    EndPointTooBig { len: nat },
    EndPointMalformed { text: Seq<char> },
}

impl View for LinkError {
    type V = LinkErrorView;

    open spec fn view(&self) -> LinkErrorView {
        match *self {
            LinkError::AbstractUnsupported => LinkErrorView::AbstractUnsupported,
            LinkError::PathHoldsZero => LinkErrorView::PathHoldsZero,
            LinkError::PathTooLong => LinkErrorView::PathTooLong,
            LinkError::NameTooLong => LinkErrorView::NameTooLong,
            LinkError::Io { cause } => LinkErrorView::Io { cause: cause@ },
            LinkError::LinkNotBound { path, cause } => LinkErrorView::LinkNotBound {
                path: path@,
                cause: cause@,
            },
            LinkError::LinkUnaddressed { address } => LinkErrorView::LinkUnaddressed {
                address: address@,
            },
            LinkError::LockFileNotOpened { path, cause } => LinkErrorView::LockFileNotOpened {
                path: path@,
                cause: cause@,
            },
            LinkError::LockHeld { path } => LinkErrorView::LockHeld { path: path@ },
            LinkError::LockNotTaken { path, cause } => LinkErrorView::LockNotTaken {
                path: path@,
                cause: cause@,
            },
            LinkError::LockFileSubstituted { path } => LinkErrorView::LockFileSubstituted {
                path: path@,
            },
            LinkError::WorkerLost { cause } => LinkErrorView::WorkerLost { cause: cause@ },
            LinkError::ListenerNotBound { path, cause } => LinkErrorView::ListenerNotBound {
                path: path@,
                cause: cause@,
            },
            LinkError::ListenerUnaddressed { path } => LinkErrorView::ListenerUnaddressed {
                path: path@,
            },
            LinkError::ListenerNotFound { path } => LinkErrorView::ListenerNotFound {
                path: path@,
            },
            LinkError::WriteFailed { link, cause } => LinkErrorView::WriteFailed {
                link: link@,
                cause: cause@,
            },
            LinkError::ReadFailed { link, cause } => LinkErrorView::ReadFailed {
                link: link@,
                cause: cause@,
            },
            LinkError::EndPointTooBig { len } => LinkErrorView::EndPointTooBig { len: len as nat },
            LinkError::EndPointMalformed { text } => LinkErrorView::EndPointMalformed {
                text: text@,
            },
        }
    }
}

impl LinkErrorView {
    /// What is told of the error.
    pub open spec fn message(self) -> Seq<char> {
        match self {
            LinkErrorView::AbstractUnsupported
                => "Abstract Unix sockets ('@') are only supported on Linux"@,
            LinkErrorView::PathHoldsZero => "paths must not contain interior null bytes"@,
            LinkErrorView::PathTooLong => "path must be shorter than SUN_LEN"@,
            LinkErrorView::NameTooLong
                => "abstract socket address must be shorter than SUN_LEN"@,
            LinkErrorView::Io { cause } => cause,
            LinkErrorView::LinkNotBound { path, cause }
                => "Can not create a new UnixSocketStream link bound to "@ + text::quoted(path)
                + ": "@ + cause,
            LinkErrorView::LinkUnaddressed { address }
                => "Can not create a new UnixSocketStream link bound to "@ + address,
            LinkErrorView::LockFileNotOpened { path, cause }
                => "Can not create a new UnixSocketStream listener on "@ + path
                + " - Unable to open lock file: "@ + cause,
            LinkErrorView::LockHeld { path }
                => "Can not create a new UnixSocketStream listener on "@ + path
                + " - Unable to acquire lock: WouldBlock"@,
            LinkErrorView::LockNotTaken { path, cause }
                => "Can not create a new UnixSocketStream listener on "@ + path
                + " - Unable to acquire lock: "@ + cause,
            LinkErrorView::LockFileSubstituted { path }
                => "Can not create a new UnixSocketStream listener on "@ + path
                + " - Lockfile was substituted during acquisition"@,
            LinkErrorView::WorkerLost { cause } => "Spawn blocking join error: "@ + cause,
            LinkErrorView::ListenerNotBound { path, cause }
                => "Can not create a new UnixSocketStream listener on "@ + path + ": "@ + cause,
            LinkErrorView::ListenerUnaddressed { path }
                => "Can not create a new UnixSocketStream listener on "@ + path,
            LinkErrorView::ListenerNotFound { path }
                => "Can not delete the UnixSocketStream listener because it has not been found: "@
                + path,
            LinkErrorView::WriteFailed { link, cause }
                => "Write error on UnixSocketStream link "@ + link + ": "@ + cause,
            LinkErrorView::ReadFailed { link, cause }
                => "Read error on UnixSocketStream link "@ + link + ": "@ + cause,
            LinkErrorView::EndPointTooBig { len } => "Endpoint too big: "@ + text::decimal(len)
                + " bytes. Max: 255 bytes. "@,
            LinkErrorView::EndPointMalformed { text }
                => "Endpoints must be of the form <protocol>/<address>[?<metadata>][#<config>]: "@
                + text,
        }
    }
}

/// `a`, then `b`, then `c`, then `d`.
fn concat4(a: &str, b: &str, c: &str, d: &str) -> (all: String)
    ensures
        all@ == a@ + b@ + c@ + d@,
{
    a.to_owned().concat(b).concat(c).concat(d)
}

impl LinkError {
    /// Says what went wrong.
    pub fn message(&self) -> (message: String)
        ensures
            message@ == self@.message(),
    {
        match self {
            LinkError::AbstractUnsupported
                => "Abstract Unix sockets ('@') are only supported on Linux".to_owned(),
            LinkError::PathHoldsZero => "paths must not contain interior null bytes".to_owned(),
            LinkError::PathTooLong => "path must be shorter than SUN_LEN".to_owned(),
            LinkError::NameTooLong
                => "abstract socket address must be shorter than SUN_LEN".to_owned(),
            LinkError::Io { cause } => cause.clone(),
            LinkError::LinkNotBound { path, cause } => {
                let quoted: String = text::quote(path.as_str());
                concat4(
                    "Can not create a new UnixSocketStream link bound to ",
                    quoted.as_str(),
                    ": ",
                    cause.as_str(),
                )
            },
            LinkError::LinkUnaddressed { address }
                => "Can not create a new UnixSocketStream link bound to ".to_owned().concat(
                address.as_str(),
            ),
            LinkError::LockFileNotOpened { path, cause } => concat4(
                "Can not create a new UnixSocketStream listener on ",
                path.as_str(),
                " - Unable to open lock file: ",
                cause.as_str(),
            ),
            LinkError::LockHeld { path }
                => "Can not create a new UnixSocketStream listener on ".to_owned().concat(
                path.as_str(),
            ).concat(" - Unable to acquire lock: WouldBlock"),
            LinkError::LockNotTaken { path, cause } => concat4(
                "Can not create a new UnixSocketStream listener on ",
                path.as_str(),
                " - Unable to acquire lock: ",
                cause.as_str(),
            ),
            LinkError::LockFileSubstituted { path }
                => "Can not create a new UnixSocketStream listener on ".to_owned().concat(
                path.as_str(),
            ).concat(" - Lockfile was substituted during acquisition"),
            LinkError::WorkerLost { cause }
                => "Spawn blocking join error: ".to_owned().concat(cause.as_str()),
            LinkError::ListenerNotBound { path, cause } => concat4(
                "Can not create a new UnixSocketStream listener on ",
                path.as_str(),
                ": ",
                cause.as_str(),
            ),
            LinkError::ListenerUnaddressed { path }
                => "Can not create a new UnixSocketStream listener on ".to_owned().concat(
                path.as_str(),
            ),
            LinkError::ListenerNotFound { path }
                => "Can not delete the UnixSocketStream listener because it has not been found: "
                .to_owned().concat(path.as_str()),
            LinkError::WriteFailed { link, cause } => concat4(
                "Write error on UnixSocketStream link ",
                link.as_str(),
                ": ",
                cause.as_str(),
            ),
            LinkError::ReadFailed { link, cause } => concat4(
                "Read error on UnixSocketStream link ",
                link.as_str(),
                ": ",
                cause.as_str(),
            ),
            LinkError::EndPointTooBig { len } => {
                let shown: String = text::decimal_text(*len);
                "Endpoint too big: ".to_owned().concat(shown.as_str()).concat(
                    " bytes. Max: 255 bytes. ",
                )
            },
            LinkError::EndPointMalformed { text }
                => "Endpoints must be of the form <protocol>/<address>[?<metadata>][#<config>]: "
                .to_owned().concat(text.as_str()),
        }
    }
}

} // verus!
