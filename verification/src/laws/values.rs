//! Laws of values: each of the library's types stands for the value that its parts spell.

use crate::accept::{AcceptAction, AcceptActionView};
use crate::address::{SocketAddr, SocketAddrView};
use crate::connect::{LinkAction, LinkActionView, LinkReply, LinkReplyView};
use crate::endpoint::{EndPoint, Locator};
use crate::error::LinkError;
use crate::identity;
use crate::listen::{ListenAction, ListenActionView, ListenReply, ListenReplyView};
use crate::release::{ReleaseAction, ReleaseActionView, ReleaseReply, ReleaseReplyView};
use vstd::prelude::*;

verus! {

/// An address stands for its kind and its bytes.
pub proof fn lemma_address_values(bytes: Vec<u8>)
    ensures
        SocketAddr::Pathname(bytes)@ == SocketAddrView::Pathname(bytes@),
        SocketAddr::Abstract(bytes)@ == SocketAddrView::Abstract(bytes@),
        SocketAddr::Unnamed@ == SocketAddrView::Unnamed,
{
}

/// What is asked of the system, and what it replies, while a link is connected.
pub proof fn lemma_link_values(addr: SocketAddr, src: String, dst: String, error: LinkError)
    ensures
        LinkAction::Resolve(addr)@ == LinkActionView::Resolve(addr@),
        LinkAction::Connect(addr)@ == LinkActionView::Connect(addr@),
        LinkAction::SetNonblocking@ == LinkActionView::SetNonblocking,
        LinkAction::LocalAddr@ == LinkActionView::LocalAddr,
        LinkAction::PeerAddr@ == LinkActionView::PeerAddr,
        LinkAction::Adopt@ == LinkActionView::Adopt,
        (LinkAction::Deliver { src_path: src, dst_path: dst })@ == (LinkActionView::Deliver {
            src_path: src@,
            dst_path: dst@,
        }),
        LinkAction::Fail(error)@ == LinkActionView::Fail(error@),
        LinkReply::Done@ == LinkReplyView::Done,
        LinkReply::Address(addr)@ == LinkReplyView::Address(addr@),
        LinkReply::Failed(src)@ == LinkReplyView::Failed(src@),
{
}

/// What is asked of the system while a listener is opened.
pub proof fn lemma_listen_values(
    addr: SocketAddr,
    path: String,
    endpoint: EndPoint,
    locator: Locator,
    locked: bool,
    error: LinkError,
)
    ensures
        ListenAction::Resolve(addr)@ == ListenActionView::Resolve(addr@),
        ListenAction::OpenLockFile(path)@ == ListenActionView::OpenLockFile(path@),
        ListenAction::TryLock@ == ListenActionView::TryLock,
        ListenAction::StatOpened@ == ListenActionView::StatOpened,
        ListenAction::StatOnDisk(path)@ == ListenActionView::StatOnDisk(path@),
        ListenAction::RemoveSocketFile(path)@ == ListenActionView::RemoveSocketFile(path@),
        ListenAction::Bind(addr)@ == ListenActionView::Bind(addr@),
        ListenAction::SetNonblocking@ == ListenActionView::SetNonblocking,
        ListenAction::LocalAddr@ == ListenActionView::LocalAddr,
        ListenAction::Adopt@ == ListenActionView::Adopt,
        (ListenAction::Register { path, endpoint, locator, locked })@ == (
        ListenActionView::Register {
            path: path@,
            endpoint: endpoint@,
            locator: locator@,
            locked,
        }),
        ListenAction::Fail(error)@ == ListenActionView::Fail(error@),
{
}

/// What the system replies while a listener is opened.
pub proof fn lemma_listen_replies<F>(addr: SocketAddr, cause: String, file: F, dev: u64, ino: u64)
    ensures
        ListenReply::<F>::Done@ == ListenReplyView::<F>::Done,
        ListenReply::Opened(file)@ == ListenReplyView::Opened(file),
        ListenReply::<F>::WouldBlock@ == ListenReplyView::<F>::WouldBlock,
        (ListenReply::<F>::Identity { dev, ino })@ == (ListenReplyView::<F>::Identity { dev, ino }),
        ListenReply::<F>::Address(addr)@ == ListenReplyView::<F>::Address(addr@),
        ListenReply::<F>::Failed(cause)@ == ListenReplyView::<F>::Failed(cause@),
        ListenReply::<F>::Lost(cause)@ == ListenReplyView::<F>::Lost(cause@),
{
}

/// What is asked of the system, and what it replies, while a listener is taken down.
pub proof fn lemma_release_values(text: String, error: LinkError)
    ensures
        ReleaseAction::Stop@ == ReleaseActionView::Stop,
        ReleaseAction::Join@ == ReleaseActionView::Join,
        ReleaseAction::RemoveSocketFile(text)@ == ReleaseActionView::RemoveSocketFile(text@),
        ReleaseAction::RemoveLockFile(text)@ == ReleaseActionView::RemoveLockFile(text@),
        ReleaseAction::Unlock@ == ReleaseActionView::Unlock,
        ReleaseAction::Finish@ == ReleaseActionView::Finish,
        ReleaseAction::Fail(error)@ == ReleaseActionView::Fail(error@),
        ReleaseReply::Done@ == ReleaseReplyView::Done,
        ReleaseReply::Failed(text)@ == ReleaseReplyView::Failed(text@),
        ReleaseReply::Lost(text)@ == ReleaseReplyView::Lost(text@),
{
}

/// What a listener in service is told to do.
pub proof fn lemma_accept_values(src: String, dst: String, micros: u64)
    ensures
        AcceptAction::Accept@ == AcceptActionView::Accept,
        AcceptAction::Sleep(micros)@ == AcceptActionView::Sleep(micros),
        (AcceptAction::Deliver { src_path: src, dst_path: dst })@ == (AcceptActionView::Deliver {
            src_path: src@,
            dst_path: dst@,
        }),
        AcceptAction::Stop@ == AcceptActionView::Stop,
{
}

/// The text of a random UUID: five groups of lower-case hexadecimal digits, of eight, four, four,
/// four and twelve, with hyphens between them. The third group starts with the version, the
/// fourth with the variant.
pub proof fn lemma_random_uuid(s: Seq<char>)
    requires
        identity::is_random_uuid(s),
    ensures
        s.len() == 36,
        s[8] == '-' && s[13] == '-' && s[18] == '-' && s[23] == '-',
        s[14] == '4',
        s[19] == '8' || s[19] == '9' || s[19] == 'a' || s[19] == 'b',
        forall|i: int|
            0 <= i < 36 && i != 8 && i != 13 && i != 18 && i != 23 ==> '0' <= #[trigger] s[i] <= '9'
                || 'a' <= s[i] <= 'f',
{
}

} // verus!
