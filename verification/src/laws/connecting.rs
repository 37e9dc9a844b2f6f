//! Laws of connecting a link: what is asked after each reply, in any run.

use super::addresses;
use crate::connect;
use crate::connect::{LinkActionView, LinkReplyView, LinkStage, NewLinkView};
use crate::error::LinkErrorView;
use vstd::prelude::*;

verus! {

/// Connecting a link to `path` starts with the address that `path` names.
pub proof fn lemma_link_starts(path: Seq<char>)
    ensures
        connect::link_request(connect::link_start(path)) matches LinkActionView::Resolve(addr)
            && addresses::names(path, addr),
{
    addresses::lemma_named(path, connect::link_request(connect::link_start(path))->Resolve_0);
}

/// What is asked after each reply. The socket is connected to the address that `path` names, set
/// not to block, asked for its own address and that of its peer, and adopted; then a link is
/// delivered that goes to `path` and comes from what the socket's own address is shown as, or from
/// `fresh` where it is not shown. A failure ends it with the cause, and says which link could not
/// be made where the socket was connected or asked for an address.
pub proof fn lemma_link_actions(path: Seq<char>, replies: Seq<LinkReplyView>, fresh: Seq<char>)
    requires
        connect::link_answered(path, replies, fresh),
        replies.len() > 0,
    ensures
        ({
            let n = replies.len();
            let action = connect::link_next(
                connect::link_run(path, replies.drop_last(), fresh),
                replies.last(),
                fresh,
            ).1;
            &&& n <= 6
            &&& forall|i: int| 0 <= i < n - 1 ==> !(#[trigger] replies[i] is Failed)
            &&& replies.last() matches LinkReplyView::Failed(cause) ==> action
                == LinkActionView::Fail(
                if n == 2 || n == 4 || n == 5 {
                    LinkErrorView::LinkNotBound { path, cause }
                } else {
                    LinkErrorView::Io { cause }
                },
            )
            &&& !(replies.last() is Failed) ==> {
                &&& n == 1 ==> {
                    &&& action matches LinkActionView::Connect(addr)
                    &&& addresses::names(path, addr)
                }
                &&& n == 2 ==> action == LinkActionView::SetNonblocking
                &&& n == 3 ==> action == LinkActionView::LocalAddr
                &&& n == 4 ==> action == LinkActionView::PeerAddr
                &&& n == 5 ==> action == LinkActionView::Adopt
                &&& n == 6 ==> {
                    &&& action matches LinkActionView::Deliver { src_path, dst_path }
                    &&& dst_path == path
                    &&& replies[3] is Address
                    &&& addresses::shows(replies[3]->Address_0, Some(src_path)) || (
                    addresses::shows(replies[3]->Address_0, None) && src_path == fresh)
                }
            }
        }),
{
    let before = replies.drop_last();
    let s = connect::link_run(path, before, fresh);
    connect::lemma_link_progress(path, before, fresh);
    connect::lemma_link_progress(path, replies, fresh);
    assert(s.stage != LinkStage::Failed);
    if replies.len() == 1 {
        let action = connect::link_next(s, replies.last(), fresh).1;
        addresses::lemma_named(path, action->Connect_0);
    }
    if replies.len() == 6 && !(replies.last() is Failed) {
        connect::lemma_link_delivered(path, replies, fresh);
        let shown = crate::address::address_path(replies[3]->Address_0);
        addresses::lemma_shown(replies[3]->Address_0, shown);
    }
}

/// Which replies are expected: a failure at any step, an address at the fourth, and that it was
/// done at the others. After the sixth, and after a failure, none is.
pub proof fn lemma_link_replies(
    path: Seq<char>,
    replies: Seq<LinkReplyView>,
    fresh: Seq<char>,
    reply: LinkReplyView,
)
    requires
        connect::link_answered(path, replies, fresh),
    ensures
        connect::link_expects(connect::link_run(path, replies, fresh).stage, reply) <==> {
            &&& replies.len() < 6
            &&& replies.len() > 0 ==> !(replies.last() is Failed)
            &&& reply is Failed || (if replies.len() == 3 {
                reply is Address
            } else {
                reply is Done
            })
        },
{
    connect::lemma_link_progress(path, replies, fresh);
}

/// What is asked is what the state reached asks for, unless it has failed; and the path for a
/// socket without one makes no difference but to such a socket, once its peer is known.
pub proof fn lemma_link_step(
    s: NewLinkView,
    reply: LinkReplyView,
    fresh: Seq<char>,
    other: Seq<char>,
)
    ensures
        connect::link_next(s, reply, fresh).0.stage != LinkStage::Failed ==> connect::link_next(
            s,
            reply,
            fresh,
        ).1 == connect::link_request(connect::link_next(s, reply, fresh).0),
        connect::link_next(s, reply, fresh).0.path == s.path,
        s.stage != LinkStage::PeerAddr || s.local is Some ==> connect::link_next(s, reply, fresh)
            == connect::link_next(s, reply, other),
        s.stage == LinkStage::PeerAddr && reply is Done ==> connect::link_next(
            s,
            reply,
            fresh,
        ).0.local == Some(
            match s.local {
                Some(own) => own,
                None => fresh,
            },
        ),
        s.stage == LinkStage::Adopt && reply is Done && s.local is Some ==> connect::link_next(
            s,
            reply,
            fresh,
        ).1 == (LinkActionView::Deliver { src_path: s.local->0, dst_path: s.path }),
{
}

} // verus!
