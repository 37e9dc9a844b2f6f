//! Connecting a link: what is asked of the system, step by step, and what its replies lead to.

use crate::address;
use crate::address::{SocketAddr, SocketAddrView};
use crate::error::{LinkError, LinkErrorView};
use crate::identity;
use vstd::prelude::*;

verus! {

/// What the connection waits for, or how it ended.
#[derive(Clone, Copy, PartialEq, Eq, Structural)]
pub enum LinkStage {
    /// The system takes the address that the path names.
    Resolve,
    /// A socket is connected to it.
    Connect,
    /// The socket is set not to block.
    SetNonblocking,
    /// The socket tells its own address.
    LocalAddr,
    /// The socket tells the address of its peer.
    PeerAddr,
    /// The socket is handed to the runtime.
    Adopt,
    /// The link was made.
    Delivered,
    /// The link could not be made.
    Failed,
}

/// The reply to what was asked last.
pub enum LinkReply {
    /// It was done.
    Done,
    /// It was done and gave this address.
    Address(SocketAddr),
    /// It failed for this cause.
    Failed(String),
}

/// A `LinkReply` as a value.
pub enum LinkReplyView {
    Done,
    Address(SocketAddrView),
    Failed(Seq<char>),
}

impl View for LinkReply {
    type V = LinkReplyView;

    open spec fn view(&self) -> LinkReplyView {
        match *self {
            LinkReply::Done => LinkReplyView::Done,
            LinkReply::Address(address) => LinkReplyView::Address(address@),
            LinkReply::Failed(cause) => LinkReplyView::Failed(cause@),
        }
    }
}

/// What is asked next, or how the connection ended.
pub enum LinkAction {
    /// Make a socket address of this one.
    Resolve(SocketAddr),
    /// Connect a socket to this address.
    Connect(SocketAddr),
    /// Set the socket not to block.
    SetNonblocking,
    /// Ask the socket for its own address.
    LocalAddr,
    /// Ask the socket for the address of its peer.
    PeerAddr,
    /// Hand the socket to the runtime.
    Adopt,
    /// Make a link over the socket, from one path to the other.
    Deliver { src_path: String, dst_path: String },
    /// Give up with this error.
    Fail(LinkError),
}

/// A `LinkAction` as a value.
pub enum LinkActionView {
    Resolve(SocketAddrView),
    Connect(SocketAddrView),
    SetNonblocking,
    LocalAddr,
    PeerAddr,
    Adopt,
    Deliver { src_path: Seq<char>, dst_path: Seq<char> },
    Fail(LinkErrorView),
}

impl View for LinkAction {
    type V = LinkActionView;

    open spec fn view(&self) -> LinkActionView {
        match *self {
            LinkAction::Resolve(address) => LinkActionView::Resolve(address@),
            LinkAction::Connect(address) => LinkActionView::Connect(address@),
            LinkAction::SetNonblocking => LinkActionView::SetNonblocking,
            LinkAction::LocalAddr => LinkActionView::LocalAddr,
            LinkAction::PeerAddr => LinkActionView::PeerAddr,
            LinkAction::Adopt => LinkActionView::Adopt,
            LinkAction::Deliver { src_path, dst_path } => LinkActionView::Deliver {
                src_path: src_path@,
                dst_path: dst_path@,
            },
            LinkAction::Fail(error) => LinkActionView::Fail(error@),
        }
    }
}

/// A link that is being connected, as a value: the path it goes to, what it waits for, and the
/// path of its own end once that is known.
pub struct NewLinkView {
    pub path: Seq<char>,
    pub stage: LinkStage,
    pub local: Option<Seq<char>>,
}

/// The stage after `stage`, where what was asked is done.
pub open spec fn link_after(stage: LinkStage) -> LinkStage {
    match stage {
        LinkStage::Resolve => LinkStage::Connect,
        LinkStage::Connect => LinkStage::SetNonblocking,
        LinkStage::SetNonblocking => LinkStage::LocalAddr,
        LinkStage::LocalAddr => LinkStage::PeerAddr,
        LinkStage::PeerAddr => LinkStage::Adopt,
        LinkStage::Adopt => LinkStage::Delivered,
        _ => stage,
    }
}

/// The replies that `stage` can get.
pub open spec fn link_expects(stage: LinkStage, reply: LinkReplyView) -> bool {
    match stage {
        LinkStage::Delivered => false,
        LinkStage::Failed => false,
        LinkStage::LocalAddr => !(reply is Done),
        _ => !(reply is Address),
    }
}

/// The error that a failure at `stage` ends in. The steps that reach for the other end say which
/// link could not be made; the others only repeat the cause.
pub open spec fn link_failure(
    stage: LinkStage,
    path: Seq<char>,
    cause: Seq<char>,
) -> LinkErrorView {
    match stage {
        LinkStage::Connect | LinkStage::LocalAddr | LinkStage::PeerAddr
            => LinkErrorView::LinkNotBound { path, cause },
        _ => LinkErrorView::Io { cause },
    }
}

/// What the connection asks for in state `s`, if it has not failed.
pub open spec fn link_request(s: NewLinkView) -> LinkActionView
    recommends
        s.stage != LinkStage::Failed,
{
    match s.stage {
        LinkStage::Resolve => LinkActionView::Resolve(address::named_address(s.path)),
        LinkStage::Connect => LinkActionView::Connect(address::named_address(s.path)),
        LinkStage::SetNonblocking => LinkActionView::SetNonblocking,
        LinkStage::LocalAddr => LinkActionView::LocalAddr,
        LinkStage::PeerAddr => LinkActionView::PeerAddr,
        LinkStage::Adopt => LinkActionView::Adopt,
        _ => LinkActionView::Deliver { src_path: s.local->0, dst_path: s.path },
    }
}

/// The state that a connection to `path` starts in.
pub open spec fn link_start(path: Seq<char>) -> NewLinkView {
    NewLinkView { path, stage: LinkStage::Resolve, local: None }
}

/// The state after `reply`, and what is asked then. A socket whose address has no path gets
/// `fresh` for one.
pub open spec fn link_next(
    s: NewLinkView,
    reply: LinkReplyView,
    fresh: Seq<char>,
) -> (NewLinkView, LinkActionView) {
    if reply is Failed {
        (
            NewLinkView { stage: LinkStage::Failed, ..s },
            LinkActionView::Fail(link_failure(s.stage, s.path, reply->Failed_0)),
        )
    } else {
        let local = if reply is Address {
            address::address_path(reply->Address_0)
        } else if s.stage == LinkStage::PeerAddr && s.local is None {
            Some(fresh)
        } else {
            s.local
        };
        let next = NewLinkView { stage: link_after(s.stage), local, ..s };
        (next, link_request(next))
    }
}

/// A link that is being connected.
pub struct NewLink {
    path: String,
    stage: LinkStage,
    local: Option<String>,
}

impl View for NewLink {
    type V = NewLinkView;

    closed spec fn view(&self) -> NewLinkView {
        NewLinkView {
            path: self.path@,
            stage: self.stage,
            local: match self.local {
                Some(path) => Some(path@),
                None => None,
            },
        }
    }
}

impl NewLink {
    #[verifier::type_invariant]
    closed spec fn inv(self) -> bool {
        self.stage == LinkStage::Adopt || self.stage == LinkStage::Delivered ==> self.local is Some
    }

    /// Starts to connect a link to `path`, and tells what to do first. An address that the system
    /// cannot hold is refused: nothing is ever connected to it.
    pub fn start(path: String, abstract_names: bool, capacity: usize) -> (started: Result<
        (NewLink, LinkAction),
        LinkError,
    >)
        ensures
            started is Err <==> address::is_abstract(path@) && !abstract_names
                || !address::system_holds(address::named_address(path@), capacity as nat),
            started matches Ok(r) ==> {
                &&& r.0@ == link_start(path@)
                &&& r.1@ == link_request(link_start(path@))
            },
            started matches Err(e) ==> e@ == address::address_refusal(path@, abstract_names),
    {
        match address::to_socket_addr(path.as_str(), abstract_names, capacity) {
            Ok((addr, _)) => Ok(
                (
                    NewLink { path, stage: LinkStage::Resolve, local: None },
                    LinkAction::Resolve(addr),
                ),
            ),
            Err(e) => Err(e),
        }
    }

    /// Tells whether `reply` can answer what was asked last.
    pub fn expects(&self, reply: &LinkReply) -> (answer: bool)
        ensures
            answer == link_expects(self@.stage, reply@),
    {
        match self.stage {
            LinkStage::Delivered => false,
            LinkStage::Failed => false,
            LinkStage::LocalAddr => match reply {
                LinkReply::Done => false,
                _ => true,
            },
            _ => match reply {
                LinkReply::Address(_) => false,
                _ => true,
            },
        }
    }

    /// Takes the reply to what was asked last and tells what to do next, with `fresh` as the
    /// path of a socket whose address has none.
    pub fn step_with(self, reply: LinkReply, fresh: String) -> (next: (NewLink, LinkAction))
        requires
            link_expects(self@.stage, reply@),
        ensures
            (next.0@, next.1@) == link_next(self@, reply@, fresh@),
    {
        proof {
            use_type_invariant(&self);
        }
        let NewLink { path, stage, local } = self;
        match reply {
            LinkReply::Failed(cause) => {
                let error = match stage {
                    LinkStage::Connect | LinkStage::LocalAddr | LinkStage::PeerAddr
                        => LinkError::LinkNotBound { path: path.clone(), cause },
                    _ => LinkError::Io { cause },
                };
                (NewLink { path, stage: LinkStage::Failed, local }, LinkAction::Fail(error))
            },
            LinkReply::Address(addr) => {
                let local = address::socket_addr_to_string(&addr);
                (NewLink { path, stage: LinkStage::PeerAddr, local }, LinkAction::PeerAddr)
            },
            LinkReply::Done => match stage {
                LinkStage::Resolve => {
                    let addr: SocketAddr = address::address_named(path.as_str());
                    (
                        NewLink { path, stage: LinkStage::Connect, local },
                        LinkAction::Connect(addr),
                    )
                },
                LinkStage::Connect => (
                    NewLink { path, stage: LinkStage::SetNonblocking, local },
                    LinkAction::SetNonblocking,
                ),
                LinkStage::SetNonblocking => (
                    NewLink { path, stage: LinkStage::LocalAddr, local },
                    LinkAction::LocalAddr,
                ),
                LinkStage::PeerAddr => {
                    let local = match local {
                        Some(p) => Some(p),
                        None => Some(fresh),
                    };
                    (NewLink { path, stage: LinkStage::Adopt, local }, LinkAction::Adopt)
                },
                _ => {
                    let src_path = match &local {
                        Some(p) => p.clone(),
                        None => fresh,
                    };
                    let dst_path = path.clone();
                    (
                        NewLink { path, stage: LinkStage::Delivered, local },
                        LinkAction::Deliver { src_path, dst_path },
                    )
                },
            },
        }
    }

    /// Takes the reply to what was asked last and tells what to do next. A socket whose address
    /// has no path gets a random UUID for one.
    pub fn step(self, reply: LinkReply) -> (next: (NewLink, LinkAction))
        requires
            link_expects(self@.stage, reply@),
        ensures
            exists|fresh: Seq<char>|
                {
                    &&& self@.stage == LinkStage::PeerAddr && self@.local is None
                        ==> identity::is_random_uuid(fresh)
                    &&& (next.0@, next.1@) == #[trigger] link_next(self@, reply@, fresh)
                },
    {
        let unnamed: bool = match (self.stage, &self.local) {
            (LinkStage::PeerAddr, None) => true,
            _ => false,
        };
        let fresh: String = if unnamed { identity::random_uuid() } else { String::new() };
        self.step_with(reply, fresh)
    }
}

/// The state of a connection to `path` after `replies`.
pub open spec fn link_run(
    path: Seq<char>,
    replies: Seq<LinkReplyView>,
    fresh: Seq<char>,
) -> NewLinkView
    decreases replies.len(),
{
    if replies.len() == 0 {
        link_start(path)
    } else {
        link_next(link_run(path, replies.drop_last(), fresh), replies.last(), fresh).0
    }
}

/// Every one of `replies` answers what was asked before it.
pub open spec fn link_answered(
    path: Seq<char>,
    replies: Seq<LinkReplyView>,
    fresh: Seq<char>,
) -> bool
    decreases replies.len(),
{
    replies.len() > 0 ==> {
        &&& link_answered(path, replies.drop_last(), fresh)
        &&& link_expects(link_run(path, replies.drop_last(), fresh).stage, replies.last())
    }
}

/// How many steps lead to `stage`, of those that do not end in failure.
pub open spec fn link_steps(stage: LinkStage) -> int {
    match stage {
        LinkStage::Resolve => 0,
        LinkStage::Connect => 1,
        LinkStage::SetNonblocking => 2,
        LinkStage::LocalAddr => 3,
        LinkStage::PeerAddr => 4,
        LinkStage::Adopt => 5,
        _ => 6,
    }
}

/// A connection goes through its steps one by one, in their order, for as long as each is done.
/// The first that fails ends it.
pub proof fn lemma_link_progress(path: Seq<char>, replies: Seq<LinkReplyView>, fresh: Seq<char>)
    requires
        link_answered(path, replies, fresh),
    ensures
        link_run(path, replies, fresh).path == path,
        link_run(path, replies, fresh).stage != LinkStage::Failed ==> {
            &&& link_steps(link_run(path, replies, fresh).stage) == replies.len()
            &&& forall|i: int| 0 <= i < replies.len() ==> !(#[trigger] replies[i] is Failed)
        },
        link_run(path, replies, fresh).stage == LinkStage::Failed ==> {
            &&& 0 < replies.len() <= 6
            &&& replies.last() is Failed
            &&& forall|i: int| 0 <= i < replies.len() - 1 ==> !(#[trigger] replies[i] is Failed)
        },
    decreases replies.len(),
{
    if replies.len() > 0 {
        let before = replies.drop_last();
        lemma_link_progress(path, before, fresh);
        assert forall|i: int| 0 <= i < replies.len() - 1 implies !(#[trigger] replies[i]
            is Failed) by {
            assert(replies[i] == before[i]);
        }
    }
}

/// A link is delivered when all six steps were done, and not otherwise. It then goes to the path
/// that was asked for, and comes from the path of its own socket or, where that has none, from
/// the fresh one.
pub proof fn lemma_link_delivered(path: Seq<char>, replies: Seq<LinkReplyView>, fresh: Seq<char>)
    requires
        link_answered(path, replies, fresh),
    ensures
        link_run(path, replies, fresh).stage == LinkStage::Delivered <==> {
            &&& replies.len() == 6
            &&& forall|i: int| 0 <= i < 6 ==> !(#[trigger] replies[i] is Failed)
        },
        link_run(path, replies, fresh).stage == LinkStage::Delivered ==> {
            &&& replies[3] is Address
            &&& link_request(link_run(path, replies, fresh)) == (LinkActionView::Deliver {
                src_path: match address::address_path(replies[3]->Address_0) {
                    Some(own) => own,
                    None => fresh,
                },
                dst_path: path,
            })
        },
{
    lemma_link_progress(path, replies, fresh);
    if link_run(path, replies, fresh).stage == LinkStage::Delivered {
        reveal_with_fuel(link_run, 7);
        reveal_with_fuel(link_answered, 7);
        let r5 = replies.drop_last();
        let r4 = r5.drop_last();
        let r3 = r4.drop_last();
        assert(r5.last() == replies[4]);
        assert(r4.last() == replies[3]);
        lemma_link_progress(path, r5, fresh);
        lemma_link_progress(path, r4, fresh);
        lemma_link_progress(path, r3, fresh);
    }
}

} // verus!
