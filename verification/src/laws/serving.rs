//! Laws of serving a listener: what is done after each event, in any run.

use super::addresses;
use crate::accept;
use crate::accept::{AcceptActionView, AcceptEvent, AcceptLoopView, AcceptStage};
use crate::address;
use crate::address::SocketAddrView;
use vstd::prelude::*;

verus! {

/// What a listener whose socket has the address `addr` does after each event, whatever happened
/// before. Every accepted connection becomes a link that comes from what the listener's own
/// address is shown as, and goes to `fresh`. A connection that could not be accepted makes a pause
/// of `throttle` microseconds. Cancelling ends it, and everything else leads back to accepting.
pub proof fn lemma_accept_actions(
    addr: SocketAddrView,
    src_path: Seq<char>,
    throttle: u64,
    events: Seq<AcceptEvent>,
    fresh: Seq<char>,
)
    requires
        address::address_path(addr) == Some(src_path),
        accept::accept_possible(src_path, throttle, events),
        events.len() > 0,
    ensures
        ({
            let action = accept::accept_request(
                accept::accept_next(
                    accept::accept_run(src_path, throttle, events.drop_last()),
                    events.last(),
                ),
                fresh,
            );
            &&& action == match events.last() {
                AcceptEvent::Cancelled => AcceptActionView::Stop,
                AcceptEvent::Accepted => AcceptActionView::Deliver { src_path, dst_path: fresh },
                AcceptEvent::AcceptFailed => AcceptActionView::Sleep(throttle),
                AcceptEvent::Slept => AcceptActionView::Accept,
                AcceptEvent::Sent => AcceptActionView::Accept,
                AcceptEvent::SendFailed => AcceptActionView::Accept,
            }
            &&& addresses::shows(addr, Some(src_path))
        }),
{
    addresses::lemma_shown(addr, Some(src_path));
    accept::lemma_only_cancelling_stops(src_path, throttle, events.drop_last());
}

/// What can happen: a listener that accepts is cancelled, gets a connection or fails to; a pause
/// ends; a link is taken over or not. Nothing happens to one that was cancelled.
pub proof fn lemma_accept_events(
    src_path: Seq<char>,
    throttle: u64,
    events: Seq<AcceptEvent>,
    event: AcceptEvent,
)
    requires
        accept::accept_possible(src_path, throttle, events),
    ensures
        accept::accept_expects(accept::accept_run(src_path, throttle, events).stage, event) <==> if
            events.len() == 0 {
            event is Cancelled || event is Accepted || event is AcceptFailed
        } else {
            match events.last() {
                AcceptEvent::Cancelled => false,
                AcceptEvent::Accepted => event is Sent || event is SendFailed,
                AcceptEvent::AcceptFailed => event is Slept,
                _ => event is Cancelled || event is Accepted || event is AcceptFailed,
            }
        },
{
}

/// A listener keeps its path and the length of its pauses, and what is done depends on the path of
/// the other end only where a link is delivered to it.
pub proof fn lemma_accept_step(
    s: AcceptLoopView,
    event: AcceptEvent,
    fresh: Seq<char>,
    other: Seq<char>,
)
    ensures
        accept::accept_next(s, event).src_path == s.src_path,
        accept::accept_next(s, event).throttle == s.throttle,
        s.stage != AcceptStage::Delivering ==> accept::accept_request(s, fresh)
            == accept::accept_request(s, other),
        s.stage == AcceptStage::Delivering ==> accept::accept_request(s, fresh) == (
        AcceptActionView::Deliver { src_path: s.src_path, dst_path: fresh }),
        accept::accept_start(s.src_path, s.throttle) == (AcceptLoopView {
            src_path: s.src_path,
            throttle: s.throttle,
            stage: AcceptStage::Waiting,
        }),
{
}

} // verus!
