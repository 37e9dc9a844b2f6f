//! Serving a listener: links are accepted until the listener is told to stop.

use crate::address;
use crate::address::SocketAddr;
use crate::error::{LinkError, LinkErrorView};
use crate::identity;
use vstd::prelude::*;

verus! {

/// What the listener waits for, or that it ended.
#[derive(Clone, Copy, PartialEq, Eq, Structural)]
pub enum AcceptStage {
    /// A connection, or to be told to stop.
    Waiting,
    /// The end of a pause.
    Throttled,
    /// A link to be taken over.
    Delivering,
    /// Nothing: it was told to stop.
    Stopped,
}

/// What happened.
#[derive(Clone, Copy, PartialEq, Eq, Structural)]
pub enum AcceptEvent {
    /// The listener was told to stop.
    Cancelled,
    /// A connection was accepted.
    Accepted,
    /// A connection could not be accepted.
    AcceptFailed,
    /// The pause is over.
    Slept,
    /// The link was taken over.
    Sent,
    /// There was nobody to take the link over.
    SendFailed,
}

/// What to do next.
pub enum AcceptAction {
    /// Wait for a connection, or to be told to stop.
    Accept,
    /// Pause for this many microseconds.
    Sleep(u64),
    /// Make a link over the accepted socket, from one path to the other, and hand it over.
    Deliver { src_path: String, dst_path: String },
    /// End.
    Stop,
}

/// An `AcceptAction` as a value.
pub enum AcceptActionView {
    Accept,
    Sleep(u64),
    Deliver { src_path: Seq<char>, dst_path: Seq<char> },
    Stop,
}

impl View for AcceptAction {
    type V = AcceptActionView;

    open spec fn view(&self) -> AcceptActionView {
        match *self {
            AcceptAction::Accept => AcceptActionView::Accept,
            AcceptAction::Sleep(micros) => AcceptActionView::Sleep(micros),
            AcceptAction::Deliver { src_path, dst_path } => AcceptActionView::Deliver {
                src_path: src_path@,
                dst_path: dst_path@,
            },
            AcceptAction::Stop => AcceptActionView::Stop,
        }
    }
}

/// A listener in service, as a value: its path, how many microseconds it waits after a connection
/// could not be accepted, and what it waits for.
pub struct AcceptLoopView {
    pub src_path: Seq<char>,
    pub throttle: u64,
    pub stage: AcceptStage,
}

/// What can happen at `stage`.
pub open spec fn accept_expects(stage: AcceptStage, event: AcceptEvent) -> bool {
    match stage {
        AcceptStage::Waiting => event is Cancelled || event is Accepted || event is AcceptFailed,
        AcceptStage::Throttled => event is Slept,
        AcceptStage::Delivering => event is Sent || event is SendFailed,
        AcceptStage::Stopped => false,
    }
}

/// The stage after `event`.
pub open spec fn accept_after(event: AcceptEvent) -> AcceptStage {
    match event {
        AcceptEvent::Cancelled => AcceptStage::Stopped,
        AcceptEvent::Accepted => AcceptStage::Delivering,
        AcceptEvent::AcceptFailed => AcceptStage::Throttled,
        _ => AcceptStage::Waiting,
    }
}

/// What to do in state `s`. The other end of a link goes by `fresh`: it has no path of its own.
pub open spec fn accept_request(s: AcceptLoopView, fresh: Seq<char>) -> AcceptActionView {
    match s.stage {
        AcceptStage::Waiting => AcceptActionView::Accept,
        AcceptStage::Throttled => AcceptActionView::Sleep(s.throttle),
        AcceptStage::Delivering => AcceptActionView::Deliver {
            src_path: s.src_path,
            dst_path: fresh,
        },
        AcceptStage::Stopped => AcceptActionView::Stop,
    }
}

/// The state that the listener on `src_path` starts in.
pub open spec fn accept_start(src_path: Seq<char>, throttle: u64) -> AcceptLoopView {
    AcceptLoopView { src_path, throttle, stage: AcceptStage::Waiting }
}

/// The state after `event`.
pub open spec fn accept_next(s: AcceptLoopView, event: AcceptEvent) -> AcceptLoopView {
    AcceptLoopView { stage: accept_after(event), ..s }
}

/// A listener in service.
pub struct AcceptLoop {
    src_path: String,
    throttle: u64,
    stage: AcceptStage,
}

impl View for AcceptLoop {
    type V = AcceptLoopView;

    closed spec fn view(&self) -> AcceptLoopView {
        AcceptLoopView { src_path: self.src_path@, throttle: self.throttle, stage: self.stage }
    }
}

impl AcceptLoop {
    /// Starts to serve a socket, given what it told of its own address and how that address is
    /// shown, and tells what to do first. After a connection could not be accepted, most often
    /// because the process has as many files open as the system allows, the listener waits for
    /// `throttle` microseconds.
    pub fn start(
        local_addr: Result<SocketAddr, String>,
        shown: String,
        throttle: u64,
    ) -> (started: Result<(AcceptLoop, AcceptAction), LinkError>)
        ensures
            match local_addr {
                Ok(addr) => match address::address_path(addr@) {
                    Some(src_path) => {
                        &&& started matches Ok(r)
                        &&& r.0@ == accept_start(src_path, throttle)
                        &&& r.1@ == AcceptActionView::Accept
                    },
                    None => {
                        &&& started matches Err(e)
                        &&& e@ == (LinkErrorView::LinkUnaddressed { address: shown@ })
                    },
                },
                Err(cause) => {
                    &&& started matches Err(e)
                    &&& e@ == (LinkErrorView::Io { cause: cause@ })
                },
            },
    {
        match local_addr {
            Ok(addr) => match address::tokio_socket_addr_to_string(&addr) {
                Some(src_path) => Ok(
                    (
                        AcceptLoop { src_path, throttle, stage: AcceptStage::Waiting },
                        AcceptAction::Accept,
                    ),
                ),
                None => Err(LinkError::LinkUnaddressed { address: shown }),
            },
            Err(cause) => Err(LinkError::Io { cause }),
        }
    }

    /// The path of the listener.
    pub fn get_path(&self) -> (path: &str)
        ensures
            path@ == self@.src_path,
    {
        self.src_path.as_str()
    }

    /// Tells whether `event` can happen now.
    pub fn expects(&self, event: AcceptEvent) -> (answer: bool)
        ensures
            answer == accept_expects(self@.stage, event),
    {
        match (self.stage, event) {
            (AcceptStage::Waiting, AcceptEvent::Cancelled) => true,
            (AcceptStage::Waiting, AcceptEvent::Accepted) => true,
            (AcceptStage::Waiting, AcceptEvent::AcceptFailed) => true,
            (AcceptStage::Throttled, AcceptEvent::Slept) => true,
            (AcceptStage::Delivering, AcceptEvent::Sent) => true,
            (AcceptStage::Delivering, AcceptEvent::SendFailed) => true,
            _ => false,
        }
    }

    /// Takes what happened and tells what to do next, with `fresh` as the path of the other end
    /// of an accepted link.
    pub fn step_with(&mut self, event: AcceptEvent, fresh: String) -> (action: AcceptAction)
        requires
            accept_expects(old(self)@.stage, event),
        ensures
            final(self)@ == accept_next(old(self)@, event),
            action@ == accept_request(accept_next(old(self)@, event), fresh@),
    {
        match event {
            AcceptEvent::Cancelled => {
                self.stage = AcceptStage::Stopped;
                AcceptAction::Stop
            },
            AcceptEvent::Accepted => {
                self.stage = AcceptStage::Delivering;
                AcceptAction::Deliver { src_path: self.src_path.clone(), dst_path: fresh }
            },
            AcceptEvent::AcceptFailed => {
                self.stage = AcceptStage::Throttled;
                AcceptAction::Sleep(self.throttle)
            },
            _ => {
                self.stage = AcceptStage::Waiting;
                AcceptAction::Accept
            },
        }
    }

    /// Takes what happened and tells what to do next. The other end of an accepted link gets a
    /// random UUID for a path.
    pub fn step(&mut self, event: AcceptEvent) -> (action: AcceptAction)
        requires
            accept_expects(old(self)@.stage, event),
        ensures
            final(self)@ == accept_next(old(self)@, event),
            exists|fresh: Seq<char>|
                {
                    &&& event is Accepted ==> identity::is_random_uuid(fresh)
                    &&& action@ == #[trigger] accept_request(
                        accept_next(old(self)@, event),
                        fresh,
                    )
                },
    {
        let fresh: String = match event {
            AcceptEvent::Accepted => identity::random_uuid(),
            _ => String::new(),
        };
        self.step_with(event, fresh)
    }
}

/// The state of the listener on `src_path` after `events`.
pub open spec fn accept_run(
    src_path: Seq<char>,
    throttle: u64,
    events: Seq<AcceptEvent>,
) -> AcceptLoopView
    decreases events.len(),
{
    if events.len() == 0 {
        accept_start(src_path, throttle)
    } else {
        accept_next(accept_run(src_path, throttle, events.drop_last()), events.last())
    }
}

/// Every one of `events` can happen after those before it.
pub open spec fn accept_possible(
    src_path: Seq<char>,
    throttle: u64,
    events: Seq<AcceptEvent>,
) -> bool
    decreases events.len(),
{
    events.len() > 0 ==> {
        &&& accept_possible(src_path, throttle, events.drop_last())
        &&& accept_expects(accept_run(src_path, throttle, events.drop_last()).stage, events.last())
    }
}

/// A listener in service ends when it is told to, and for no other reason: neither a connection
/// that cannot be accepted nor a link that nobody takes ends it. Its path and the length of its
/// pauses never change.
pub proof fn lemma_only_cancelling_stops(
    src_path: Seq<char>,
    throttle: u64,
    events: Seq<AcceptEvent>,
)
    requires
        accept_possible(src_path, throttle, events),
    ensures
        accept_run(src_path, throttle, events).src_path == src_path,
        accept_run(src_path, throttle, events).throttle == throttle,
        accept_run(src_path, throttle, events).stage == AcceptStage::Stopped <==> events.contains(
            AcceptEvent::Cancelled,
        ),
        accept_run(src_path, throttle, events).stage == AcceptStage::Stopped ==> events.last()
            is Cancelled,
    decreases events.len(),
{
    if events.len() > 0 {
        let before = events.drop_last();
        lemma_only_cancelling_stops(src_path, throttle, before);
        if events.last() is Cancelled {
            assert(events[events.len() - 1] is Cancelled);
        } else {
            assert forall|i: int| 0 <= i < events.len() implies events[i]
                != AcceptEvent::Cancelled by {
                if i < before.len() {
                    assert(before[i] == events[i]);
                    assert(before.contains(before[i]));
                }
            }
        }
    }
}

/// Nothing happens to a listener that has stopped.
pub proof fn lemma_nothing_after_stopping(
    src_path: Seq<char>,
    throttle: u64,
    events: Seq<AcceptEvent>,
    more: Seq<AcceptEvent>,
)
    requires
        accept_run(src_path, throttle, events).stage == AcceptStage::Stopped,
        accept_possible(src_path, throttle, events + more),
    ensures
        more.len() == 0,
    decreases more.len(),
{
    if more.len() > 0 {
        let fewer = more.drop_last();
        assert((events + more).drop_last() =~= events + fewer);
        lemma_nothing_after_stopping(src_path, throttle, events, fewer);
        assert(events + fewer =~= events);
    }
}

/// How many of `events` are `event`.
pub open spec fn occurrences(events: Seq<AcceptEvent>, event: AcceptEvent) -> int
    decreases events.len(),
{
    if events.len() == 0 {
        0
    } else {
        occurrences(events.drop_last(), event) + if events.last() == event { 1int } else { 0int }
    }
}

/// Every accepted connection becomes one link that is handed over, whether or not it is taken;
/// at most the last one is still being handed over.
pub proof fn lemma_every_connection_is_delivered(
    src_path: Seq<char>,
    throttle: u64,
    events: Seq<AcceptEvent>,
)
    requires
        accept_possible(src_path, throttle, events),
    ensures
        occurrences(events, AcceptEvent::Accepted) == occurrences(events, AcceptEvent::Sent)
            + occurrences(events, AcceptEvent::SendFailed) + if accept_run(
            src_path,
            throttle,
            events,
        ).stage == AcceptStage::Delivering {
            1int
        } else {
            0int
        },
    decreases events.len(),
{
    if events.len() > 0 {
        lemma_every_connection_is_delivered(src_path, throttle, events.drop_last());
    }
}

} // verus!
