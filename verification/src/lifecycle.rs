//! What holds of a listener from its opening to its end: laws that join the steps of opening it,
//! keeping it, serving it and taking it down.

use crate::accept;
use crate::accept::{AcceptEvent, AcceptStage};
use crate::address;
use crate::endpoint;
use crate::error::LinkErrorView;
use crate::listen;
use crate::listen::{ListenActionView, ListenReplyView, ListenStage, NewListenerView};
use crate::manager;
use crate::manager::ListenerUnixSocketStream;
use crate::release;
use crate::release::{ReleaseActionView, ReleaseReplyView, ReleaseStage};
use vstd::prelude::*;

verus! {

/// The listeners in service once opening one has come to `s`: `listener` joins them when it is
/// registered, and not otherwise.
pub open spec fn in_service<L, F>(
    listeners: Map<Seq<char>, L>,
    s: NewListenerView<F>,
    listener: L,
) -> Map<Seq<char>, L> {
    if s.stage == ListenStage::Registered {
        listeners.insert(s.local->0, listener)
    } else {
        listeners
    }
}

/// What can happen to the listeners in service.
pub enum Change<T, J, F> {
    /// Opening a listener on `endpoint` got `replies`; `listener` is kept where it is registered.
    Opening {
        endpoint: Seq<char>,
        replies: Seq<ListenReplyView<F>>,
        listener: ListenerUnixSocketStream<T, J, F>,
    },
    /// The listener on `path`, if there is one, is taken out of service.
    TakingOut { path: Seq<char> },
}

/// The listeners after `change`.
pub open spec fn changed<T, J, F>(
    listeners: Map<Seq<char>, ListenerUnixSocketStream<T, J, F>>,
    change: Change<T, J, F>,
) -> Map<Seq<char>, ListenerUnixSocketStream<T, J, F>> {
    match change {
        Change::Opening { endpoint, replies, listener } => in_service(
            listeners,
            listen::listen_run(endpoint, replies),
            listener,
        ),
        Change::TakingOut { path } => listeners.remove(path),
    }
}

/// A change as it is made: the replies answer what was asked, and a listener that is registered
/// is kept with the endpoint that was made for it. The path of its socket holds no `?` and no
/// `#`.
pub open spec fn is_made<T, J, F>(change: Change<T, J, F>) -> bool {
    match change {
        Change::Opening { endpoint, replies, listener } => {
            let s = listen::listen_run(endpoint, replies);
            &&& endpoint::is_endpoint(endpoint)
            &&& listen::listen_answered(endpoint, replies)
            &&& s.stage == ListenStage::Registered ==> {
                &&& listener.endpoint@ == s.endpoint_at(s.local->0)
                &&& !s.local->0.contains('?') && !s.local->0.contains('#')
            }
        },
        Change::TakingOut { .. } => true,
    }
}

/// The listeners of a new manager after `changes`.
pub open spec fn listeners_after<T, J, F>(changes: Seq<Change<T, J, F>>) -> Map<
    Seq<char>,
    ListenerUnixSocketStream<T, J, F>,
>
    decreases changes.len(),
{
    if changes.len() == 0 {
        Map::empty()
    } else {
        changed(listeners_after(changes.drop_last()), changes.last())
    }
}

/// Every listener stands under the address of its own endpoint.
pub open spec fn under_own_addresses<T, J, F>(
    listeners: Map<Seq<char>, ListenerUnixSocketStream<T, J, F>>,
) -> bool {
    forall|path: Seq<char>| #[trigger]
        listeners.contains_key(path) ==> endpoint::address_of(listeners[path].endpoint@) == path
}

/// Opening a listener and taking one out of service leave every listener under the address of its
/// own endpoint.
pub proof fn lemma_change_keeps_own_addresses<T, J, F>(
    listeners: Map<Seq<char>, ListenerUnixSocketStream<T, J, F>>,
    change: Change<T, J, F>,
)
    requires
        under_own_addresses(listeners),
        is_made(change),
    ensures
        under_own_addresses(changed(listeners, change)),
{
    if let Change::Opening { endpoint, replies, listener } = change {
        let s = listen::listen_run(endpoint, replies);
        if s.stage == ListenStage::Registered {
            listen::lemma_listen_progress(endpoint, replies);
            listen::lemma_registered(endpoint, replies);
            listen::lemma_endpoint_at(s, s.local->0);
        }
    }
    assert forall|path: Seq<char>| #[trigger]
        changed(listeners, change).contains_key(path) implies endpoint::address_of(
        changed(listeners, change)[path].endpoint@,
    ) == path by {
        assert(listeners.contains_key(path) ==> endpoint::address_of(listeners[path].endpoint@)
            == path);
    }
}

/// Whatever was opened and taken out of service before, every listener stands under the address
/// of its own endpoint. So no two endpoints that are told have one address, and deleting the
/// listener on an endpoint that is told finds the listener that it was told of.
pub proof fn lemma_told_endpoints_are_found<T, J, F>(changes: Seq<Change<T, J, F>>)
    requires
        forall|i: int| 0 <= i < changes.len() ==> is_made(#[trigger] changes[i]),
    ensures
        under_own_addresses(listeners_after(changes)),
        forall|path: Seq<char>| #[trigger]
            listeners_after(changes).contains_key(path) ==> {
                let told = listeners_after(changes)[path].endpoint@;
                &&& listeners_after(changes).contains_key(endpoint::address_of(told))
                &&& listeners_after(changes)[endpoint::address_of(told)] == listeners_after(
                    changes,
                )[path]
            },
        forall|a: Seq<char>, b: Seq<char>|
            #![trigger listeners_after(changes)[a], listeners_after(changes)[b]]
            listeners_after(changes).contains_key(a) && listeners_after(changes).contains_key(b)
                && a != b ==> endpoint::address_of(listeners_after(changes)[a].endpoint@)
                != endpoint::address_of(listeners_after(changes)[b].endpoint@),
    decreases changes.len(),
{
    if changes.len() > 0 {
        let before = changes.drop_last();
        assert forall|i: int| 0 <= i < before.len() implies is_made(#[trigger] before[i]) by {
            assert(before[i] == changes[i]);
        }
        lemma_told_endpoints_are_found(before);
        assert(is_made(changes[changes.len() - 1]));
        lemma_change_keeps_own_addresses(listeners_after(before), changes.last());
    }
}

/// While a listener holds the lock of its file, no second one comes to be on that file. Both open
/// the same lock file. The system does not grant the second a lock that the first holds, so it
/// never removes the socket file nor binds a socket; once it has asked for the lock it has
/// failed. It does not join the listeners in service of any manager, and leaves those as they
/// are.
pub proof fn lemma_second_listener_fails<L, F>(
    first: Seq<char>,
    first_replies: Seq<ListenReplyView<F>>,
    second: Seq<char>,
    replies: Seq<ListenReplyView<F>>,
    listeners: Map<Seq<char>, L>,
    listener: L,
)
    requires
        listen::listen_answered(first, first_replies),
        listen::listen_run(first, first_replies).stage == ListenStage::Registered,
        listen::listen_answered(second, replies),
        endpoint::address_of(second) == endpoint::address_of(first),
        !address::is_abstract(endpoint::address_of(first)),
        replies.len() >= 3 ==> !(replies[2] is Done),
    ensures
        listen::lock_secured(first_replies),
        ({
            let path = endpoint::address_of(first);
            let holder = listen::listen_run(first, first_replies);
            let s = listen::listen_run(second, replies);
            let opening = ListenActionView::OpenLockFile(listen::lock_file_path(path));
            &&& listen::listen_request(
                NewListenerView { stage: ListenStage::OpenLockFile, ..holder },
            ) == opening
            &&& listen::listen_request(NewListenerView { stage: ListenStage::OpenLockFile, ..s })
                == opening
            &&& match s.stage {
                ListenStage::Resolve
                | ListenStage::OpenLockFile
                | ListenStage::TryLock
                | ListenStage::Failed => true,
                _ => false,
            }
            &&& replies.len() >= 3 ==> s.stage == ListenStage::Failed
            &&& replies.len() == 3 && replies[2] is WouldBlock ==> listen::listen_next(
                listen::listen_run(second, replies.drop_last()),
                replies.last(),
            ).1 == ListenActionView::Fail(LinkErrorView::LockHeld { path })
            &&& in_service(listeners, s, listener) == listeners
        }),
{
    listen::lemma_socket_file_needs_the_lock(first, first_replies);
    listen::lemma_listen_progress(first, first_replies);
    listen::lemma_listen_progress(second, replies);
    listen::lemma_lock_not_secured_ends_listener(second, replies);
    if replies.len() == 3 {
        listen::lemma_listen_progress(second, replies.drop_last());
    }
}

/// Opening a listener that fails, before or after the lock was granted, leaves nothing behind that
/// could hold the lock: no lock file is kept open for it, it is not put in service with one, and
/// nothing can follow that would change this. The listeners in service, and what is told of them,
/// stay as they are.
pub proof fn lemma_failed_opening_holds_no_lock<T, J, F>(
    listeners: Map<Seq<char>, ListenerUnixSocketStream<T, J, F>>,
    listener: ListenerUnixSocketStream<T, J, F>,
    endpoint: Seq<char>,
    replies: Seq<ListenReplyView<F>>,
)
    requires
        listen::listen_answered(endpoint, replies),
        listen::listen_run(endpoint, replies).stage == ListenStage::Failed,
    ensures
        listen::listen_run(endpoint, replies).lock_file is None,
        in_service(listeners, listen::listen_run(endpoint, replies), listener) == listeners,
        forall|more: Seq<ListenReplyView<F>>| #[trigger]
            listen::listen_answered(endpoint, replies + more) ==> more.len() == 0,
{
    listen::lemma_lock_file_kept(endpoint, replies);
    assert forall|more: Seq<ListenReplyView<F>>| #[trigger]
        listen::listen_answered(endpoint, replies + more) implies more.len() == 0 by {
        listen::lemma_failed_listener_is_over(endpoint, replies, more);
    }
}

/// Opening a listener and taking it down again leaves the listeners in service, and the endpoints
/// that are told, as they were. The listener is found under the endpoint that was asked for;
/// where it ends well and nobody is lost, it is taken down to the end. If it is on a file, its
/// socket file and its lock file are removed, in this order, and its lock is released then. That
/// the listener takes itself out of service as it ends makes no difference.
pub proof fn lemma_open_then_take_down<T, J, F>(
    listeners: Map<Seq<char>, ListenerUnixSocketStream<T, J, F>>,
    listener: ListenerUnixSocketStream<T, J, F>,
    endpoint: Seq<char>,
    replies: Seq<ListenReplyView<F>>,
    down: Seq<ReleaseReplyView>,
)
    requires
        endpoint::is_endpoint(endpoint),
        !listeners.contains_key(endpoint::address_of(endpoint)),
        listen::listen_answered(endpoint, replies),
        listen::listen_run(endpoint, replies).stage == ListenStage::Registered,
        replies[replies.len() - 2] == ListenReplyView::<F>::Address(
            address::named_address(endpoint::address_of(endpoint)),
        ),
        listener.lock_file == listen::listen_run(endpoint, replies).lock_file,
        release::release_answered(
            endpoint::address_of(endpoint),
            listener.lock_file is Some,
            down,
        ),
        down.len() == release::release_steps(
            ReleaseStage::Released,
            listener.lock_file is Some,
        ),
        down[1] is Done,
        forall|i: int| 0 <= i < down.len() ==> !(#[trigger] down[i] is Lost),
    ensures
        ({
            let path = endpoint::address_of(endpoint);
            let locked = listener.lock_file is Some;
            let opened = in_service(listeners, listen::listen_run(endpoint, replies), listener);
            let asked = |n: int|
                release::release_request(release::release_run(path, locked, down.take(n)));
            &&& opened.contains_key(path) && opened[path] == listener
            &&& opened.remove(path) == listeners
            &&& opened.remove(path).remove(path) == listeners
            &&& manager::told_endpoints(opened.remove(path)) == manager::told_endpoints(listeners)
            &&& manager::told_locators(opened.remove(path)) == manager::told_locators(listeners)
            &&& release::release_run(path, locked, down).stage == ReleaseStage::Released
            &&& asked(down.len() as int) == ReleaseActionView::Finish
            &&& locked <==> !address::is_abstract(path)
            &&& locked <==> listen::listen_request(
                listen::listen_run(endpoint, replies),
            )->locked
            &&& locked ==> {
                &&& asked(2) == ReleaseActionView::RemoveSocketFile(path)
                &&& asked(3) == ReleaseActionView::RemoveLockFile(listen::lock_file_path(path))
                &&& asked(4) == ReleaseActionView::Unlock
            }
        }),
{
    let path = endpoint::address_of(endpoint);
    let locked = listener.lock_file is Some;
    let opened = in_service(listeners, listen::listen_run(endpoint, replies), listener);
    listen::lemma_registered_where_asked(endpoint, replies);
    listen::lemma_listen_progress(endpoint, replies);
    listen::lemma_lock_file_kept(endpoint, replies);
    assert(opened.remove(path) =~= listeners);
    assert(listeners.remove(path) =~= listeners);
    assert(down.take(down.len() as int) =~= down);
    release::lemma_release_progress(path, locked, down);
    assert(!(down[down.len() - 1] is Lost));
    if locked {
        let d4 = down.drop_last();
        let d3 = d4.drop_last();
        let d2 = d3.drop_last();
        assert(down.take(4) =~= d4 && down.take(3) =~= d3 && down.take(2) =~= d2);
        assert(release::release_answered(path, locked, d4));
        assert(release::release_answered(path, locked, d3));
        assert(release::release_answered(path, locked, d2));
        release::lemma_release_progress(path, locked, d4);
        release::lemma_release_progress(path, locked, d3);
        release::lemma_release_progress(path, locked, d2);
        assert(d4.last() == down[3] && d3.last() == down[2] && d2.last() == down[1]);
    }
}

/// Once a listener has been taken down, or its files are being cleared, it was told to stop and
/// has stopped: it can neither accept nor deliver anything any more, and every connection that it
/// accepted was handed over. Every other listener stays in service as it was.
///
/// `events` are what happened to the listener while it was served. To wait for its end is done
/// when it has stopped.
pub proof fn lemma_taken_down_listener_is_silent<L>(
    path: Seq<char>,
    locked: bool,
    down: Seq<ReleaseReplyView>,
    throttle: u64,
    events: Seq<AcceptEvent>,
    listeners: Map<Seq<char>, L>,
)
    requires
        release::release_answered(path, locked, down),
        release::release_run(path, locked, down).stage == ReleaseStage::Released
            || release::clears_files(release::release_run(path, locked, down).stage),
        accept::accept_possible(path, throttle, events),
        down.len() >= 2 && down[1] is Done ==> accept::accept_run(path, throttle, events).stage
            == AcceptStage::Stopped,
    ensures
        down[0] is Done,
        down[1] is Done,
        accept::accept_run(path, throttle, events).stage == AcceptStage::Stopped,
        events.last() is Cancelled,
        forall|event: AcceptEvent|
            !(#[trigger] accept::accept_expects(
                accept::accept_run(path, throttle, events).stage,
                event,
            )),
        forall|more: Seq<AcceptEvent>| #[trigger]
            accept::accept_possible(path, throttle, events + more) ==> more.len() == 0,
        accept::occurrences(events, AcceptEvent::Accepted) == accept::occurrences(
            events,
            AcceptEvent::Sent,
        ) + accept::occurrences(events, AcceptEvent::SendFailed),
        forall|other: Seq<char>| #[trigger]
            listeners.contains_key(other) && other != path ==> listeners.remove(
                path,
            ).contains_key(other) && listeners.remove(path)[other] == listeners[other],
{
    release::lemma_release_progress(path, locked, down);
    release::lemma_ended_well(path, locked, down);
    accept::lemma_only_cancelling_stops(path, throttle, events);
    accept::lemma_every_connection_is_delivered(path, throttle, events);
    assert forall|more: Seq<AcceptEvent>| #[trigger]
        accept::accept_possible(path, throttle, events + more) implies more.len() == 0 by {
        accept::lemma_nothing_after_stopping(path, throttle, events, more);
    }
}

} // verus!
