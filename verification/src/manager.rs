//! The listeners in service, each under its path.

use crate::address;
use crate::connect;
use crate::connect::{LinkAction, NewLink};
use crate::endpoint;
use crate::endpoint::{EndPoint, Locator};
use crate::error::{LinkError, LinkErrorView};
use crate::listen;
use crate::listen::{ListenAction, ListenReplyView, ListenStage, NewListener, NewListenerView};
use crate::release;
use crate::release::{Release, ReleaseAction, ReleaseStage, ReleaseView};
use vstd::multiset::Multiset;
use vstd::prelude::*;

verus! {

/// A listener in service: its endpoint, what tells it to stop, what it ends with, and the lock
/// file that it holds, if it listens on a file.
pub struct ListenerUnixSocketStream<T, J, F> {
    pub endpoint: EndPoint,
    pub token: T,
    pub handle: J,
    pub lock_file: Option<F>,
}

impl<T, J, F> ListenerUnixSocketStream<T, J, F> {
    /// A listener made of its parts.
    pub fn new(endpoint: EndPoint, token: T, handle: J, lock_file: Option<F>) -> (listener:
        ListenerUnixSocketStream<T, J, F>)
        ensures
            listener.endpoint == endpoint,
            listener.token == token,
            listener.handle == handle,
            listener.lock_file == lock_file,
    {
        ListenerUnixSocketStream { endpoint, token, handle, lock_file }
    }
}

/// The map that a list of pairs spells.
pub open spec fn spelled<L>(entries: Seq<(String, L)>) -> Map<Seq<char>, L>
    decreases entries.len(),
{
    if entries.len() == 0 {
        Map::empty()
    } else {
        spelled(entries.drop_last()).insert(entries.last().0@, entries.last().1)
    }
}

/// No two of `entries` have the same path.
pub open spec fn distinct<L>(entries: Seq<(String, L)>) -> bool {
    forall|i: int, j: int|
        0 <= i < j < entries.len() ==> (#[trigger] entries[i]).0@ != (#[trigger] entries[j]).0@
}

/// A list without two entries under one path spells each of them, and nothing else.
proof fn lemma_spelled<L>(entries: Seq<(String, L)>)
    requires
        distinct(entries),
    ensures
        forall|i: int|
            0 <= i < entries.len() ==> spelled(entries).contains_key(
                (#[trigger] entries[i]).0@,
            ) && spelled(entries)[entries[i].0@] == entries[i].1,
        forall|path: Seq<char>| #[trigger]
            spelled(entries).contains_key(path) ==> exists|i: int|
                0 <= i < entries.len() && (#[trigger] entries[i]).0@ == path,
    decreases entries.len(),
{
    if entries.len() > 0 {
        let before = entries.drop_last();
        let last = entries.len() - 1;
        lemma_spelled(before);
        assert forall|i: int| 0 <= i < entries.len() implies spelled(entries).contains_key(
            (#[trigger] entries[i]).0@,
        ) && spelled(entries)[entries[i].0@] == entries[i].1 by {
            if i < last {
                assert(before[i] == entries[i]);
                assert(entries[i].0@ != entries[last].0@);
            }
        }
        assert forall|path: Seq<char>| #[trigger]
            spelled(entries).contains_key(path) implies exists|i: int|
            0 <= i < entries.len() && (#[trigger] entries[i]).0@ == path by {
            if path == entries[last].0@ {
            } else {
                assert(spelled(before).contains_key(path));
                let i = choose|i: int| 0 <= i < before.len() && (#[trigger] before[i]).0@ == path;
                assert(entries[i] == before[i]);
            }
        }
    }
}

/// What `told` makes of the endpoints of `listeners`, each as often as there are listeners for it.
pub open spec fn told_of<T, J, F>(
    listeners: Map<Seq<char>, ListenerUnixSocketStream<T, J, F>>,
    told: spec_fn(Seq<char>) -> Seq<char>,
) -> Multiset<Seq<char>>
    decreases listeners.dom().len(),
{
    if listeners.dom().finite() && listeners.dom().len() > 0 {
        let path = listeners.dom().choose();
        told_of(listeners.remove(path), told).insert(told(listeners[path].endpoint@))
    } else {
        Multiset::empty()
    }
}

/// An endpoint told as it is.
pub open spec fn itself() -> spec_fn(Seq<char>) -> Seq<char> {
    |endpoint: Seq<char>| endpoint
}

/// An endpoint told by its locator.
pub open spec fn by_locator() -> spec_fn(Seq<char>) -> Seq<char> {
    |endpoint: Seq<char>| endpoint::locator_of(endpoint)
}

/// The endpoints of `listeners`, each as often as there are listeners with it.
pub open spec fn told_endpoints<T, J, F>(
    listeners: Map<Seq<char>, ListenerUnixSocketStream<T, J, F>>,
) -> Multiset<Seq<char>> {
    told_of(listeners, itself())
}

/// The locators of the endpoints of `listeners`, each as often as there are listeners with it.
pub open spec fn told_locators<T, J, F>(
    listeners: Map<Seq<char>, ListenerUnixSocketStream<T, J, F>>,
) -> Multiset<Seq<char>> {
    told_of(listeners, by_locator())
}

/// It does not matter which listener is told first.
pub proof fn lemma_told_of<T, J, F>(
    listeners: Map<Seq<char>, ListenerUnixSocketStream<T, J, F>>,
    told: spec_fn(Seq<char>) -> Seq<char>,
    path: Seq<char>,
)
    requires
        listeners.dom().finite(),
        listeners.contains_key(path),
    ensures
        told_of(listeners, told) == told_of(listeners.remove(path), told).insert(
            told(listeners[path].endpoint@),
        ),
    decreases listeners.dom().len(),
{
    let first = listeners.dom().choose();
    if first != path {
        let without = listeners.remove(path);
        lemma_told_of(listeners.remove(first), told, path);
        lemma_told_of(without, told, first);
        assert(listeners.remove(first).remove(path) =~= without.remove(first));
        assert(told_of(listeners, told) =~= told_of(without, told).insert(
            told(listeners[path].endpoint@),
        ));
    }
}

/// What `told` makes of the endpoints of `entries`, in their order.
spec fn entries_told<T, J, F>(
    entries: Seq<(String, ListenerUnixSocketStream<T, J, F>)>,
    told: spec_fn(Seq<char>) -> Seq<char>,
) -> Seq<Seq<char>> {
    Seq::new(entries.len(), |i: int| told(entries[i].1.endpoint@))
}

/// What a list without two entries under one path tells is what the map that it spells tells.
proof fn lemma_entries_told<T, J, F>(
    entries: Seq<(String, ListenerUnixSocketStream<T, J, F>)>,
    told: spec_fn(Seq<char>) -> Seq<char>,
)
    requires
        distinct(entries),
    ensures
        spelled(entries).dom().finite(),
        entries_told(entries, told).to_multiset() == told_of(spelled(entries), told),
    decreases entries.len(),
{
    broadcast use vstd::seq_lib::group_to_multiset_ensures;

    if entries.len() > 0 {
        let before = entries.drop_last();
        let last = entries.last();
        assert forall|i: int, j: int| 0 <= i < j < before.len() implies (#[trigger] before[i]).0@
            != (#[trigger] before[j]).0@ by {
            assert(entries[i] == before[i] && entries[j] == before[j]);
        }
        lemma_entries_told(before, told);
        lemma_spelled(before);
        assert(!spelled(before).contains_key(last.0@)) by {
            if spelled(before).contains_key(last.0@) {
                let i = choose|i: int|
                    0 <= i < before.len() && (#[trigger] before[i]).0@ == last.0@;
                assert(entries[i] == before[i]);
                assert(entries[entries.len() - 1] == last);
            }
        }
        lemma_told_of(spelled(entries), told, last.0@);
        assert(spelled(entries).remove(last.0@) =~= spelled(before));
        assert(entries_told(entries, told) =~= entries_told(before, told).push(
            told(last.1.endpoint@),
        ));
    } else {
        assert(entries_told(entries, told) =~= Seq::<Seq<char>>::empty());
        assert(entries_told(entries, told).to_multiset() =~= Multiset::empty());
    }
}

/// Makes links and listeners, and keeps the listeners in service. `M` takes over the links that
/// listeners accept. The listeners are few, and are told one by one and handed out when they are
/// removed, so they are kept as pairs of path and listener.
pub struct LinkManagerUnicastUnixSocketStream<M, T, J, F> {
    manager: M,
    listeners: Vec<(String, ListenerUnixSocketStream<T, J, F>)>,
}

impl<M, T, J, F> View for LinkManagerUnicastUnixSocketStream<M, T, J, F> {
    type V = Map<Seq<char>, ListenerUnixSocketStream<T, J, F>>;

    closed spec fn view(&self) -> Map<Seq<char>, ListenerUnixSocketStream<T, J, F>> {
        spelled(self.listeners@)
    }
}

impl<M, T, J, F> LinkManagerUnicastUnixSocketStream<M, T, J, F> {
    #[verifier::type_invariant]
    closed spec fn inv(self) -> bool {
        distinct(self.listeners@)
    }

    /// What takes over the links that listeners accept.
    pub closed spec fn receiver(self) -> M {
        self.manager
    }

    /// The paths of the listeners in service, in the order in which they are told.
    pub closed spec fn paths(self) -> Seq<Seq<char>> {
        Seq::new(self.listeners@.len(), |i: int| self.listeners@[i].0@)
    }

    /// The paths are those of all listeners in service, each told once.
    pub open spec fn tells_all_paths(self) -> bool {
        &&& self.paths().no_duplicates()
        &&& forall|path: Seq<char>| #[trigger]
            self.paths().contains(path) <==> self@.contains_key(path)
    }

    /// A manager without listeners.
    pub fn new(manager: M) -> (made: Self)
        ensures
            made.receiver() == manager,
            made@ == Map::<Seq<char>, ListenerUnixSocketStream<T, J, F>>::empty(),
    {
        LinkManagerUnicastUnixSocketStream { manager, listeners: Vec::new() }
    }

    /// What takes over the links that listeners accept.
    pub fn get_manager(&self) -> (manager: &M)
        ensures
            *manager == self.receiver(),
    {
        &self.manager
    }

    /// Starts to connect a link to `endpoint`, and tells what to do first.
    pub fn new_link(
        &self,
        endpoint: EndPoint,
        abstract_names: bool,
        capacity: usize,
    ) -> (started: Result<(NewLink, LinkAction), LinkError>)
        ensures
            started is Err <==> address::is_abstract(endpoint::address_of(endpoint@))
                && !abstract_names || !address::system_holds(
                address::named_address(endpoint::address_of(endpoint@)),
                capacity as nat,
            ),
            started matches Ok(r) ==> {
                &&& r.0@ == connect::link_start(endpoint::address_of(endpoint@))
                &&& r.1@ == connect::link_request(
                    connect::link_start(endpoint::address_of(endpoint@)),
                )
            },
            started matches Err(e) ==> e@ == address::address_refusal(
                endpoint::address_of(endpoint@),
                abstract_names,
            ),
    {
        let path: String = endpoint.address();
        NewLink::start(path, abstract_names, capacity)
    }

    /// Starts to open a listener on `endpoint`, and tells what to do first.
    pub fn new_listener(
        &self,
        endpoint: EndPoint,
        abstract_names: bool,
        capacity: usize,
    ) -> (started: Result<(NewListener<F>, ListenAction), LinkError>)
        ensures
            started is Err <==> address::is_abstract(endpoint::address_of(endpoint@))
                && !abstract_names || !address::system_holds(
                address::named_address(endpoint::address_of(endpoint@)),
                capacity as nat,
            ),
            started matches Ok(r) ==> {
                &&& r.0@ == listen::listen_start::<F>(endpoint@)
                &&& r.1@ == listen::listen_request(listen::listen_start::<F>(endpoint@))
            },
            started matches Err(e) ==> e@ == address::address_refusal(
                endpoint::address_of(endpoint@),
                abstract_names,
            ),
    {
        NewListener::start(endpoint, abstract_names, capacity)
    }

    /// The place of the listener on `path`, or the number of listeners.
    fn position(&self, path: &str) -> (index: usize)
        ensures
            index <= self.listeners@.len(),
            index < self.listeners@.len() ==> self.listeners@[index as int].0@ == path@,
            forall|i: int| 0 <= i < index ==> (#[trigger] self.listeners@[i]).0@ != path@,
    {
        let wanted: String = path.to_owned();
        let mut i: usize = 0;
        while i < self.listeners.len()
            invariant
                i <= self.listeners@.len(),
                wanted@ == path@,
                forall|j: int| 0 <= j < i ==> (#[trigger] self.listeners@[j]).0@ != path@,
            decreases self.listeners@.len() - i,
        {
            if self.listeners[i].0 == wanted {
                return i;
            }
            i = i + 1;
        }
        i
    }

    /// Takes the listener on `path` out of service, if there is one, and hands it over.
    pub fn remove_listener(&mut self, path: &str) -> (removed: Option<
        ListenerUnixSocketStream<T, J, F>,
    >)
        ensures
            final(self).receiver() == old(self).receiver(),
            final(self)@ == old(self)@.remove(path@),
            removed is Some <==> old(self)@.contains_key(path@),
            removed matches Some(listener) ==> listener == old(self)@[path@],
    {
        proof {
            use_type_invariant(&*self);
            lemma_spelled(self.listeners@);
        }
        let index: usize = self.position(path);
        let ghost before = self.listeners@;
        if index < self.listeners.len() {
            let mut listeners: Vec<(String, ListenerUnixSocketStream<T, J, F>)> = Vec::new();
            std::mem::swap(&mut listeners, &mut self.listeners);
            let (_, listener) = listeners.remove(index);
            proof {
                let after = listeners@;
                let at = index as int;
                assert forall|i: int| 0 <= i < after.len() implies after[i] == before[if i < at {
                    i
                } else {
                    i + 1
                }] by {}
                assert(distinct(after));
                lemma_spelled(after);
                assert(spelled(after) =~= spelled(before).remove(path@)) by {
                    assert forall|p: Seq<char>| #[trigger]
                        spelled(after).contains_key(p) <==> spelled(before).remove(
                            path@,
                        ).contains_key(p) by {
                        if spelled(after).contains_key(p) {
                            let i = choose|i: int|
                                0 <= i < after.len() && (#[trigger] after[i]).0@ == p;
                            let k = if i < at { i } else { i + 1 };
                            assert(before[k] == after[i]);
                            assert(before[k].0@ != before[at].0@);
                        }
                        if spelled(before).contains_key(p) && p != path@ {
                            let k = choose|k: int|
                                0 <= k < before.len() && (#[trigger] before[k]).0@ == p;
                            let i = if k < at { k } else { k - 1 };
                            assert(after[i] == before[k]);
                        }
                    }
                    assert forall|p: Seq<char>| #[trigger] spelled(after).contains_key(p) implies
                        spelled(after)[p] == spelled(before)[p] by {
                        let i = choose|i: int|
                            0 <= i < after.len() && (#[trigger] after[i]).0@ == p;
                        let k = if i < at { i } else { i + 1 };
                        assert(before[k] == after[i]);
                    }
                }
            }
            self.listeners = listeners;
            Some(listener)
        } else {
            proof {
                assert(!spelled(before).contains_key(path@));
                assert(spelled(before).remove(path@) =~= spelled(before));
            }
            None
        }
    }

    /// Puts a listener in service under `path`, and hands over the one that was there before.
    pub fn add_listener(
        &mut self,
        path: String,
        listener: ListenerUnixSocketStream<T, J, F>,
    ) -> (replaced: Option<ListenerUnixSocketStream<T, J, F>>)
        ensures
            final(self).receiver() == old(self).receiver(),
            final(self)@ == old(self)@.insert(path@, listener),
            replaced is Some <==> old(self)@.contains_key(path@),
            replaced matches Some(r) ==> r == old(self)@[path@],
    {
        let ghost was = self@;
        let replaced = self.remove_listener(path.as_str());
        proof {
            use_type_invariant(&*self);
            lemma_spelled(self.listeners@);
        }
        let ghost before = self.listeners@;
        let mut listeners: Vec<(String, ListenerUnixSocketStream<T, J, F>)> = Vec::new();
        std::mem::swap(&mut listeners, &mut self.listeners);
        listeners.push((path, listener));
        proof {
            let after = listeners@;
            assert(after.drop_last() =~= before);
            assert forall|i: int, j: int| 0 <= i < j < after.len() implies (#[trigger] after[i]).0@
                != (#[trigger] after[j]).0@ by {
                assert(after[i] == before[i]);
                if j < before.len() {
                    assert(after[j] == before[j]);
                } else {
                    assert(spelled(before).contains_key(before[i].0@));
                    assert(!spelled(before).contains_key(path@));
                }
            }
            assert(spelled(after) =~= was.insert(path@, listener));
        }
        self.listeners = listeners;
        replaced
    }

    /// Takes the listener on `endpoint` out of service, and starts to take it down: hands the
    /// listener over and tells what to do first.
    pub fn del_listener(&mut self, endpoint: &EndPoint) -> (started: Result<
        (ListenerUnixSocketStream<T, J, F>, Release, ReleaseAction),
        LinkError,
    >)
        ensures
            final(self).receiver() == old(self).receiver(),
            final(self)@ == old(self)@.remove(endpoint::address_of(endpoint@)),
            started is Ok <==> old(self)@.contains_key(endpoint::address_of(endpoint@)),
            started matches Ok(r) ==> {
                let path = endpoint::address_of(endpoint@);
                let s = release::release_start(path, r.0.lock_file is Some);
                &&& r.0 == old(self)@[path]
                &&& r.1@ == s
                &&& r.2@ == release::release_request(s)
            },
            started matches Err(e) ==> e@ == (LinkErrorView::ListenerNotFound {
                path: endpoint::address_of(endpoint@),
            }),
    {
        let path: String = endpoint.address();
        match self.remove_listener(path.as_str()) {
            Some(listener) => {
                let locked: bool = listener.lock_file.is_some();
                let (release, action) = Release::start(path, locked);
                Ok((listener, release, action))
            },
            None => Err(LinkError::ListenerNotFound { path }),
        }
    }

    /// The paths as they are told, from the list that is kept.
    proof fn lemma_paths(&self)
        requires
            distinct(self.listeners@),
        ensures
            self.tells_all_paths(),
            self.paths().len() == self.listeners@.len(),
            forall|i: int|
                0 <= i < self.paths().len() ==> self@[#[trigger] self.paths()[i]]
                    == self.listeners@[i].1,
    {
        lemma_spelled(self.listeners@);
        assert forall|path: Seq<char>| #[trigger]
            self.paths().contains(path) <==> self@.contains_key(path) by {
            if self.paths().contains(path) {
                let i = choose|i: int| 0 <= i < self.paths().len() && self.paths()[i] == path;
                assert(self.listeners@[i].0@ == path);
            }
            if self@.contains_key(path) {
                let i = choose|i: int|
                    0 <= i < self.listeners@.len() && (#[trigger] self.listeners@[i]).0@ == path;
                assert(self.paths()[i] == path);
            }
        }
        assert forall|i: int, j: int|
            0 <= i < self.paths().len() && 0 <= j < self.paths().len() && i
                != j implies self.paths()[i] != self.paths()[j] by {
            let a = self.listeners@[i];
            let b = self.listeners@[j];
        }
    }

    /// The endpoints of the listeners in service.
    pub fn get_listeners(&self) -> (endpoints: Vec<EndPoint>)
        ensures
            self.tells_all_paths(),
            endpoints@.len() == self.paths().len(),
            forall|i: int|
                0 <= i < endpoints@.len() ==> (#[trigger] endpoints@[i])@
                    == self@[self.paths()[i]].endpoint@,
            Seq::new(endpoints@.len(), |i: int| endpoints@[i]@).to_multiset() == told_endpoints(
                self@,
            ),
    {
        proof {
            use_type_invariant(self);
            self.lemma_paths();
        }
        let mut endpoints: Vec<EndPoint> = Vec::new();
        let mut i: usize = 0;
        while i < self.listeners.len()
            invariant
                i <= self.listeners@.len(),
                endpoints@.len() == i,
                forall|j: int|
                    0 <= j < i ==> (#[trigger] endpoints@[j])@ == self.listeners@[j].1.endpoint@,
            decreases self.listeners@.len() - i,
        {
            endpoints.push(self.listeners[i].1.endpoint.clone());
            i = i + 1;
        }
        proof {
            lemma_entries_told(self.listeners@, itself());
            assert(Seq::new(endpoints@.len(), |i: int| endpoints@[i]@) =~= entries_told(
                self.listeners@,
                itself(),
            ));
        }
        endpoints
    }

    /// The locators of the listeners in service.
    pub fn get_locators(&self) -> (locators: Vec<Locator>)
        ensures
            self.tells_all_paths(),
            locators@.len() == self.paths().len(),
            forall|i: int|
                0 <= i < locators@.len() ==> (#[trigger] locators@[i])@ == endpoint::locator_of(
                    self@[self.paths()[i]].endpoint@,
                ),
            Seq::new(locators@.len(), |i: int| locators@[i]@).to_multiset() == told_locators(self@),
    {
        proof {
            use_type_invariant(self);
            self.lemma_paths();
        }
        let mut locators: Vec<Locator> = Vec::new();
        let mut i: usize = 0;
        while i < self.listeners.len()
            invariant
                i <= self.listeners@.len(),
                locators@.len() == i,
                forall|j: int|
                    0 <= j < i ==> (#[trigger] locators@[j])@ == endpoint::locator_of(
                        self.listeners@[j].1.endpoint@,
                    ),
            decreases self.listeners@.len() - i,
        {
            locators.push(self.listeners[i].1.endpoint.to_locator());
            i = i + 1;
        }
        proof {
            lemma_entries_told(self.listeners@, by_locator());
            assert(Seq::new(locators@.len(), |i: int| locators@[i]@) =~= entries_told(
                self.listeners@,
                by_locator(),
            ));
        }
        locators
    }
}

/// A listener whose socket got the address that was asked for is found again under the endpoint
/// that was asked for, and under the endpoint that the manager tells.
pub proof fn lemma_registered_listener_is_found<L, F>(
    listeners: Map<Seq<char>, L>,
    listener: L,
    endpoint: Seq<char>,
    replies: Seq<ListenReplyView<F>>,
)
    requires
        endpoint::is_endpoint(endpoint),
        listen::listen_answered(endpoint, replies),
        listen::listen_run(endpoint, replies).stage == ListenStage::Registered,
        replies[replies.len() - 2] == ListenReplyView::<F>::Address(
            address::named_address(endpoint::address_of(endpoint)),
        ),
    ensures
        ({
            let s = listen::listen_run(endpoint, replies);
            let made = s.endpoint_at(s.local->0);
            let in_service = listeners.insert(s.local->0, listener);
            &&& in_service.contains_key(endpoint::address_of(endpoint))
            &&& in_service[endpoint::address_of(endpoint)] == listener
            &&& in_service.contains_key(endpoint::address_of(made))
            &&& in_service[endpoint::address_of(made)] == listener
        }),
{
    listen::lemma_registered_where_asked(endpoint, replies);
}

/// Putting a listener in service and taking it out again leaves every other listener as it was.
pub proof fn lemma_add_then_remove<L>(listeners: Map<Seq<char>, L>, path: Seq<char>, listener: L)
    ensures
        listeners.insert(path, listener).remove(path) == listeners.remove(path),
        !listeners.contains_key(path) ==> listeners.insert(path, listener).remove(path)
            == listeners,
{
    assert(listeners.insert(path, listener).remove(path) =~= listeners.remove(path));
    if !listeners.contains_key(path) {
        assert(listeners.remove(path) =~= listeners);
    }
}

/// Taking down a listener whose socket got the address that was asked for clears the files that
/// it worked on when it was opened: the socket file that it made way for, and the lock file. A
/// listener in the abstract namespace has neither.
pub proof fn lemma_release_clears_the_files_of_the_listener<F>(
    endpoint: Seq<char>,
    replies: Seq<ListenReplyView<F>>,
)
    requires
        endpoint::is_endpoint(endpoint),
        listen::listen_answered(endpoint, replies),
        listen::listen_run(endpoint, replies).stage == ListenStage::Registered,
        replies[replies.len() - 2] == ListenReplyView::<F>::Address(
            address::named_address(endpoint::address_of(endpoint)),
        ),
    ensures
        ({
            let opened = listen::listen_run(endpoint, replies);
            let opening = |stage: ListenStage|
                listen::listen_request(NewListenerView { stage, ..opened });
            let locked = listen::listen_request(opened)->locked;
            let down = release::release_start(opened.local->0, locked);
            let clearing = |stage: ReleaseStage|
                release::release_request(ReleaseView { stage, ..down });
            &&& locked <==> !address::is_abstract(endpoint::address_of(endpoint))
            &&& clearing(ReleaseStage::RemoveSocketFile)->RemoveSocketFile_0 == opening(
                ListenStage::RemoveSocketFile,
            )->RemoveSocketFile_0
            &&& clearing(ReleaseStage::RemoveLockFile)->RemoveLockFile_0 == opening(
                ListenStage::OpenLockFile,
            )->OpenLockFile_0
        }),
{
    listen::lemma_registered_where_asked(endpoint, replies);
    listen::lemma_listen_progress(endpoint, replies);
}

} // verus!
