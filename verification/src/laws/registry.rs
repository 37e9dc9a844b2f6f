//! Laws of the listeners in service, and of what is told of them.

use crate::endpoint;
use crate::manager;
use crate::manager::{LinkManagerUnicastUnixSocketStream, ListenerUnixSocketStream};
use vstd::multiset::Multiset;
use vstd::prelude::*;

verus! {

/// What is told of no listeners is nothing; with each listener its endpoint is told once more, and
/// its locator too.
pub proof fn lemma_each_listener_is_told<T, J, F>(
    listeners: Map<Seq<char>, ListenerUnixSocketStream<T, J, F>>,
    path: Seq<char>,
)
    requires
        listeners.dom().finite(),
    ensures
        listeners.dom().len() == 0 ==> {
            &&& manager::told_endpoints(listeners) == Multiset::<Seq<char>>::empty()
            &&& manager::told_locators(listeners) == Multiset::<Seq<char>>::empty()
        },
        listeners.contains_key(path) ==> {
            &&& manager::told_endpoints(listeners) == manager::told_endpoints(
                listeners.remove(path),
            ).insert(listeners[path].endpoint@)
            &&& manager::told_locators(listeners) == manager::told_locators(
                listeners.remove(path),
            ).insert(endpoint::locator_of(listeners[path].endpoint@))
        },
{
    if listeners.contains_key(path) {
        manager::lemma_told_of(listeners, manager::itself(), path);
        manager::lemma_told_of(listeners, manager::by_locator(), path);
    }
}

/// The paths that are told are those of all listeners in service, none of them twice.
pub proof fn lemma_told_paths<M, T, J, F>(
    manager: LinkManagerUnicastUnixSocketStream<M, T, J, F>,
    path: Seq<char>,
)
    requires
        manager.tells_all_paths(),
    ensures
        manager@.contains_key(path) <==> exists|i: int|
            0 <= i < manager.paths().len() && #[trigger] manager.paths()[i] == path,
        forall|i: int, j: int|
            0 <= i < j < manager.paths().len() ==> #[trigger] manager.paths()[i]
                != #[trigger] manager.paths()[j],
{
    assert(manager.paths().contains(path) <==> manager@.contains_key(path));
}

} // verus!
