//! Laws of opening a listener: what is asked after each reply, in any run.

use super::addresses;
use super::endpoints;
use crate::address;
use crate::endpoint;
use crate::error::LinkErrorView;
use crate::listen;
use crate::listen::{ListenActionView, ListenReplyView, ListenStage, NewListenerView};
use vstd::prelude::*;

verus! {

/// Opening a listener starts with the address that the endpoint's address names.
pub proof fn lemma_listener_starts<F>(endpoint: Seq<char>)
    ensures
        listen::listen_request(listen::listen_start::<F>(endpoint)) matches
            ListenActionView::Resolve(addr) && addresses::names(
            endpoint::address_of(endpoint),
            addr,
        ),
        listen::listen_start::<F>(endpoint).lock_file is None,
{
    addresses::lemma_named(
        endpoint::address_of(endpoint),
        listen::listen_request(listen::listen_start::<F>(endpoint))->Resolve_0,
    );
}

/// The action that the last of `replies` led to.
pub open spec fn last_action<F>(
    endpoint: Seq<char>,
    replies: Seq<ListenReplyView<F>>,
) -> ListenActionView {
    listen::listen_next(listen::listen_run(endpoint, replies.drop_last()), replies.last()).1
}

/// Whoever works on files and is lost ends the listener, at any step.
pub proof fn lemma_lost_worker<F>(endpoint: Seq<char>, replies: Seq<ListenReplyView<F>>)
    requires
        listen::listen_answered(endpoint, replies),
        replies.len() > 0,
        replies.last() is Lost,
    ensures
        last_action(endpoint, replies) == ListenActionView::Fail(
            LinkErrorView::WorkerLost { cause: replies.last()->Lost_0 },
        ),
        listen::listen_run(endpoint, replies).lock_file is None,
{
}

/// What is asked of a listener on a file after each of the first six replies: the lock file beside
/// the socket file is opened, its lock is taken, the opened file and the one on disk are compared,
/// the socket file is removed, whether it was there or not, and a socket is bound to the address
/// that the path names.
pub proof fn lemma_lock_actions<F>(endpoint: Seq<char>, replies: Seq<ListenReplyView<F>>)
    requires
        listen::listen_answered(endpoint, replies),
        0 < replies.len() <= 6,
        !(replies.last() is Lost),
        endpoint::address_of(endpoint).len() == 0 || endpoint::address_of(endpoint)[0] != '@',
    ensures
        ({
            let n = replies.len();
            let path = endpoint::address_of(endpoint);
            let action = last_action(endpoint, replies);
            let last = replies.last();
            &&& n == 1 ==> action == match last {
                ListenReplyView::Failed(cause) => ListenActionView::Fail(
                    LinkErrorView::Io { cause },
                ),
                _ => ListenActionView::OpenLockFile(path + ".lock"@),
            }
            &&& n == 2 ==> action == match last {
                ListenReplyView::Failed(cause) => ListenActionView::Fail(
                    LinkErrorView::LockFileNotOpened { path, cause },
                ),
                _ => ListenActionView::TryLock,
            }
            &&& n == 3 ==> action == match last {
                ListenReplyView::Failed(cause) => ListenActionView::Fail(
                    LinkErrorView::LockNotTaken { path, cause },
                ),
                ListenReplyView::WouldBlock => ListenActionView::Fail(
                    LinkErrorView::LockHeld { path },
                ),
                _ => ListenActionView::StatOpened,
            }
            &&& n == 4 ==> action == match last {
                ListenReplyView::Failed(cause) => ListenActionView::Fail(
                    LinkErrorView::Io { cause },
                ),
                _ => ListenActionView::StatOnDisk(path + ".lock"@),
            }
            &&& n == 5 ==> action == match last {
                ListenReplyView::Failed(cause) => ListenActionView::Fail(
                    LinkErrorView::Io { cause },
                ),
                _ => if last->dev == replies[3]->dev && last->ino == replies[3]->ino {
                    ListenActionView::RemoveSocketFile(path)
                } else {
                    ListenActionView::Fail(LinkErrorView::LockFileSubstituted { path })
                },
            }
            &&& n == 6 ==> {
                &&& action matches ListenActionView::Bind(addr)
                &&& addresses::names(path, addr)
            }
        }),
{
    let path = endpoint::address_of(endpoint);
    let before = replies.drop_last();
    listen::lemma_listen_progress(endpoint, before);
    listen::lemma_listen_progress(endpoint, replies);
    if replies.len() == 5 {
        lemma_opened_identity(endpoint, before);
        assert(before[3] == replies[3]);
    }
    if replies.len() == 6 {
        addresses::lemma_named(path, last_action(endpoint, replies)->Bind_0);
    }
}

/// Which file was opened is what the fourth reply said.
proof fn lemma_opened_identity<F>(endpoint: Seq<char>, replies: Seq<ListenReplyView<F>>)
    requires
        listen::listen_answered(endpoint, replies),
        replies.len() == 4,
        !address::is_abstract(endpoint::address_of(endpoint)),
        listen::listen_run(endpoint, replies).stage != ListenStage::Failed,
    ensures
        replies[3] is Identity,
        listen::listen_run(endpoint, replies).opened == Some((replies[3]->dev, replies[3]->ino)),
{
    listen::lemma_listen_progress(endpoint, replies.drop_last());
    listen::lemma_listen_progress(endpoint, replies);
}

/// An abstract listener is bound to the abstract name that its path names, right after the address
/// was made.
pub proof fn lemma_abstract_bind<F>(endpoint: Seq<char>, replies: Seq<ListenReplyView<F>>)
    requires
        listen::listen_answered(endpoint, replies),
        replies.len() == 1,
        endpoint::address_of(endpoint).len() > 0,
        endpoint::address_of(endpoint)[0] == '@',
    ensures
        replies.last() is Done ==> {
            &&& last_action(endpoint, replies) matches ListenActionView::Bind(addr)
            &&& addresses::names(endpoint::address_of(endpoint), addr)
        },
        replies.last() matches ListenReplyView::Failed(cause) ==> last_action(endpoint, replies)
            == ListenActionView::Fail(LinkErrorView::Io { cause }),
{
    listen::lemma_listen_progress(endpoint, replies.drop_last());
    listen::lemma_listen_progress(endpoint, replies);
    addresses::lemma_named(
        endpoint::address_of(endpoint),
        last_action(endpoint, replies)->Bind_0,
    );
}

/// How many replies come before the one to binding the socket.
pub open spec fn until_bound(path: Seq<char>) -> int {
    if path.len() > 0 && path[0] == '@' {
        1
    } else {
        6
    }
}

/// What is asked after the socket was to be bound: it is set not to block, asked for its address,
/// which must be shown as some path, and adopted.
pub proof fn lemma_bound_actions<F>(endpoint: Seq<char>, replies: Seq<ListenReplyView<F>>)
    requires
        listen::listen_answered(endpoint, replies),
        replies.len() > until_bound(endpoint::address_of(endpoint)),
    ensures
        ({
            let path = endpoint::address_of(endpoint);
            let n = replies.len() - until_bound(path);
            let action = last_action(endpoint, replies);
            let last = replies.last();
            &&& n <= 4
            &&& last matches ListenReplyView::Failed(cause) ==> action == ListenActionView::Fail(
                if n == 1 || n == 3 {
                    LinkErrorView::ListenerNotBound { path, cause }
                } else {
                    LinkErrorView::Io { cause }
                },
            )
            &&& !(last is Failed) ==> {
                &&& n == 1 ==> action == ListenActionView::SetNonblocking
                &&& n == 2 ==> action == ListenActionView::LocalAddr
                &&& n == 3 ==> last is Address && action == if addresses::shows(
                    last->Address_0,
                    None,
                ) {
                    ListenActionView::Fail(LinkErrorView::ListenerUnaddressed { path })
                } else {
                    ListenActionView::Adopt
                }
            }
        }),
{
    let before = replies.drop_last();
    listen::lemma_listen_progress(endpoint, before);
    listen::lemma_listen_progress(endpoint, replies);
    if replies.last() is Address {
        addresses::lemma_shown(replies.last()->Address_0, None);
    }
}

/// A socket that is to be adopted has an address that is shown as some path.
proof fn lemma_adopted<F>(endpoint: Seq<char>, replies: Seq<ListenReplyView<F>>)
    requires
        listen::listen_answered(endpoint, replies),
        replies.len() == until_bound(endpoint::address_of(endpoint)) + 3,
        listen::listen_run(endpoint, replies).stage != ListenStage::Failed,
    ensures
        listen::listen_run(endpoint, replies).stage == ListenStage::Adopt,
        listen::listen_run(endpoint, replies).endpoint == endpoint,
        replies.last() is Address,
        address::address_path(replies.last()->Address_0) is Some,
        listen::listen_run(endpoint, replies).local == address::address_path(
            replies.last()->Address_0,
        ),
{
    listen::lemma_listen_progress(endpoint, replies.drop_last());
    listen::lemma_listen_progress(endpoint, replies);
}

/// What is asked last: the listener is registered under the path that its socket's address is
/// shown as. Its endpoint is the normal form of the one that was asked for, with that path in
/// place of the address; its locator is that endpoint without the configuration; and a lock is
/// kept exactly if it listens on a file. Where there is no such endpoint, the listener ends with
/// what is said against it.
pub proof fn lemma_register_action<F>(endpoint: Seq<char>, replies: Seq<ListenReplyView<F>>)
    requires
        endpoint::is_endpoint(endpoint),
        listen::listen_answered(endpoint, replies),
        replies.len() == until_bound(endpoint::address_of(endpoint)) + 4,
        replies.last() is Done,
    ensures
        ({
            let path = endpoint::address_of(endpoint);
            let local = address::address_path(replies[replies.len() - 2]->Address_0)->0;
            let protocol = endpoint::protocol_of(endpoint);
            let metadata = endpoint::metadata_of(endpoint);
            let config = endpoint::config_of(endpoint);
            let refusal = endpoint::refusal(protocol, local, metadata, config);
            let text = endpoints::spelled_out(
                protocol,
                local,
                endpoints::unless_empty(metadata),
                endpoints::unless_empty(config),
            );
            let action = last_action(endpoint, replies);
            &&& replies[replies.len() - 2] is Address
            &&& addresses::shows(replies[replies.len() - 2]->Address_0, Some(local))
            &&& refusal is Some ==> action == ListenActionView::Fail(refusal->0)
            &&& refusal is None ==> action == (ListenActionView::Register {
                path: local,
                endpoint: endpoint::normalized(text),
                locator: endpoint::locator_of(endpoint::normalized(text)),
                locked: !(path.len() > 0 && path[0] == '@'),
            })
            &&& refusal is None && !local.contains('?') && !local.contains('#') ==> {
                &&& action->endpoint == endpoints::spelled_out(
                    protocol,
                    local,
                    endpoints::in_normal_form(endpoints::unless_empty(metadata)),
                    endpoints::in_normal_form(endpoints::unless_empty(config)),
                )
                &&& action->locator == endpoints::spelled_out(
                    protocol,
                    local,
                    endpoints::in_normal_form(endpoints::unless_empty(metadata)),
                    None,
                )
            }
        }),
{
    let path = endpoint::address_of(endpoint);
    let before = replies.drop_last();
    let at = replies.len() - 2;
    let protocol = endpoint::protocol_of(endpoint);
    let metadata = endpoint::metadata_of(endpoint);
    let config = endpoint::config_of(endpoint);
    assert(listen::listen_answered(endpoint, before));
    assert(before.last() == replies[at]);
    assert(listen::listen_run(endpoint, before).stage != ListenStage::Failed);
    lemma_adopted(endpoint, before);
    let local = address::address_path(replies[at]->Address_0)->0;
    addresses::lemma_shown(replies[at]->Address_0, Some(local));
    endpoints::lemma_made_of_parts(protocol, local, metadata, config);
    assert(listen::listen_run(endpoint, before).refusal_at(local) == endpoint::refusal(
        protocol,
        local,
        metadata,
        config,
    ));
    if endpoint::refusal(protocol, local, metadata, config) is None && !local.contains('?')
        && !local.contains('#') {
        lemma_asked_parts_apart(endpoint, local);
        let m = endpoints::unless_empty(metadata);
        let c = endpoints::unless_empty(config);
        endpoints::lemma_spelled_out(protocol, local, m, c);
        lemma_normal_parts_apart(protocol, local, m, c);
        endpoints::lemma_spelled_out(
            protocol,
            local,
            endpoints::in_normal_form(m),
            endpoints::in_normal_form(c),
        );
    }
}

/// The parts of an accepted endpoint on a plain path can be told apart.
proof fn lemma_asked_parts_apart(endpoint: Seq<char>, local: Seq<char>)
    requires
        endpoint::is_endpoint(endpoint),
        endpoint::refusal(
            endpoint::protocol_of(endpoint),
            local,
            endpoint::metadata_of(endpoint),
            endpoint::config_of(endpoint),
        ) is None,
        !local.contains('?') && !local.contains('#'),
    ensures
        endpoints::parts_apart(
            endpoint::protocol_of(endpoint),
            local,
            endpoints::unless_empty(endpoint::metadata_of(endpoint)),
            endpoints::unless_empty(endpoint::config_of(endpoint)),
        ),
{
    let protocol = endpoint::protocol_of(endpoint);
    let metadata = endpoint::metadata_of(endpoint);
    let config = endpoint::config_of(endpoint);
    let s = endpoints::spelled_out(
        protocol,
        local,
        endpoints::unless_empty(metadata),
        endpoints::unless_empty(config),
    );
    endpoint::lemma_parts_are_plain(endpoint);
    endpoints::lemma_made_of_parts(protocol, local, metadata, config);
    crate::text::lemma_find(endpoint, '/');
    if metadata.len() == 0 && config.len() > 0 && config.contains('?') {
        let i = choose|i: int| 0 <= i < config.len() && config[i] == '?';
        let k = protocol.len() + 1 + local.len();
        assert(s[k + 1 + i] == '?');
        assert(s[k as int] == '#');
        crate::text::lemma_find(s, '?');
        crate::text::lemma_find(s, '#');
        endpoint::lemma_joined_parts(protocol, local, metadata, config);
        assert(s =~= endpoint::joined(protocol, local, metadata, config));
        assert(endpoint::address_of(s) == local);
    }
    if local.len() == 0 && metadata.len() == 0 && config.len() == 0 {
        crate::text::lemma_find(s, '/');
        assert(s =~= protocol + seq!['/']);
    }
}

/// The normal forms of parts that can be told apart can be told apart.
proof fn lemma_normal_parts_apart(
    protocol: Seq<char>,
    address: Seq<char>,
    metadata: Option<Seq<char>>,
    config: Option<Seq<char>>,
)
    requires
        endpoints::parts_apart(protocol, address, metadata, config),
    ensures
        endpoints::parts_apart(
            protocol,
            address,
            endpoints::in_normal_form(metadata),
            endpoints::in_normal_form(config),
        ),
{
    if metadata is Some {
        crate::parameters::lemma_normal(metadata->0);
    }
    if config is Some {
        crate::parameters::lemma_normal(config->0);
    }
}

/// What is asked is what the state reached asks for, unless it has failed. One that has failed
/// keeps no lock file, and one that goes on keeps the one that was opened.
pub proof fn lemma_listener_step<F>(s: NewListenerView<F>, reply: ListenReplyView<F>)
    requires
        listen::listen_expects(s.stage, reply),
    ensures
        ({
            let next = listen::listen_next(s, reply);
            &&& next.0.stage != ListenStage::Failed ==> next.1 == listen::listen_request(next.0)
            &&& next.0.stage == ListenStage::Failed <==> next.1 is Fail
            &&& next.0.endpoint == s.endpoint
            &&& next.0.stage == ListenStage::Failed ==> next.0.lock_file is None
            &&& next.0.stage != ListenStage::Failed && !(reply is Opened) ==> next.0.lock_file
                == s.lock_file
            &&& reply matches ListenReplyView::Opened(file) ==> next.0.lock_file == Some(file)
        }),
{
}

/// Whenever a listener is told to bind a socket, in any run, it is to the address that it was told
/// to resolve.
pub proof fn lemma_bound_where_resolved<F>(endpoint: Seq<char>, replies: Seq<ListenReplyView<F>>)
    requires
        listen::listen_answered(endpoint, replies),
        replies.len() > 0,
    ensures
        last_action(endpoint, replies) matches ListenActionView::Bind(addr) ==> {
            &&& addresses::names(endpoint::address_of(endpoint), addr)
            &&& listen::listen_request(listen::listen_start::<F>(endpoint))
                == ListenActionView::Resolve(addr)
            &&& replies.len() == until_bound(endpoint::address_of(endpoint))
        },
{
    let path = endpoint::address_of(endpoint);
    listen::lemma_listen_progress(endpoint, replies.drop_last());
    listen::lemma_listen_progress(endpoint, replies);
    if last_action(endpoint, replies) is Bind {
        addresses::lemma_named(path, last_action(endpoint, replies)->Bind_0);
        lemma_listener_starts::<F>(endpoint);
        addresses::lemma_named(
            path,
            listen::listen_request(listen::listen_start::<F>(endpoint))->Resolve_0,
        );
    }
}

/// Which replies are expected of a listener that has not failed, and when files are worked on: on a
/// file, at the five steps after the first. None is expected after the last step, and after a
/// failure.
pub proof fn lemma_listener_replies<F>(
    endpoint: Seq<char>,
    replies: Seq<ListenReplyView<F>>,
    reply: ListenReplyView<F>,
)
    requires
        listen::listen_answered(endpoint, replies),
    ensures
        ({
            let n = replies.len();
            let b = until_bound(endpoint::address_of(endpoint));
            let s = listen::listen_run(endpoint, replies);
            let failed = n > 0 && last_action(endpoint, replies) is Fail;
            let files = b == 6 && 1 <= n < 6 && !failed;
            &&& listen::on_files(s.stage) <==> files
            &&& listen::listen_expects(s.stage, reply) <==> {
                &&& !failed
                &&& n < b + 4
                &&& {
                    ||| reply is Failed
                    ||| files && reply is Lost
                    ||| if files && n == 1 {
                        reply is Opened
                    } else if files && n == 2 {
                        reply is Done || reply is WouldBlock
                    } else if files && (n == 3 || n == 4) {
                        reply is Identity
                    } else if n == b + 2 {
                        reply is Address
                    } else {
                        reply is Done
                    }
                }
            }
        }),
{
    listen::lemma_listen_progress(endpoint, replies);
    if replies.len() > 0 {
        listen::lemma_listen_progress(endpoint, replies.drop_last());
    }
}

} // verus!
