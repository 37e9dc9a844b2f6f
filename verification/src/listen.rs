//! Opening a listener: what is asked of the system, step by step, and what its replies lead to.
//!
//! A socket file cannot be bound while it exists, and one that exists may be in use. So a
//! listener on a file first takes the lock of a second file beside it. Whoever holds that lock
//! uses the socket file; once the lock is held, nobody else does, and the socket file can be
//! removed and bound anew. The system releases the lock of a process that ends.

use crate::address;
use crate::address::{SocketAddr, SocketAddrView};
use crate::endpoint;
use crate::endpoint::{EndPoint, Locator};
use crate::error::{LinkError, LinkErrorView};
use crate::parameters;
use vstd::prelude::*;

verus! {

/// The lock file beside the socket file at `path`.
pub open spec fn lock_file_path(path: Seq<char>) -> Seq<char> {
    path + ".lock"@
}

/// The path of the lock file beside the socket file at `path`.
pub fn lock_file_beside(path: &str) -> (lock_path: String)
    ensures
        lock_path@ == lock_file_path(path@),
{
    path.to_owned().concat(".lock")
}

/// What the listener waits for, or how it ended.
#[derive(Clone, Copy, PartialEq, Eq, Structural)]
pub enum ListenStage {
    /// The system takes the address that the path names.
    Resolve,
    /// The lock file is opened.
    OpenLockFile,
    /// Its lock is taken, without waiting for it.
    TryLock,
    /// The opened lock file tells which file it is.
    StatOpened,
    /// The lock file on disk tells which file it is.
    StatOnDisk,
    /// The socket file is removed, if there is one.
    RemoveSocketFile,
    /// A socket is bound to the address.
    Bind,
    /// The socket is set not to block.
    SetNonblocking,
    /// The socket tells its own address.
    LocalAddr,
    /// The socket is handed to the runtime.
    Adopt,
    /// The listener was made.
    Registered,
    /// The listener could not be made.
    Failed,
}

/// The reply to what was asked last.
pub enum ListenReply<F> {
    /// It was done.
    Done,
    /// The lock file is open.
    Opened(F),
    /// The lock is held elsewhere.
    WouldBlock,
    /// The file is this one.
    Identity { dev: u64, ino: u64 },
    /// The address is this one.
    Address(SocketAddr),
    /// It failed for this cause.
    Failed(String),
    /// Whoever was to work on files did not come back, for this cause.
    Lost(String),
}

/// A `ListenReply` as a value.
pub enum ListenReplyView<F> {
    Done,
    Opened(F),
    WouldBlock,
    Identity { dev: u64, ino: u64 },
    Address(SocketAddrView),
    Failed(Seq<char>),
    Lost(Seq<char>),
}

impl<F> View for ListenReply<F> {
    type V = ListenReplyView<F>;

    open spec fn view(&self) -> ListenReplyView<F> {
        match *self {
            ListenReply::Done => ListenReplyView::Done,
            ListenReply::Opened(file) => ListenReplyView::Opened(file),
            ListenReply::WouldBlock => ListenReplyView::WouldBlock,
            ListenReply::Identity { dev, ino } => ListenReplyView::Identity { dev, ino },
            ListenReply::Address(address) => ListenReplyView::Address(address@),
            ListenReply::Failed(cause) => ListenReplyView::Failed(cause@),
            ListenReply::Lost(cause) => ListenReplyView::Lost(cause@),
        }
    }
}

/// What is asked next, or how the listener ended.
pub enum ListenAction {
    /// Make a socket address of this one.
    Resolve(SocketAddr),
    /// Open, or create, the lock file with this path.
    OpenLockFile(String),
    /// Take the lock of the opened file, without waiting for it.
    TryLock,
    /// Ask which file the opened one is.
    StatOpened,
    /// Ask which file has this path now.
    StatOnDisk(String),
    /// Remove the file with this path, if there is one.
    RemoveSocketFile(String),
    /// Bind a socket to this address.
    Bind(SocketAddr),
    /// Set the socket not to block.
    SetNonblocking,
    /// Ask the socket for its own address.
    LocalAddr,
    /// Hand the socket to the runtime.
    Adopt,
    /// Accept links under this path, keep the listener with its endpoint, and give its locator
    /// out. A lock that was taken is kept with it.
    Register { path: String, endpoint: EndPoint, locator: Locator, locked: bool },
    /// Give up with this error.
    Fail(LinkError),
}

/// A `ListenAction` as a value.
pub enum ListenActionView {
    Resolve(SocketAddrView),
    OpenLockFile(Seq<char>),
    TryLock,
    StatOpened,
    StatOnDisk(Seq<char>),
    RemoveSocketFile(Seq<char>),
    Bind(SocketAddrView),
    SetNonblocking,
    LocalAddr,
    Adopt,
    Register { path: Seq<char>, endpoint: Seq<char>, locator: Seq<char>, locked: bool },
    Fail(LinkErrorView),
}

impl View for ListenAction {
    type V = ListenActionView;

    open spec fn view(&self) -> ListenActionView {
        match *self {
            ListenAction::Resolve(address) => ListenActionView::Resolve(address@),
            ListenAction::OpenLockFile(path) => ListenActionView::OpenLockFile(path@),
            ListenAction::TryLock => ListenActionView::TryLock,
            ListenAction::StatOpened => ListenActionView::StatOpened,
            ListenAction::StatOnDisk(path) => ListenActionView::StatOnDisk(path@),
            ListenAction::RemoveSocketFile(path) => ListenActionView::RemoveSocketFile(path@),
            ListenAction::Bind(address) => ListenActionView::Bind(address@),
            ListenAction::SetNonblocking => ListenActionView::SetNonblocking,
            ListenAction::LocalAddr => ListenActionView::LocalAddr,
            ListenAction::Adopt => ListenActionView::Adopt,
            ListenAction::Register { path, endpoint, locator, locked }
                => ListenActionView::Register {
                path: path@,
                endpoint: endpoint@,
                locator: locator@,
                locked,
            },
            ListenAction::Fail(error) => ListenActionView::Fail(error@),
        }
    }
}

/// A listener that is being opened, as a value: its endpoint, what it waits for, the lock file
/// that it keeps open, which file that is, and the path of its socket, the last two once they are
/// known.
pub struct NewListenerView<F> {
    pub endpoint: Seq<char>,
    pub stage: ListenStage,
    pub lock_file: Option<F>,
    pub opened: Option<(u64, u64)>,
    pub local: Option<Seq<char>>,
}

impl<F> NewListenerView<F> {
    /// The path to listen on.
    pub open spec fn path(self) -> Seq<char> {
        endpoint::address_of(self.endpoint)
    }

    /// What is said against an endpoint for a socket with the path `local`, if anything.
    pub open spec fn refusal_at(self, local: Seq<char>) -> Option<LinkErrorView> {
        endpoint::refusal(
            endpoint::protocol_of(self.endpoint),
            local,
            endpoint::metadata_of(self.endpoint),
            endpoint::config_of(self.endpoint),
        )
    }

    /// The endpoint of a socket with the path `local`.
    pub open spec fn endpoint_at(self, local: Seq<char>) -> Seq<char> {
        endpoint::endpoint_text(
            endpoint::protocol_of(self.endpoint),
            local,
            endpoint::metadata_of(self.endpoint),
            endpoint::config_of(self.endpoint),
        )
    }
}

/// The stage after `stage`, where what was asked is done. Only a listener on a file has a lock.
pub open spec fn listen_after(stage: ListenStage, is_abstract: bool) -> ListenStage {
    match stage {
        ListenStage::Resolve => if is_abstract {
            ListenStage::Bind
        } else {
            ListenStage::OpenLockFile
        },
        ListenStage::OpenLockFile => ListenStage::TryLock,
        ListenStage::TryLock => ListenStage::StatOpened,
        ListenStage::StatOpened => ListenStage::StatOnDisk,
        ListenStage::StatOnDisk => ListenStage::RemoveSocketFile,
        ListenStage::RemoveSocketFile => ListenStage::Bind,
        ListenStage::Bind => ListenStage::SetNonblocking,
        ListenStage::SetNonblocking => ListenStage::LocalAddr,
        ListenStage::LocalAddr => ListenStage::Adopt,
        ListenStage::Adopt => ListenStage::Registered,
        _ => stage,
    }
}

/// The stages at which the lock file or the socket file is worked on.
pub open spec fn on_files(stage: ListenStage) -> bool {
    match stage {
        ListenStage::OpenLockFile
        | ListenStage::TryLock
        | ListenStage::StatOpened
        | ListenStage::StatOnDisk
        | ListenStage::RemoveSocketFile => true,
        _ => false,
    }
}

/// The replies that `stage` can get. Only those who work on files can be lost.
pub open spec fn listen_expects<F>(stage: ListenStage, reply: ListenReplyView<F>) -> bool {
    match (stage, reply) {
        (ListenStage::Registered, _) | (ListenStage::Failed, _) => false,
        (_, ListenReplyView::Failed(_)) => true,
        (_, ListenReplyView::Lost(_)) => on_files(stage),
        (ListenStage::TryLock, _) => reply is Done || reply is WouldBlock,
        (ListenStage::StatOpened, _) | (ListenStage::StatOnDisk, _) => reply is Identity,
        (ListenStage::LocalAddr, _) => reply is Address,
        (ListenStage::OpenLockFile, _) => reply is Opened,
        _ => reply is Done,
    }
}

/// The error that `reply` ends the listener in, if it does. Nothing depends on whether there was
/// a socket file to remove.
pub open spec fn listen_failure<F>(s: NewListenerView<F>, reply: ListenReplyView<F>) -> Option<
    LinkErrorView,
> {
    let path = s.path();
    match (s.stage, reply) {
        (_, ListenReplyView::Lost(cause)) => Some(LinkErrorView::WorkerLost { cause }),
        (ListenStage::RemoveSocketFile, _) => None,
        (ListenStage::OpenLockFile, ListenReplyView::Failed(cause))
            => Some(LinkErrorView::LockFileNotOpened { path, cause }),
        (ListenStage::TryLock, ListenReplyView::WouldBlock)
            => Some(LinkErrorView::LockHeld { path }),
        (ListenStage::TryLock, ListenReplyView::Failed(cause))
            => Some(LinkErrorView::LockNotTaken { path, cause }),
        (ListenStage::StatOnDisk, ListenReplyView::Identity { dev, ino })
            => if s.opened == Some((dev, ino)) {
            None
        } else {
            Some(LinkErrorView::LockFileSubstituted { path })
        },
        (ListenStage::Bind, ListenReplyView::Failed(cause))
            => Some(LinkErrorView::ListenerNotBound { path, cause }),
        (ListenStage::LocalAddr, ListenReplyView::Failed(cause))
            => Some(LinkErrorView::ListenerNotBound { path, cause }),
        (ListenStage::LocalAddr, ListenReplyView::Address(address))
            => if address::address_path(address) is Some {
            None
        } else {
            Some(LinkErrorView::ListenerUnaddressed { path })
        },
        (ListenStage::Adopt, ListenReplyView::Done) => s.refusal_at(s.local->0),
        (_, ListenReplyView::Failed(cause)) => Some(LinkErrorView::Io { cause }),
        _ => None,
    }
}

/// What the listener asks for in state `s`, if it has not failed.
pub open spec fn listen_request<F>(s: NewListenerView<F>) -> ListenActionView
    recommends
        s.stage != ListenStage::Failed,
{
    match s.stage {
        ListenStage::Resolve => ListenActionView::Resolve(address::named_address(s.path())),
        ListenStage::OpenLockFile => ListenActionView::OpenLockFile(lock_file_path(s.path())),
        ListenStage::TryLock => ListenActionView::TryLock,
        ListenStage::StatOpened => ListenActionView::StatOpened,
        ListenStage::StatOnDisk => ListenActionView::StatOnDisk(lock_file_path(s.path())),
        ListenStage::RemoveSocketFile => ListenActionView::RemoveSocketFile(s.path()),
        ListenStage::Bind => ListenActionView::Bind(address::named_address(s.path())),
        ListenStage::SetNonblocking => ListenActionView::SetNonblocking,
        ListenStage::LocalAddr => ListenActionView::LocalAddr,
        ListenStage::Adopt => ListenActionView::Adopt,
        _ => ListenActionView::Register {
            path: s.local->0,
            endpoint: s.endpoint_at(s.local->0),
            locator: endpoint::locator_of(s.endpoint_at(s.local->0)),
            locked: !address::is_abstract(s.path()),
        },
    }
}

/// The state that a listener on `endpoint` starts in.
pub open spec fn listen_start<F>(endpoint: Seq<char>) -> NewListenerView<F> {
    NewListenerView {
        endpoint,
        stage: ListenStage::Resolve,
        lock_file: None,
        opened: None,
        local: None,
    }
}

/// The state after `reply`, and what is asked then. A listener that failed keeps no lock file.
pub open spec fn listen_next<F>(s: NewListenerView<F>, reply: ListenReplyView<F>) -> (
    NewListenerView<F>,
    ListenActionView,
) {
    match listen_failure(s, reply) {
        Some(error) => (
            NewListenerView { stage: ListenStage::Failed, lock_file: None, ..s },
            ListenActionView::Fail(error),
        ),
        None => {
            let next = NewListenerView {
                stage: listen_after(s.stage, address::is_abstract(s.path())),
                lock_file: if s.stage == ListenStage::OpenLockFile {
                    Some(reply->Opened_0)
                } else {
                    s.lock_file
                },
                opened: if s.stage == ListenStage::StatOpened {
                    Some((reply->dev, reply->ino))
                } else {
                    s.opened
                },
                local: if s.stage == ListenStage::LocalAddr {
                    address::address_path(reply->Address_0)
                } else {
                    s.local
                },
                ..s
            };
            (next, listen_request(next))
        },
    }
}

/// A listener that is being opened. It owns the lock file from when that is opened: where the
/// listener fails, the file is closed, and its lock with it.
pub struct NewListener<F> {
    endpoint: EndPoint,
    path: String,
    stage: ListenStage,
    lock_file: Option<F>,
    opened: Option<(u64, u64)>,
    local: Option<String>,
}

impl<F> View for NewListener<F> {
    type V = NewListenerView<F>;

    closed spec fn view(&self) -> NewListenerView<F> {
        NewListenerView {
            endpoint: self.endpoint@,
            stage: self.stage,
            lock_file: self.lock_file,
            opened: self.opened,
            local: match self.local {
                Some(path) => Some(path@),
                None => None,
            },
        }
    }
}

impl<F> NewListener<F> {
    #[verifier::type_invariant]
    closed spec fn inv(self) -> bool {
        &&& self.path@ == endpoint::address_of(self.endpoint@)
        &&& self.stage == ListenStage::StatOnDisk ==> self.opened is Some
        &&& self.stage == ListenStage::Adopt ==> self.local is Some
    }

    /// Starts to open a listener on `endpoint`, and tells what to do first. An address that the
    /// system cannot hold is refused: nothing is ever bound to it.
    pub fn start(endpoint: EndPoint, abstract_names: bool, capacity: usize) -> (started: Result<
        (NewListener<F>, ListenAction),
        LinkError,
    >)
        ensures
            started is Err <==> address::is_abstract(endpoint::address_of(endpoint@))
                && !abstract_names || !address::system_holds(
                address::named_address(endpoint::address_of(endpoint@)),
                capacity as nat,
            ),
            started matches Ok(r) ==> {
                &&& r.0@ == listen_start::<F>(endpoint@)
                &&& r.1@ == listen_request(listen_start::<F>(endpoint@))
            },
            started matches Err(e) ==> e@ == address::address_refusal(
                endpoint::address_of(endpoint@),
                abstract_names,
            ),
    {
        let path: String = endpoint.address();
        match address::to_socket_addr(path.as_str(), abstract_names, capacity) {
            Ok((addr, _)) => Ok(
                (
                    NewListener {
                        endpoint,
                        path,
                        stage: ListenStage::Resolve,
                        lock_file: None,
                        opened: None,
                        local: None,
                    },
                    ListenAction::Resolve(addr),
                ),
            ),
            Err(e) => Err(e),
        }
    }

    /// The lock file, while it is kept open.
    pub fn get_lock_file(&self) -> (file: Option<&F>)
        ensures
            file is Some <==> self@.lock_file is Some,
            file matches Some(f) ==> self@.lock_file == Some(*f),
    {
        match &self.lock_file {
            Some(file) => Some(file),
            None => None,
        }
    }

    /// Hands over the lock file of a listener that was made.
    pub fn into_lock_file(self) -> (file: Option<F>)
        ensures
            file == self@.lock_file,
    {
        self.lock_file
    }

    /// Tells whether `reply` can answer what was asked last.
    pub fn expects(&self, reply: &ListenReply<F>) -> (answer: bool)
        ensures
            answer == listen_expects(self@.stage, reply@),
    {
        match (self.stage, reply) {
            (ListenStage::Registered, _) => false,
            (ListenStage::Failed, _) => false,
            (_, ListenReply::Failed(_)) => true,
            (_, ListenReply::Lost(_)) => self.works_on_files(),
            (ListenStage::TryLock, ListenReply::WouldBlock) => true,
            (ListenStage::StatOpened, ListenReply::Identity { .. }) => true,
            (ListenStage::StatOnDisk, ListenReply::Identity { .. }) => true,
            (ListenStage::LocalAddr, ListenReply::Address(_)) => true,
            (ListenStage::StatOpened, _) => false,
            (ListenStage::StatOnDisk, _) => false,
            (ListenStage::LocalAddr, _) => false,
            (ListenStage::OpenLockFile, ListenReply::Opened(_)) => true,
            (ListenStage::OpenLockFile, _) => false,
            (_, ListenReply::Done) => true,
            _ => false,
        }
    }

    /// Tells whether the lock that keeps other listeners off the socket file is still to be
    /// taken, or the socket file to be removed.
    pub fn works_on_files(&self) -> (answer: bool)
        ensures
            answer == on_files(self@.stage),
    {
        match self.stage {
            ListenStage::OpenLockFile => true,
            ListenStage::TryLock => true,
            ListenStage::StatOpened => true,
            ListenStage::StatOnDisk => true,
            ListenStage::RemoveSocketFile => true,
            _ => false,
        }
    }

    /// Gives up with `error`, and lets go of the lock file.
    fn fail(self, error: LinkError) -> (next: (NewListener<F>, ListenAction))
        ensures
            next.0@ == (NewListenerView { stage: ListenStage::Failed, lock_file: None, ..self@ }),
            next.1@ == ListenActionView::Fail(error@),
    {
        proof {
            use_type_invariant(&self);
        }
        (
            NewListener { stage: ListenStage::Failed, lock_file: None, ..self },
            ListenAction::Fail(error),
        )
    }

    /// Goes on to bind the socket.
    fn bind(self) -> (next: (NewListener<F>, ListenAction))
        ensures
            next.0@ == (NewListenerView { stage: ListenStage::Bind, ..self@ }),
            next.1@ == ListenActionView::Bind(address::named_address(self@.path())),
    {
        proof {
            use_type_invariant(&self);
        }
        let addr: SocketAddr = address::address_named(self.path.as_str());
        (NewListener { stage: ListenStage::Bind, ..self }, ListenAction::Bind(addr))
    }

    /// Goes on after a step at which `cause` says what failed.
    fn step_failed(self, cause: String) -> (next: (NewListener<F>, ListenAction))
        requires
            listen_expects(self@.stage, ListenReplyView::<F>::Failed(cause@)),
        ensures
            (next.0@, next.1@) == listen_next(self@, ListenReplyView::Failed(cause@)),
    {
        proof {
            use_type_invariant(&self);
        }
        let path: String = self.path.clone();
        match self.stage {
            ListenStage::RemoveSocketFile => self.bind(),
            ListenStage::OpenLockFile => self.fail(LinkError::LockFileNotOpened { path, cause }),
            ListenStage::TryLock => self.fail(LinkError::LockNotTaken { path, cause }),
            ListenStage::Bind => self.fail(LinkError::ListenerNotBound { path, cause }),
            ListenStage::LocalAddr => self.fail(LinkError::ListenerNotBound { path, cause }),
            _ => self.fail(LinkError::Io { cause }),
        }
    }

    /// Ends the listener: its socket was adopted, and gets an endpoint if there can be one.
    fn register(self) -> (next: (NewListener<F>, ListenAction))
        requires
            self@.stage == ListenStage::Adopt,
        ensures
            (next.0@, next.1@) == listen_next(self@, ListenReplyView::Done),
    {
        proof {
            use_type_invariant(&self);
        }
        let path: String = self.local.clone().unwrap();
        let protocol: String = self.endpoint.protocol();
        let metadata: String = self.endpoint.metadata();
        let config: String = self.endpoint.config();
        let made = EndPoint::new(
            protocol.as_str(),
            path.as_str(),
            metadata.as_str(),
            config.as_str(),
        );
        match made {
            Ok(endpoint) => {
                let locator: Locator = endpoint.to_locator();
                let locked: bool = !address::names_abstract(self.path.as_str());
                (
                    NewListener { stage: ListenStage::Registered, ..self },
                    ListenAction::Register { path, endpoint, locator, locked },
                )
            },
            Err(error) => self.fail(error),
        }
    }

    /// Takes the reply to what was asked last and tells what to do next.
    pub fn step(self, reply: ListenReply<F>) -> (next: (NewListener<F>, ListenAction))
        requires
            listen_expects(self@.stage, reply@),
        ensures
            (next.0@, next.1@) == listen_next(self@, reply@),
    {
        proof {
            use_type_invariant(&self);
        }
        match reply {
            ListenReply::Failed(cause) => self.step_failed(cause),
            ListenReply::Lost(cause) => self.fail(LinkError::WorkerLost { cause }),
            ListenReply::Opened(file) => (
                NewListener { stage: ListenStage::TryLock, lock_file: Some(file), ..self },
                ListenAction::TryLock,
            ),
            ListenReply::WouldBlock => {
                let path: String = self.path.clone();
                self.fail(LinkError::LockHeld { path })
            },
            ListenReply::Identity { dev, ino } => {
                if self.stage == ListenStage::StatOpened {
                    let lock_path: String = lock_file_beside(self.path.as_str());
                    (
                        NewListener {
                            stage: ListenStage::StatOnDisk,
                            opened: Some((dev, ino)),
                            ..self
                        },
                        ListenAction::StatOnDisk(lock_path),
                    )
                } else {
                    let opened: (u64, u64) = self.opened.unwrap();
                    let path: String = self.path.clone();
                    if opened.0 != dev || opened.1 != ino {
                        self.fail(LinkError::LockFileSubstituted { path })
                    } else {
                        (
                            NewListener { stage: ListenStage::RemoveSocketFile, ..self },
                            ListenAction::RemoveSocketFile(path),
                        )
                    }
                }
            },
            ListenReply::Address(addr) => {
                match address::socket_addr_to_string(&addr) {
                    Some(local) => (
                        NewListener { stage: ListenStage::Adopt, local: Some(local), ..self },
                        ListenAction::Adopt,
                    ),
                    None => {
                        let path: String = self.path.clone();
                        self.fail(LinkError::ListenerUnaddressed { path })
                    },
                }
            },
            ListenReply::Done => {
                match self.stage {
                    ListenStage::Resolve => {
                        if address::names_abstract(self.path.as_str()) {
                            self.bind()
                        } else {
                            let lock_path: String = lock_file_beside(self.path.as_str());
                            (
                                NewListener { stage: ListenStage::OpenLockFile, ..self },
                                ListenAction::OpenLockFile(lock_path),
                            )
                        }
                    },
                    ListenStage::TryLock => (
                        NewListener { stage: ListenStage::StatOpened, ..self },
                        ListenAction::StatOpened,
                    ),
                    ListenStage::RemoveSocketFile => self.bind(),
                    ListenStage::Bind => (
                        NewListener { stage: ListenStage::SetNonblocking, ..self },
                        ListenAction::SetNonblocking,
                    ),
                    ListenStage::SetNonblocking => (
                        NewListener { stage: ListenStage::LocalAddr, ..self },
                        ListenAction::LocalAddr,
                    ),
                    _ => self.register(),
                }
            },
        }
    }
}

/// The state of a listener on `endpoint` after `replies`.
pub open spec fn listen_run<F>(
    endpoint: Seq<char>,
    replies: Seq<ListenReplyView<F>>,
) -> NewListenerView<F>
    decreases replies.len(),
{
    if replies.len() == 0 {
        listen_start(endpoint)
    } else {
        listen_next(listen_run(endpoint, replies.drop_last()), replies.last()).0
    }
}

/// Every one of `replies` answers what was asked before it.
pub open spec fn listen_answered<F>(endpoint: Seq<char>, replies: Seq<ListenReplyView<F>>) -> bool
    decreases replies.len(),
{
    replies.len() > 0 ==> {
        &&& listen_answered(endpoint, replies.drop_last())
        &&& listen_expects(listen_run(endpoint, replies.drop_last()).stage, replies.last())
    }
}

/// How many steps lead to `stage`, of those that do not end in failure.
pub open spec fn listen_steps(stage: ListenStage, is_abstract: bool) -> int {
    let files: int = if is_abstract { 0 } else { 5 };
    match stage {
        ListenStage::Resolve => 0,
        ListenStage::OpenLockFile => 1,
        ListenStage::TryLock => 2,
        ListenStage::StatOpened => 3,
        ListenStage::StatOnDisk => 4,
        ListenStage::RemoveSocketFile => 5,
        ListenStage::Bind => 1 + files,
        ListenStage::SetNonblocking => 2 + files,
        ListenStage::LocalAddr => 3 + files,
        ListenStage::Adopt => 4 + files,
        _ => 5 + files,
    }
}

/// The lock was granted and its file found to be the one on disk, by `replies` to a listener on
/// a file.
pub open spec fn lock_secured<F>(replies: Seq<ListenReplyView<F>>) -> bool {
    &&& replies.len() >= 5
    &&& replies[1] is Opened
    &&& replies[2] is Done
    &&& replies[3] is Identity
    &&& replies[4] == replies[3]
}

/// A listener goes through its steps one by one, in their order, until a reply ends it. In the
/// abstract namespace it skips those that work on files.
pub proof fn lemma_listen_progress<F>(endpoint: Seq<char>, replies: Seq<ListenReplyView<F>>)
    requires
        listen_answered(endpoint, replies),
    ensures
        listen_run(endpoint, replies).endpoint == endpoint,
        listen_run(endpoint, replies).stage != ListenStage::Failed ==> listen_steps(
            listen_run(endpoint, replies).stage,
            address::is_abstract(endpoint::address_of(endpoint)),
        ) == replies.len(),
        address::is_abstract(endpoint::address_of(endpoint)) ==> !on_files(
            listen_run(endpoint, replies).stage,
        ),
        listen_run(endpoint, replies).stage == ListenStage::Failed ==> {
            &&& replies.len() > 0
            &&& listen_run(endpoint, replies.drop_last()).stage != ListenStage::Failed
            &&& listen_failure(listen_run(endpoint, replies.drop_last()), replies.last()) is Some
        },
    decreases replies.len(),
{
    if replies.len() > 0 {
        lemma_listen_progress(endpoint, replies.drop_last());
    }
}

/// A listener in the abstract namespace never works on a file.
pub proof fn lemma_abstract_listener_leaves_files_alone<F>(
    endpoint: Seq<char>,
    replies: Seq<ListenReplyView<F>>,
)
    requires
        listen_answered(endpoint, replies),
        address::is_abstract(endpoint::address_of(endpoint)),
    ensures
        !on_files(listen_run(endpoint, replies).stage),
{
    lemma_listen_progress(endpoint, replies);
}

/// What the replies so far say of a listener on a file that has not failed.
proof fn lemma_file_listener<F>(endpoint: Seq<char>, replies: Seq<ListenReplyView<F>>)
    requires
        listen_answered(endpoint, replies),
        !address::is_abstract(endpoint::address_of(endpoint)),
        listen_run(endpoint, replies).stage != ListenStage::Failed,
    ensures
        replies.len() >= 2 ==> replies[1] is Opened,
        replies.len() >= 3 ==> replies[2] is Done,
        replies.len() >= 4 ==> {
            &&& replies[3] is Identity
            &&& listen_run(endpoint, replies).opened == Some((replies[3]->dev, replies[3]->ino))
        },
        replies.len() >= 5 ==> replies[4] == replies[3],
    decreases replies.len(),
{
    if replies.len() > 0 {
        let before = replies.drop_last();
        lemma_listen_progress(endpoint, before);
        lemma_file_listener(endpoint, before);
        assert forall|i: int| 0 <= i < replies.len() - 1 implies replies[i] == before[i] by {}
    }
}

/// The socket file is removed, and a socket bound in its place, only by a listener that holds
/// the lock: every listener on a file that comes to either was granted the lock, and found its
/// lock file to be the one on disk.
pub proof fn lemma_socket_file_needs_the_lock<F>(
    endpoint: Seq<char>,
    replies: Seq<ListenReplyView<F>>,
)
    requires
        listen_answered(endpoint, replies),
        !address::is_abstract(endpoint::address_of(endpoint)),
        match listen_run(endpoint, replies).stage {
            ListenStage::RemoveSocketFile
            | ListenStage::Bind
            | ListenStage::SetNonblocking
            | ListenStage::LocalAddr
            | ListenStage::Adopt
            | ListenStage::Registered => true,
            _ => false,
        },
    ensures
        lock_secured(replies),
{
    lemma_listen_progress(endpoint, replies);
    lemma_file_listener(endpoint, replies);
}

/// A lock that is not granted ends the listener, and so does a lock file that is not the one on
/// disk.
pub proof fn lemma_lock_not_secured_ends_listener<F>(
    endpoint: Seq<char>,
    replies: Seq<ListenReplyView<F>>,
)
    requires
        listen_answered(endpoint, replies),
        !address::is_abstract(endpoint::address_of(endpoint)),
    ensures
        replies.len() >= 3 && !(replies[2] is Done) ==> listen_run(endpoint, replies).stage
            == ListenStage::Failed,
        replies.len() >= 5 && replies[4] != replies[3] ==> listen_run(endpoint, replies).stage
            == ListenStage::Failed,
{
    if listen_run(endpoint, replies).stage != ListenStage::Failed {
        lemma_file_listener(endpoint, replies);
    }
}

/// A listener keeps the lock file open from when it was opened until the listener fails: a
/// listener on a file that was made has the file that was opened for it, and one that failed has
/// none, whatever it was granted before. So a lock is never held for a listener that could not be
/// made.
pub proof fn lemma_lock_file_kept<F>(endpoint: Seq<char>, replies: Seq<ListenReplyView<F>>)
    requires
        listen_answered(endpoint, replies),
    ensures
        ({
            let s = listen_run(endpoint, replies);
            let is_abstract = address::is_abstract(endpoint::address_of(endpoint));
            &&& s.stage == ListenStage::Failed ==> s.lock_file is None
            &&& is_abstract ==> s.lock_file is None
            &&& s.stage != ListenStage::Failed && !is_abstract && replies.len() >= 2 ==> {
                &&& replies[1] is Opened
                &&& s.lock_file == Some(replies[1]->Opened_0)
            }
            &&& replies.len() < 2 ==> s.lock_file is None
        }),
    decreases replies.len(),
{
    lemma_listen_progress(endpoint, replies);
    if replies.len() > 0 {
        lemma_listen_progress(endpoint, replies.drop_last());
        lemma_lock_file_kept(endpoint, replies.drop_last());
        if replies.len() > 2 {
            assert(replies.drop_last()[1] == replies[1]);
        }
    }
}

/// A listener that failed has ended: nothing is asked any more, it is never registered, and no
/// lock file is kept open for it.
pub proof fn lemma_failed_listener_is_over<F>(
    endpoint: Seq<char>,
    replies: Seq<ListenReplyView<F>>,
    more: Seq<ListenReplyView<F>>,
)
    requires
        listen_answered(endpoint, replies),
        listen_run(endpoint, replies).stage == ListenStage::Failed,
        listen_answered(endpoint, replies + more),
    ensures
        more.len() == 0,
        listen_run(endpoint, replies).lock_file is None,
    decreases more.len(),
{
    lemma_lock_file_kept(endpoint, replies);
    if more.len() > 0 {
        let fewer = more.drop_last();
        assert((replies + more).drop_last() =~= replies + fewer);
        lemma_failed_listener_is_over(endpoint, replies, fewer);
        assert(replies + fewer =~= replies);
    }
}

/// The path of the socket of a listener that was not ended by its address.
proof fn lemma_local_path<F>(endpoint: Seq<char>, replies: Seq<ListenReplyView<F>>, at: int)
    requires
        listen_answered(endpoint, replies),
        listen_run(endpoint, replies).stage != ListenStage::Failed,
        at == listen_steps(
            ListenStage::LocalAddr,
            address::is_abstract(endpoint::address_of(endpoint)),
        ),
        replies.len() > at,
    ensures
        replies[at] is Address,
        address::address_path(replies[at]->Address_0) is Some,
        listen_run(endpoint, replies).local == address::address_path(replies[at]->Address_0),
    decreases replies.len(),
{
    let before = replies.drop_last();
    lemma_listen_progress(endpoint, before);
    lemma_listen_progress(endpoint, replies);
    if replies.len() > at + 1 {
        lemma_local_path(endpoint, before, at);
        assert(before[at] == replies[at]);
    }
}

/// A listener that was made is known under the path of its socket. Its endpoint is the one asked
/// for with that path as the address, and it keeps the lock exactly if it listens on a file.
pub proof fn lemma_registered<F>(endpoint: Seq<char>, replies: Seq<ListenReplyView<F>>)
    requires
        listen_answered(endpoint, replies),
        listen_run(endpoint, replies).stage == ListenStage::Registered,
    ensures
        ({
            let is_abstract = address::is_abstract(endpoint::address_of(endpoint));
            let at = listen_steps(ListenStage::LocalAddr, is_abstract);
            let s = listen_run(endpoint, replies);
            let local = address::address_path(replies[at]->Address_0)->0;
            &&& replies.len() == at + 2
            &&& replies[at] is Address
            &&& address::address_path(replies[at]->Address_0) is Some
            &&& s.refusal_at(local) is None
            &&& listen_request(s) == (ListenActionView::Register {
                path: local,
                endpoint: s.endpoint_at(local),
                locator: endpoint::locator_of(s.endpoint_at(local)),
                locked: !is_abstract,
            })
        }),
{
    let is_abstract = address::is_abstract(endpoint::address_of(endpoint));
    let before = replies.drop_last();
    lemma_listen_progress(endpoint, replies);
    lemma_listen_progress(endpoint, before);
    lemma_local_path(endpoint, replies, listen_steps(ListenStage::LocalAddr, is_abstract));
}

/// The replies with which a listener on `endpoint` comes to be registered: the system takes the
/// address; on a file, the lock is secured and whoever removes the socket file comes back; a
/// socket is bound and set not to block; its address has a path that an endpoint can hold; and
/// the runtime takes it.
pub open spec fn opens<F>(endpoint: Seq<char>, replies: Seq<ListenReplyView<F>>) -> bool {
    let is_abstract = address::is_abstract(endpoint::address_of(endpoint));
    let at = listen_steps(ListenStage::LocalAddr, is_abstract);
    &&& replies.len() == at + 2
    &&& replies[0] is Done
    &&& !is_abstract ==> lock_secured(replies) && (replies[5] is Done || replies[5] is Failed)
    &&& replies[at - 2] is Done
    &&& replies[at - 1] is Done
    &&& replies[at] is Address
    &&& address::address_path(replies[at]->Address_0) is Some
    &&& replies[at + 1] is Done
    &&& listen_start::<F>(endpoint).refusal_at(
        address::address_path(replies[at]->Address_0)->0,
    ) is None
}

/// What the replies so far say of any listener that has not failed.
proof fn lemma_replies_so_far<F>(endpoint: Seq<char>, replies: Seq<ListenReplyView<F>>)
    requires
        listen_answered(endpoint, replies),
        listen_run(endpoint, replies).stage != ListenStage::Failed,
    ensures
        ({
            let is_abstract = address::is_abstract(endpoint::address_of(endpoint));
            let at = listen_steps(ListenStage::LocalAddr, is_abstract);
            &&& replies.len() >= 1 ==> replies[0] is Done
            &&& !is_abstract && replies.len() >= 6 ==> replies[5] is Done || replies[5] is Failed
            &&& replies.len() >= at - 1 ==> replies[at - 2] is Done
            &&& replies.len() >= at ==> replies[at - 1] is Done
            &&& replies.len() >= at + 2 ==> replies[at + 1] is Done
        }),
    decreases replies.len(),
{
    if replies.len() > 0 {
        let before = replies.drop_last();
        lemma_listen_progress(endpoint, before);
        lemma_replies_so_far(endpoint, before);
        assert forall|i: int| 0 <= i < replies.len() - 1 implies replies[i] == before[i] by {}
    }
}

/// A listener is registered when every step went well, and not otherwise.
pub proof fn lemma_listener_registered<F>(endpoint: Seq<char>, replies: Seq<ListenReplyView<F>>)
    requires
        listen_answered(endpoint, replies),
    ensures
        listen_run(endpoint, replies).stage == ListenStage::Registered <==> opens(
            endpoint,
            replies,
        ),
{
    let is_abstract = address::is_abstract(endpoint::address_of(endpoint));
    let at = listen_steps(ListenStage::LocalAddr, is_abstract);
    let s = listen_run(endpoint, replies);
    lemma_listen_progress(endpoint, replies);
    if s.stage == ListenStage::Registered {
        lemma_registered(endpoint, replies);
        lemma_replies_so_far(endpoint, replies);
        if !is_abstract {
            lemma_file_listener(endpoint, replies);
        }
    }
    if opens(endpoint, replies) {
        let before = replies.drop_last();
        lemma_listen_progress(endpoint, before);
        assert(before[at] == replies[at]);
        if s.stage == ListenStage::Failed {
            lemma_local_path(endpoint, before, at);
        }
    }
}

/// The endpoint of a socket has the protocol that was asked for and, as its address, the path of
/// the socket, unless that path holds `?` or `#`. Its metadata and its configuration are the
/// normal forms of those that were asked for, and so the same where these are in normal form.
pub proof fn lemma_endpoint_at<F>(s: NewListenerView<F>, local: Seq<char>)
    requires
        endpoint::is_endpoint(s.endpoint),
        s.refusal_at(local) is None,
        !local.contains('?') && !local.contains('#'),
    ensures
        endpoint::protocol_of(s.endpoint_at(local)) == endpoint::protocol_of(s.endpoint),
        endpoint::address_of(s.endpoint_at(local)) == local,
        endpoint::metadata_of(s.endpoint_at(local)) == parameters::normal(
            endpoint::metadata_of(s.endpoint),
        ),
        endpoint::config_of(s.endpoint_at(local)) == parameters::normal(
            endpoint::config_of(s.endpoint),
        ),
        endpoint::is_normal(s.endpoint) ==> {
            &&& endpoint::metadata_of(s.endpoint_at(local)) == endpoint::metadata_of(s.endpoint)
            &&& endpoint::config_of(s.endpoint_at(local)) == endpoint::config_of(s.endpoint)
        },
{
    let protocol = endpoint::protocol_of(s.endpoint);
    let metadata = endpoint::metadata_of(s.endpoint);
    let config = endpoint::config_of(s.endpoint);
    endpoint::lemma_parts_are_plain(s.endpoint);
    endpoint::lemma_joined_parts(protocol, local, metadata, config);
    endpoint::lemma_joined_rest(protocol, local, metadata, config);
    endpoint::lemma_normalized(endpoint::joined(protocol, local, metadata, config));
    endpoint::lemma_normalized(s.endpoint);
}

/// A listener whose socket got the address that was asked for is known under the path that was
/// asked for, and that path is the address of its endpoint too. So either endpoint leads back to
/// the listener. An endpoint in its normal form, without an empty part, is kept as it is.
pub proof fn lemma_registered_where_asked<F>(endpoint: Seq<char>, replies: Seq<ListenReplyView<F>>)
    requires
        endpoint::is_endpoint(endpoint),
        listen_answered(endpoint, replies),
        listen_run(endpoint, replies).stage == ListenStage::Registered,
        replies[replies.len() - 2] == ListenReplyView::<F>::Address(
            address::named_address(endpoint::address_of(endpoint)),
        ),
    ensures
        listen_run(endpoint, replies).local == Some(endpoint::address_of(endpoint)),
        ({
            let registered = listen_run(endpoint, replies).endpoint_at(
                endpoint::address_of(endpoint),
            );
            &&& endpoint::protocol_of(registered) == endpoint::protocol_of(endpoint)
            &&& endpoint::address_of(registered) == endpoint::address_of(endpoint)
            &&& endpoint::is_normal(endpoint) && endpoint::is_full_endpoint(endpoint)
                ==> registered == endpoint
        }),
{
    let path = endpoint::address_of(endpoint);
    let s = listen_run(endpoint, replies);
    lemma_registered(endpoint, replies);
    lemma_listen_progress(endpoint, replies);
    assert(path.len() > 0);
    address::lemma_path_round_trip(path);
    endpoint::lemma_parts_are_plain(endpoint);
    lemma_local_path(
        endpoint,
        replies,
        listen_steps(ListenStage::LocalAddr, address::is_abstract(path)),
    );
    lemma_endpoint_at(s, path);
    if endpoint::is_normal(endpoint) && endpoint::is_full_endpoint(endpoint) {
        endpoint::lemma_made_again(endpoint);
    }
}

/// A socket that got the address that was asked for always has an endpoint, where the endpoint
/// asked for has no empty part and at most 255 bytes before its configuration.
pub proof fn lemma_endpoint_where_asked(endpoint: Seq<char>)
    requires
        endpoint::is_full_endpoint(endpoint),
        endpoint::located_bytes(
            endpoint::protocol_of(endpoint),
            endpoint::address_of(endpoint),
            endpoint::metadata_of(endpoint),
        ) <= 255,
    ensures
        endpoint::parts_accepted(
            endpoint::protocol_of(endpoint),
            endpoint::address_of(endpoint),
            endpoint::metadata_of(endpoint),
            endpoint::config_of(endpoint),
        ),
{
    endpoint::lemma_parts_rejoin(endpoint);
}

} // verus!
