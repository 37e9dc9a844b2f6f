//! Taking a listener down: it is stopped first, and what it left on disk is cleared while its
//! lock is still held.

use crate::error::{LinkError, LinkErrorView};
use crate::listen;
use vstd::prelude::*;

verus! {

/// What taking a listener down waits for, or how it ended.
#[derive(Clone, Copy, PartialEq, Eq, Structural)]
pub enum ReleaseStage {
    /// The listener is told to stop.
    Stop,
    /// The listener ends.
    Join,
    /// The socket file is removed.
    RemoveSocketFile,
    /// The lock file is removed.
    RemoveLockFile,
    /// The lock is released.
    Unlock,
    /// The listener is down.
    Released,
    /// The listener did not end well, or its files were not cleared.
    Failed,
}

/// The reply to what was asked last.
pub enum ReleaseReply {
    /// It was done.
    Done,
    /// It failed for this cause.
    Failed(String),
    /// Whoever was to clear files did not come back, for this cause.
    Lost(String),
}

/// A `ReleaseReply` as a value.
pub enum ReleaseReplyView {
    Done,
    Failed(Seq<char>),
    Lost(Seq<char>),
}

impl View for ReleaseReply {
    type V = ReleaseReplyView;

    open spec fn view(&self) -> ReleaseReplyView {
        match *self {
            ReleaseReply::Done => ReleaseReplyView::Done,
            ReleaseReply::Failed(cause) => ReleaseReplyView::Failed(cause@),
            ReleaseReply::Lost(cause) => ReleaseReplyView::Lost(cause@),
        }
    }
}

/// What is asked next, or how it ended.
pub enum ReleaseAction {
    /// Tell the listener to stop.
    Stop,
    /// Wait for the listener to end.
    Join,
    /// Remove the socket file with this path.
    RemoveSocketFile(String),
    /// Remove the lock file with this path.
    RemoveLockFile(String),
    /// Release the lock.
    Unlock,
    /// There is nothing left to do.
    Finish,
    /// Give up with this error.
    Fail(LinkError),
}

/// A `ReleaseAction` as a value.
pub enum ReleaseActionView {
    Stop,
    Join,
    RemoveSocketFile(Seq<char>),
    RemoveLockFile(Seq<char>),
    Unlock,
    Finish,
    Fail(LinkErrorView),
}

impl View for ReleaseAction {
    type V = ReleaseActionView;

    open spec fn view(&self) -> ReleaseActionView {
        match *self {
            ReleaseAction::Stop => ReleaseActionView::Stop,
            ReleaseAction::Join => ReleaseActionView::Join,
            ReleaseAction::RemoveSocketFile(path) => ReleaseActionView::RemoveSocketFile(path@),
            ReleaseAction::RemoveLockFile(path) => ReleaseActionView::RemoveLockFile(path@),
            ReleaseAction::Unlock => ReleaseActionView::Unlock,
            ReleaseAction::Finish => ReleaseActionView::Finish,
            ReleaseAction::Fail(error) => ReleaseActionView::Fail(error@),
        }
    }
}

/// A listener that is being taken down, as a value: its path, whether it holds a lock, and what
/// is waited for.
pub struct ReleaseView {
    pub path: Seq<char>,
    pub locked: bool,
    pub stage: ReleaseStage,
}

/// The stage after `stage`. Only a listener that holds a lock left files behind.
pub open spec fn release_after(stage: ReleaseStage, locked: bool) -> ReleaseStage {
    match stage {
        ReleaseStage::Stop => ReleaseStage::Join,
        ReleaseStage::Join => if locked {
            ReleaseStage::RemoveSocketFile
        } else {
            ReleaseStage::Released
        },
        ReleaseStage::RemoveSocketFile => ReleaseStage::RemoveLockFile,
        ReleaseStage::RemoveLockFile => ReleaseStage::Unlock,
        ReleaseStage::Unlock => ReleaseStage::Released,
        _ => stage,
    }
}

/// The stages at which files are cleared.
pub open spec fn clears_files(stage: ReleaseStage) -> bool {
    match stage {
        ReleaseStage::RemoveSocketFile
        | ReleaseStage::RemoveLockFile
        | ReleaseStage::Unlock => true,
        _ => false,
    }
}

/// The replies that `stage` can get. To be told to stop cannot fail, and only those who clear
/// files can be lost.
pub open spec fn release_expects(stage: ReleaseStage, reply: ReleaseReplyView) -> bool {
    match stage {
        ReleaseStage::Released | ReleaseStage::Failed => false,
        ReleaseStage::Stop => reply is Done,
        ReleaseStage::Join => !(reply is Lost),
        _ => true,
    }
}

/// What is asked for in state `s`, if taking the listener down has not failed.
pub open spec fn release_request(s: ReleaseView) -> ReleaseActionView
    recommends
        s.stage != ReleaseStage::Failed,
{
    match s.stage {
        ReleaseStage::Stop => ReleaseActionView::Stop,
        ReleaseStage::Join => ReleaseActionView::Join,
        ReleaseStage::RemoveSocketFile => ReleaseActionView::RemoveSocketFile(s.path),
        ReleaseStage::RemoveLockFile => ReleaseActionView::RemoveLockFile(
            listen::lock_file_path(s.path),
        ),
        ReleaseStage::Unlock => ReleaseActionView::Unlock,
        _ => ReleaseActionView::Finish,
    }
}

/// The state that taking down the listener on `path` starts in.
pub open spec fn release_start(path: Seq<char>, locked: bool) -> ReleaseView {
    ReleaseView { path, locked, stage: ReleaseStage::Stop }
}

/// The state after `reply`, and what is asked then. A listener that ended badly is left as it
/// is. How the clearing of files went makes no difference, as long as whoever clears them comes
/// back.
pub open spec fn release_next(s: ReleaseView, reply: ReleaseReplyView) -> (
    ReleaseView,
    ReleaseActionView,
) {
    if s.stage == ReleaseStage::Join && reply is Failed {
        (
            ReleaseView { stage: ReleaseStage::Failed, ..s },
            ReleaseActionView::Fail(LinkErrorView::Io { cause: reply->Failed_0 }),
        )
    } else if reply is Lost {
        (
            ReleaseView { stage: ReleaseStage::Failed, ..s },
            ReleaseActionView::Fail(LinkErrorView::WorkerLost { cause: reply->Lost_0 }),
        )
    } else {
        let next = ReleaseView { stage: release_after(s.stage, s.locked), ..s };
        (next, release_request(next))
    }
}

/// A listener that is being taken down.
pub struct Release {
    path: String,
    locked: bool,
    stage: ReleaseStage,
}

impl View for Release {
    type V = ReleaseView;

    closed spec fn view(&self) -> ReleaseView {
        ReleaseView { path: self.path@, locked: self.locked, stage: self.stage }
    }
}

impl Release {
    /// Starts to take down the listener on `path`, and tells what to do first.
    pub fn start(path: String, locked: bool) -> (started: (Release, ReleaseAction))
        ensures
            started.0@ == release_start(path@, locked),
            started.1@ == release_request(release_start(path@, locked)),
    {
        (Release { path, locked, stage: ReleaseStage::Stop }, ReleaseAction::Stop)
    }

    /// Tells whether `reply` can answer what was asked last.
    pub fn expects(&self, reply: &ReleaseReply) -> (answer: bool)
        ensures
            answer == release_expects(self@.stage, reply@),
    {
        match (self.stage, reply) {
            (ReleaseStage::Released, _) => false,
            (ReleaseStage::Failed, _) => false,
            (ReleaseStage::Stop, ReleaseReply::Done) => true,
            (ReleaseStage::Stop, _) => false,
            (ReleaseStage::Join, ReleaseReply::Lost(_)) => false,
            _ => true,
        }
    }

    /// Tells whether the files of the listener are still to be cleared.
    pub fn works_on_files(&self) -> (answer: bool)
        ensures
            answer == clears_files(self@.stage),
    {
        match self.stage {
            ReleaseStage::RemoveSocketFile => true,
            ReleaseStage::RemoveLockFile => true,
            ReleaseStage::Unlock => true,
            _ => false,
        }
    }

    /// Goes on after a step that was done, or whose failure makes no difference.
    fn go_on(self) -> (next: (Release, ReleaseAction))
        requires
            self@.stage != ReleaseStage::Released,
            self@.stage != ReleaseStage::Failed,
        ensures
            (next.0@, next.1@) == release_next(self@, ReleaseReplyView::Done),
    {
        match self.stage {
            ReleaseStage::Stop => (
                Release { stage: ReleaseStage::Join, ..self },
                ReleaseAction::Join,
            ),
            ReleaseStage::Join => {
                if self.locked {
                    let path: String = self.path.clone();
                    (
                        Release { stage: ReleaseStage::RemoveSocketFile, ..self },
                        ReleaseAction::RemoveSocketFile(path),
                    )
                } else {
                    (Release { stage: ReleaseStage::Released, ..self }, ReleaseAction::Finish)
                }
            },
            ReleaseStage::RemoveSocketFile => {
                let lock_path: String = listen::lock_file_beside(self.path.as_str());
                (
                    Release { stage: ReleaseStage::RemoveLockFile, ..self },
                    ReleaseAction::RemoveLockFile(lock_path),
                )
            },
            ReleaseStage::RemoveLockFile => (
                Release { stage: ReleaseStage::Unlock, ..self },
                ReleaseAction::Unlock,
            ),
            _ => (Release { stage: ReleaseStage::Released, ..self }, ReleaseAction::Finish),
        }
    }

    /// Takes the reply to what was asked last and tells what to do next.
    pub fn step(self, reply: ReleaseReply) -> (next: (Release, ReleaseAction))
        requires
            release_expects(self@.stage, reply@),
        ensures
            (next.0@, next.1@) == release_next(self@, reply@),
    {
        match reply {
            ReleaseReply::Done => self.go_on(),
            ReleaseReply::Lost(cause) => (
                Release { stage: ReleaseStage::Failed, ..self },
                ReleaseAction::Fail(LinkError::WorkerLost { cause }),
            ),
            ReleaseReply::Failed(cause) => {
                if self.stage == ReleaseStage::Join {
                    (
                        Release { stage: ReleaseStage::Failed, ..self },
                        ReleaseAction::Fail(LinkError::Io { cause }),
                    )
                } else {
                    self.go_on()
                }
            },
        }
    }
}

/// The state of taking down the listener on `path` after `replies`.
pub open spec fn release_run(
    path: Seq<char>,
    locked: bool,
    replies: Seq<ReleaseReplyView>,
) -> ReleaseView
    decreases replies.len(),
{
    if replies.len() == 0 {
        release_start(path, locked)
    } else {
        release_next(release_run(path, locked, replies.drop_last()), replies.last()).0
    }
}

/// Every one of `replies` answers what was asked before it.
pub open spec fn release_answered(
    path: Seq<char>,
    locked: bool,
    replies: Seq<ReleaseReplyView>,
) -> bool
    decreases replies.len(),
{
    replies.len() > 0 ==> {
        &&& release_answered(path, locked, replies.drop_last())
        &&& release_expects(release_run(path, locked, replies.drop_last()).stage, replies.last())
    }
}

/// How many steps lead to `stage`, of those that do not end in failure.
pub open spec fn release_steps(stage: ReleaseStage, locked: bool) -> int {
    match stage {
        ReleaseStage::Stop => 0,
        ReleaseStage::Join => 1,
        ReleaseStage::RemoveSocketFile => 2,
        ReleaseStage::RemoveLockFile => 3,
        ReleaseStage::Unlock => 4,
        _ => if locked {
            5
        } else {
            2
        },
    }
}

/// A listener is taken down step by step: it is stopped, it ends, and then, if it holds a lock
/// and ended well, its socket file is removed, its lock file is removed, and only then its lock
/// is released. It fails exactly if the listener ended badly or whoever clears files is lost.
pub proof fn lemma_release_progress(path: Seq<char>, locked: bool, replies: Seq<ReleaseReplyView>)
    requires
        release_answered(path, locked, replies),
    ensures
        ({
            let s = release_run(path, locked, replies);
            &&& s.path == path && s.locked == locked
            &&& s.stage != ReleaseStage::Failed ==> release_steps(s.stage, locked)
                == replies.len()
            &&& s.stage == ReleaseStage::Failed <==> {
                ||| replies.len() >= 2 && replies[1] is Failed
                ||| replies.len() >= 1 && replies.last() is Lost
            }
            &&& !locked ==> !clears_files(s.stage)
            &&& replies.len() >= 1 ==> replies[0] is Done
        }),
    decreases replies.len(),
{
    if replies.len() > 0 {
        let before = replies.drop_last();
        lemma_release_progress(path, locked, before);
        assert(before.len() >= 1 ==> before[0] == replies[0]);
        assert(before.len() >= 2 ==> before[1] == replies[1]);
    }
}

/// Files are cleared, and the lock released, only after the listener has ended well.
pub proof fn lemma_cleared_after_the_listener_ended(
    path: Seq<char>,
    locked: bool,
    replies: Seq<ReleaseReplyView>,
)
    requires
        release_answered(path, locked, replies),
        clears_files(release_run(path, locked, replies).stage),
    ensures
        locked,
        replies.len() >= 2,
        replies[1] is Done,
{
    lemma_release_progress(path, locked, replies);
    lemma_ended_well(path, locked, replies);
}

/// A listener whose taking down has gone past its end, without failing, has ended well.
pub proof fn lemma_ended_well(path: Seq<char>, locked: bool, replies: Seq<ReleaseReplyView>)
    requires
        release_answered(path, locked, replies),
        release_run(path, locked, replies).stage != ReleaseStage::Failed,
        replies.len() >= 2,
    ensures
        replies[1] is Done,
    decreases replies.len(),
{
    let before = replies.drop_last();
    lemma_release_progress(path, locked, before);
    lemma_release_progress(path, locked, replies);
    if replies.len() > 2 {
        lemma_ended_well(path, locked, before);
        assert(before[1] == replies[1]);
    }
}

} // verus!
