//! Laws of taking a listener down: what is asked after each reply, in any run.

use crate::error::LinkErrorView;
use crate::release;
use crate::release::{ReleaseActionView, ReleaseReplyView, ReleaseStage, ReleaseView};
use vstd::prelude::*;

verus! {

/// What is asked after each reply. The listener is told to stop and waited for. If it holds a lock,
/// its socket file, then the lock file beside it are removed, and the lock is released last,
/// whatever came of the removals; only then is it finished. Without a lock it is finished at once.
/// It ends in failure, with the cause, if the listener ended badly or whoever clears files is lost.
pub proof fn lemma_release_actions(path: Seq<char>, locked: bool, replies: Seq<ReleaseReplyView>)
    requires
        release::release_answered(path, locked, replies),
        replies.len() > 0,
    ensures
        release::release_request(release::release_start(path, locked)) == ReleaseActionView::Stop,
        ({
            let n = replies.len();
            let action = release::release_next(
                release::release_run(path, locked, replies.drop_last()),
                replies.last(),
            ).1;
            &&& n <= if locked {
                5int
            } else {
                2int
            }
            &&& replies[0] is Done
            &&& n == 1 ==> action == ReleaseActionView::Join
            &&& n == 2 ==> action == match replies.last() {
                ReleaseReplyView::Failed(cause) => ReleaseActionView::Fail(
                    LinkErrorView::Io { cause },
                ),
                _ => if locked {
                    ReleaseActionView::RemoveSocketFile(path)
                } else {
                    ReleaseActionView::Finish
                },
            }
            &&& n > 2 ==> replies[1] is Done
            &&& n > 2 && replies.last() is Lost ==> action == ReleaseActionView::Fail(
                LinkErrorView::WorkerLost { cause: replies.last()->Lost_0 },
            )
            &&& n > 2 && !(replies.last() is Lost) ==> {
                &&& n == 3 ==> action == ReleaseActionView::RemoveLockFile(path + ".lock"@)
                &&& n == 4 ==> action == ReleaseActionView::Unlock
                &&& n == 5 ==> action == ReleaseActionView::Finish
            }
        }),
{
    let before = replies.drop_last();
    release::lemma_release_progress(path, locked, before);
    release::lemma_release_progress(path, locked, replies);
    if replies.len() > 2 {
        release::lemma_ended_well(path, locked, before);
        assert(before[1] == replies[1]);
    }
}

/// Nothing is finished but a listener that was released, and what is asked is what the state
/// reached asks for, unless it has failed.
pub proof fn lemma_release_step(s: ReleaseView, reply: ReleaseReplyView)
    requires
        release::release_expects(s.stage, reply),
    ensures
        release::release_next(s, reply).0.stage != ReleaseStage::Failed ==> release::release_next(
            s,
            reply,
        ).1 == release::release_request(release::release_next(s, reply).0),
        release::release_next(s, reply).1 == ReleaseActionView::Finish <==> release::release_next(
            s,
            reply,
        ).0.stage == ReleaseStage::Released,
        release::release_next(s, reply).0.path == s.path,
        release::release_next(s, reply).0.locked == s.locked,
{
}

/// Which replies are expected, and when files are cleared: to be told to stop is done; the listener
/// ends well or badly; of three steps on files, of a listener with a lock, any reply can come, that
/// somebody was lost too. After the last step, and after a failure, none is expected.
pub proof fn lemma_release_replies(
    path: Seq<char>,
    locked: bool,
    replies: Seq<ReleaseReplyView>,
    reply: ReleaseReplyView,
)
    requires
        release::release_answered(path, locked, replies),
    ensures
        ({
            let n = replies.len();
            let stage = release::release_run(path, locked, replies).stage;
            let failed = n >= 2 && replies[1] is Failed || n >= 1 && replies.last() is Lost;
            &&& release::clears_files(stage) <==> locked && 2 <= n < 5 && !failed
            &&& release::release_expects(stage, reply) <==> {
                ||| n == 0 && reply is Done
                ||| n == 1 && !(reply is Lost)
                ||| locked && 2 <= n < 5 && !failed
            }
        }),
{
    release::lemma_release_progress(path, locked, replies);
}

} // verus!
