//! Laws of a snapshot and a restoration that overlap: the one to be finished last overwrites the
//! other.

use vstd::prelude::*;

use crate::feed::{FeedMove, FeedTaskView};
use crate::hash::H256;
use crate::host::{ActionView, StepView};
use crate::outcomes::{law_feed_outcome, law_take_outcome, opened};
use crate::path::PathView;
use crate::runs::{
    answers, feed_after, feed_next, feed_run, in_range, snapshot_after, snapshot_run, Asked, Host,
};
use crate::service::ServiceView;
use crate::snapshot::{SnapshotMove, SnapshotTaskView};
use crate::traces::{
    feed_sound, law_feeding_sound, lemma_feed_trace, lemma_snapshot_trace, snapshot_ready,
};

verus! {

// ---------------------------------------------------------------------------------------------
// The snapshot is finished last
// ---------------------------------------------------------------------------------------------

/// Whether a step is one of a snapshot that the client has not written yet, at that block and with
/// that directory.
spec fn is_taking(step: StepView<SnapshotTaskView>, num: u64, temp: PathView) -> bool {
    ||| step == StepView::Do(ActionView::ResetProgress, SnapshotTaskView::Resetting { num })
    ||| step == StepView::Do(ActionView::RemoveDirAll(temp), SnapshotTaskView::Clearing { num })
    ||| step == StepView::Do(ActionView::OpenWriter(temp), SnapshotTaskView::OpeningWriter { num })
    ||| step == StepView::Do(
        ActionView::TakeSnapshot(num),
        SnapshotTaskView::Taking { num, leftover: Some(temp) },
    )
}

/// Where a snapshot stands after a number of steps: the client has not written it yet, and nothing of
/// the service but the flag has changed; or the client is through with it.
proof fn lemma_taking(service: ServiceView, num: u64, taker: Host, n: nat)
    requires
        answers(taker),
        in_range(taker, num),
        !service.taking_snapshot,
    ensures
        ({
            let at = snapshot_after(service.take_snapshot(num), taker, n);
            at.1 matches StepView::Do(_, task) && task.takes() ==> {
                &&& is_taking(at.1, num, service.temp_snapshot_dir())
                &&& at.0 == ServiceView { taking_snapshot: true, ..service }
            }
        }),
        ({
            let at = snapshot_after(service.take_snapshot(num), taker, n);
            at.1 matches StepView::Do(action, task) ==> action.reply_kind() == task.awaits()
        }),
    decreases n,
{
    if n > 0 {
        lemma_taking(service, num, taker, (n - 1) as nat);
    }
}

/// What holds of each step of a snapshot that the client succeeds to write.
spec fn finishing(at: SnapshotMove, num: u64, start: ServiceView, taker: Host) -> bool {
    let current = at.0.snapshot_dir();
    &&& at.0.root == start.root
    &&& at.0.status == start.status
    &&& at.0.restoration == start.restoration
    &&& snapshot_ready(at, num)
    &&& match at.1 {
        StepView::Do(action, task) => {
            &&& task.takes() || !at.0.taking_snapshot
            &&& match task {
                SnapshotTaskView::Taking { .. } => action == ActionView::TakeSnapshot(num),
                SnapshotTaskView::Judging { .. } => false,
                SnapshotTaskView::Reopening { .. } => action == ActionView::OpenReader(current),
                SnapshotTaskView::Dropping { result } => result is Err,
                _ => true,
            }
        },
        StepView::Return(result) => result is Ok ==> {
            &&& at.0.reader is Some
            &&& at.0.reader == opened(current, taker)
            &&& !at.0.taking_snapshot
        },
    }
}

proof fn lemma_finishing_end(at: SnapshotMove, num: u64, start: ServiceView, taker: Host)
    requires
        answers(taker),
        in_range(taker, num),
        taker(ActionView::TakeSnapshot(num)).error() is None,
        finishing(at, num, start, taker),
    ensures
        ({
            let run = snapshot_run(at, taker);
            finishing((run.service, StepView::Return(run.result)), num, start, taker)
        }),
{
    let inv = |at: SnapshotMove| finishing(at, num, start, taker);
    assert forall|service: ServiceView, action: ActionView, task: SnapshotTaskView|
        #[trigger] inv((service, StepView::Do(action, task))) implies {
        &&& service.snapshot_may_resume(task, taker(action))
        &&& inv(service.resume_snapshot(task, taker(action)))
    } by {}
    lemma_snapshot_trace(at, taker, inv, |asked: Asked| true);
    let run = snapshot_run(at, taker);
    assert(inv((run.service, StepView::Return(run.result))));
}

/// A snapshot that the client writes while other operations go on becomes the current one when it is
/// finished, whatever they have done to the service meanwhile; and it leaves the restoration as they
/// have left it.
pub proof fn law_snapshot_finished_last(
    service: ServiceView,
    num: u64,
    n: nat,
    meanwhile: ServiceView,
    taker: Host,
)
    requires
        answers(taker),
        in_range(taker, num),
        !service.taking_snapshot,
        snapshot_after(service.take_snapshot(num), taker, n).1 matches StepView::Do(_, task)
            && task.takes(),
        meanwhile.root == service.root,
        !meanwhile.swapping,
        taker(ActionView::TakeSnapshot(num)).error() is None,
    ensures
        ({
            let step = snapshot_after(service.take_snapshot(num), taker, n).1;
            let run = snapshot_run((meanwhile, step), taker);
            &&& run.service.status == meanwhile.status
            &&& run.service.restoration == meanwhile.restoration
            &&& run.result is Ok ==> {
                &&& run.service.reader is Some
                &&& run.service.reader == opened(service.snapshot_dir(), taker)
                &&& !run.service.taking_snapshot
            }
        }),
{
    lemma_taking(service, num, taker, n);
    let step = snapshot_after(service.take_snapshot(num), taker, n).1;
    lemma_finishing_end((meanwhile, step), num, meanwhile, taker);
}

/// Of a snapshot and a restoration that overlap, the snapshot stands if it is finished last: where a
/// feeding ends, be it the last of the restoration, between the beginning of the snapshot and the
/// client's success, the reader is the one that the snapshot opened.
pub proof fn law_snapshot_overwrites_restoration(
    service: ServiceView,
    num: u64,
    n: nat,
    hash: H256,
    chunk: Seq<u8>,
    is_state: bool,
    taker: Host,
    restorer: Host,
)
    requires
        answers(taker),
        answers(restorer),
        in_range(taker, num),
        service.idle(),
        !service.taking_snapshot,
        snapshot_after(service.take_snapshot(num), taker, n).1 matches StepView::Do(_, task)
            && task.takes(),
        taker(ActionView::TakeSnapshot(num)).error() is None,
    ensures
        ({
            let (during, step) = snapshot_after(service.take_snapshot(num), taker, n);
            let restored = during.feed_chunk_run(hash, chunk, is_state, restorer);
            let taken = snapshot_run((restored.service, step), taker);
            taken.result is Ok ==> {
                &&& taken.service.reader is Some
                &&& taken.service.reader == opened(service.snapshot_dir(), taker)
                &&& taken.service.status == restored.service.status
                &&& taken.service.restoration == restored.service.restoration
            }
        }),
{
    lemma_taking(service, num, taker, n);
    let (during, step) = snapshot_after(service.take_snapshot(num), taker, n);
    law_feed_outcome(during, hash, chunk, is_state, restorer);
    let restored = during.feed_chunk_run(hash, chunk, is_state, restorer);
    law_snapshot_finished_last(service, num, n, restored.service, taker);
}

// ---------------------------------------------------------------------------------------------
// The restoration is finished last
// ---------------------------------------------------------------------------------------------

/// What holds of each step of a feeding to a restoration that recovers its snapshot.
spec fn recovering(at: FeedMove, root: PathView, host: Host) -> bool {
    let current = at.0.snapshot_dir();
    let done = at.0.reader is Some && at.0.reader == opened(current, host);
    &&& at.0.root == root
    &&& feed_sound(at)
    &&& match at.1 {
        StepView::Do(action, task) => at.0.status !is Inactive && match task {
            FeedTaskView::Decompressing { rest, .. } => rest.writer,
            FeedTaskView::Feeding { rest, .. } => rest.writer,
            FeedTaskView::Writing { rest, .. } => rest.writer,
            FeedTaskView::FlushingLast { rest } => rest.writer,
            FeedTaskView::CheckingRoot { rest } => rest.writer,
            FeedTaskView::CheckingMissing { rest } => rest.writer,
            FeedTaskView::FinalizingBlocks { writer, .. } => writer,
            FeedTaskView::Closing { recover } => recover,
            FeedTaskView::Replacing { recover } => recover,
            FeedTaskView::Reopening => action == ActionView::OpenReader(current),
            FeedTaskView::Ending => done,
            _ => true,
        },
        StepView::Return(_) => at.0.status is Inactive ==> done,
    }
}

#[verifier::rlimit(30)]
proof fn lemma_recovering_step(
    service: ServiceView,
    action: ActionView,
    task: FeedTaskView,
    root: PathView,
    host: Host,
)
    requires
        answers(host),
        recovering((service, StepView::Do(action, task)), root, host),
    ensures
        recovering(feed_next(service, task, host(action)), root, host),
{
    reveal(feed_next);
}

proof fn lemma_recovering_after(at: FeedMove, root: PathView, host: Host, n: nat)
    requires
        answers(host),
        recovering(at, root, host),
    ensures
        recovering(feed_after(at, host, n), root, host),
    decreases n,
{
    if n > 0 {
        lemma_recovering_after(at, root, host, (n - 1) as nat);
        let (service, step) = feed_after(at, host, (n - 1) as nat);
        if let StepView::Do(action, task) = step {
            lemma_recovering_step(service, action, task, root, host);
        }
    }
}

proof fn lemma_recovering_end(at: FeedMove, root: PathView, host: Host)
    requires
        answers(host),
        recovering(at, root, host),
    ensures
        ({
            let end = feed_run(at, host).service;
            end.status is Inactive ==> end.reader is Some && end.reader == opened(
                end.snapshot_dir(),
                host,
            )
        }),
        feed_run(at, host).service.root == root,
{
    let inv = |at: FeedMove| recovering(at, root, host);
    assert forall|service: ServiceView, action: ActionView, task: FeedTaskView|
        #[trigger] inv((service, StepView::Do(action, task))) implies {
        &&& service.feed_may_resume(task, host(action))
        &&& inv(feed_next(service, task, host(action)))
    } by {
        lemma_recovering_step(service, action, task, root, host);
    }
    lemma_feed_trace(at, host, inv, |asked: Asked| true);
    let end = feed_run(at, host);
    assert(inv((end.service, StepView::Return(end.result))));
}

/// Of a snapshot and a restoration that overlap, the recovered snapshot stands if the restoration is
/// finished last: where a snapshot is taken, from beginning to end, between the beginning of the last
/// feeding and the placing of the recovered snapshot, the reader is the one that the feeding opened.
pub proof fn law_restoration_overwrites_snapshot(
    service: ServiceView,
    hash: H256,
    chunk: Seq<u8>,
    is_state: bool,
    n: nat,
    num: u64,
    taker: Host,
    restorer: Host,
)
    requires
        answers(taker),
        answers(restorer),
        in_range(taker, num),
        service.idle(),
        service.status is Ongoing,
        service.restoration is Some,
        service.restoration->0.writer,
        feed_after(service.feed_chunk(hash, chunk, is_state), restorer, n).1 matches StepView::Do(
            _,
            task,
        ) && !task.swaps() && task !is Ending,
    ensures
        ({
            let (during, step) = feed_after(
                service.feed_chunk(hash, chunk, is_state),
                restorer,
                n,
            );
            let taken = during.take_snapshot_run(num, taker);
            let restored = feed_run((taken.service, step), restorer);
            restored.service.status is Inactive ==> {
                &&& restored.service.reader is Some
                &&& restored.service.reader == opened(service.snapshot_dir(), restorer)
            }
        }),
{
    let root = service.root;
    let first = service.feed_chunk(hash, chunk, is_state);
    law_feeding_sound(
        service,
        hash,
        chunk,
        is_state,
        ActionView::FlushDatabase,
        FeedTaskView::Flushing,
        restorer(ActionView::FlushDatabase),
    );
    assert(recovering(first, root, restorer));
    lemma_recovering_after(first, root, restorer, n);
    let (during, step) = feed_after(first, restorer, n);
    law_take_outcome(during, num, taker);
    let taken = during.take_snapshot_run(num, taker);
    assert(recovering((taken.service, step), root, restorer));
    lemma_recovering_end((taken.service, step), root, restorer);
}

} // verus!
