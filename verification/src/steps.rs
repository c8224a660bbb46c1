//! What holds of single steps, whatever other operations have done to the service meanwhile, and of the
//! service while an operation goes on.

use vstd::prelude::*;

use crate::error::Error;
use crate::feed::{FeedMove, FeedTaskView};
use crate::hash::H256;
use crate::host::{ActionView, ReplyView, StepView};
use crate::manifest::ManifestView;
use crate::restoration::RestorationView;
use crate::restore::{RestoreMove, RestoreTaskView};
use crate::runs::{feed_next, feed_run, restore_run, Asked, Host};
use crate::scripts::{
    current_in, database_in, in_progress_in, law_proper_hosts_answer, lemma_dirs, one_more, only_if,
    proper, restoration_in,
};
use crate::service::ServiceView;
use crate::snapshot::{SnapshotMove, SnapshotTaskView};
use crate::status::RestorationStatus;
use crate::traces::{
    feed_sound, law_feeding_sound, lemma_feed_trace, lemma_restore_trace, lemma_snapshot_trace,
    snapshot_ready,
};

verus! {

// ---------------------------------------------------------------------------------------------
// Steps and what other operations do meanwhile
// ---------------------------------------------------------------------------------------------

/// Whether a step does the same to a part of two services: it leaves it alone in both, or sets it to
/// the same.
pub open spec fn alike<T>(one: T, one_after: T, two: T, two_after: T) -> bool {
    (one_after == one && two_after == two) || one_after == two_after
}

/// A step of a feeding goes by nothing of the service but its root and its restoration: two services
/// that have the same go on with the same step, and the same is done to both. Whether a snapshot is
/// being taken, whether a restoration may go on, the genesis block and the pruning stay.
#[verifier::rlimit(50)]
pub proof fn law_feeding_goes_by_the_restoration(
    one: ServiceView,
    two: ServiceView,
    task: FeedTaskView,
    reply: ReplyView,
)
    requires
        one.root == two.root,
        one.restoration == two.restoration,
        one.feed_may_resume(task, reply),
        two.feed_may_resume(task, reply),
    ensures
        ({
            let (a, step) = one.resume_feed(task, reply);
            let (b, other) = two.resume_feed(task, reply);
            &&& step == other
            &&& a.restoration == b.restoration
            &&& alike(one.status, a.status, two.status, b.status)
            &&& alike(one.reader, a.reader, two.reader, b.reader)
            &&& alike(one.held, a.held, two.held, b.held)
            &&& alike(one.swapping, a.swapping, two.swapping, b.swapping)
            &&& (a.state_chunks == one.state_chunks && b.state_chunks == two.state_chunks) || (
            a.state_chunks == one_more(one.state_chunks) && b.state_chunks == one_more(
                two.state_chunks,
            ))
            &&& (a.block_chunks == one.block_chunks && b.block_chunks == two.block_chunks) || (
            a.block_chunks == one_more(one.block_chunks) && b.block_chunks == one_more(
                two.block_chunks,
            ))
            &&& a.root == one.root
            &&& a.taking_snapshot == one.taking_snapshot
            &&& a.restoring_snapshot == one.restoring_snapshot
            &&& a.genesis_block == one.genesis_block
            &&& a.pruning == one.pruning
        }),
{
}

/// A step of the beginning or the calling off of a restoration goes by nothing of the service but its
/// root, its parameters and its counts. It leaves the reader alone, the counts, whether the current
/// snapshot is being replaced and whether a snapshot is being taken.
pub proof fn law_beginning_goes_by_the_parameters(
    one: ServiceView,
    two: ServiceView,
    task: RestoreTaskView,
    reply: ReplyView,
)
    requires
        one.root == two.root,
        one.genesis_block == two.genesis_block,
        one.pruning == two.pruning,
        one.state_chunks == two.state_chunks,
        one.block_chunks == two.block_chunks,
        reply.kind() == task.awaits(),
    ensures
        ({
            let (a, step) = one.resume_restore(task, reply);
            let (b, other) = two.resume_restore(task, reply);
            &&& step == other
            &&& alike(one.restoration, a.restoration, two.restoration, b.restoration)
            &&& alike(one.status, a.status, two.status, b.status)
            &&& alike(one.held, a.held, two.held, b.held)
            &&& alike(
                one.restoring_snapshot,
                a.restoring_snapshot,
                two.restoring_snapshot,
                b.restoring_snapshot,
            )
            &&& a.root == one.root
            &&& a.reader == one.reader
            &&& a.state_chunks == one.state_chunks
            &&& a.block_chunks == one.block_chunks
            &&& a.taking_snapshot == one.taking_snapshot
            &&& a.swapping == one.swapping
            &&& a.genesis_block == one.genesis_block
            &&& a.pruning == one.pruning
        }),
{
}

/// A step of a snapshot goes by nothing of the service but its root, and touches nothing but the
/// reader, whether the current snapshot is being replaced, and whether a snapshot is being taken.
pub proof fn law_snapshot_goes_by_the_root(
    one: ServiceView,
    two: ServiceView,
    task: SnapshotTaskView,
    reply: ReplyView,
)
    requires
        one.root == two.root,
        one.snapshot_may_resume(task, reply),
        two.snapshot_may_resume(task, reply),
    ensures
        ({
            let (a, step) = one.resume_snapshot(task, reply);
            let (b, other) = two.resume_snapshot(task, reply);
            &&& step == other
            &&& alike(one.reader, a.reader, two.reader, b.reader)
            &&& alike(one.swapping, a.swapping, two.swapping, b.swapping)
            &&& alike(
                one.taking_snapshot,
                a.taking_snapshot,
                two.taking_snapshot,
                b.taking_snapshot,
            )
            &&& a == (ServiceView {
                reader: a.reader,
                swapping: a.swapping,
                taking_snapshot: a.taking_snapshot,
                ..one
            })
        }),
{
}

/// An operation begins alike whether or not the current snapshot is being replaced; and a snapshot
/// whether or not an operation holds the restoration.
pub proof fn law_beginnings_alike(
    service: ServiceView,
    swapping: bool,
    held: bool,
    manifest: ManifestView,
    recover: bool,
    hash: H256,
    chunk: Seq<u8>,
    is_state: bool,
    num: u64,
)
    ensures
        ({
            let other = ServiceView { swapping, ..service };
            let (a, step) = service.init_restore(manifest, recover);
            other.init_restore(manifest, recover) == (ServiceView { swapping, ..a }, step)
        }),
        ({
            let other = ServiceView { swapping, ..service };
            let (a, step) = service.abort_restore();
            other.abort_restore() == (ServiceView { swapping, ..a }, step)
        }),
        ({
            let other = ServiceView { swapping, ..service };
            let (a, step) = service.feed_chunk(hash, chunk, is_state);
            other.feed_chunk(hash, chunk, is_state) == (ServiceView { swapping, ..a }, step)
        }),
        ({
            let other = ServiceView { swapping, held, ..service };
            let (a, step) = service.take_snapshot(num);
            other.take_snapshot(num) == (ServiceView { swapping, held, ..a }, step)
        }),
{
}

/// A feeding that has let go of the restoration to flush is over when the flush succeeds, whatever
/// other operations have done meanwhile, and changes nothing more. When the flush fails it ends in
/// that error: the restoration that is there by then goes, if there is one, the status is failed, and
/// the restoration directory is removed.
pub proof fn law_flush_after_letting_go(service: ServiceView, host: Host)
    requires
        proper(host),
        !service.held,
    ensures
        ({
            let at = (service, StepView::Do(ActionView::FlushDatabase, FeedTaskView::Flushing));
            let run = feed_run(at, host);
            match host(ActionView::FlushDatabase) {
                ReplyView::Database(Err(message)) => {
                    &&& run.result == Err::<(), Error>(Error::Util(message))
                    &&& run.service == (ServiceView {
                        restoration: None,
                        status: RestorationStatus::Failed,
                        ..service
                    })
                    &&& run.actions() == seq![ActionView::FlushDatabase] + only_if(
                        service.restoration is Some,
                        seq![ActionView::Discard(service.restoration->0.leftover)],
                    ) + seq![ActionView::RemoveDirAll(restoration_in(service.root))]
                },
                _ => {
                    &&& run.result == Ok::<(), Error>(())
                    &&& run.service == service
                    &&& run.actions() == seq![ActionView::FlushDatabase]
                },
            }
        }),
{
    law_proper_hosts_answer(host);
    lemma_dirs(service);
    reveal(feed_next);
    reveal_with_fuel(feed_run, 5);
    let at = (service, StepView::Do(ActionView::FlushDatabase, FeedTaskView::Flushing));
    let run = feed_run(at, host);
    if refused(host(ActionView::FlushDatabase)) {
        assert(run.actions() =~= seq![ActionView::FlushDatabase] + only_if(
            service.restoration is Some,
            seq![ActionView::Discard(service.restoration->0.leftover)],
        ) + seq![ActionView::RemoveDirAll(restoration_in(service.root))]);
    } else {
        assert(run.actions() =~= seq![ActionView::FlushDatabase]);
    }
}

spec fn refused(reply: ReplyView) -> bool {
    reply matches ReplyView::Database(result) && result is Err
}

/// How a restoration is finished: one that has all fed is verified, beginning with its root; one that
/// has not is let go with what it guards, and its results are put in place all the same; and where
/// there is none, the client's database is replaced at once, and no snapshot is recovered.
pub proof fn law_finishing_begins(service: ServiceView, rest: RestorationView, host: Host)
    requires
        proper(host),
        !service.swapping,
        host(ActionView::ReplaceClientDb(database_in(service.root))) == ReplyView::Done(Ok(())),
    ensures
        ({
            let asked = feed_run((service, service.finalize_restoration(Some(rest))), host).actions();
            if rest.state_chunks_left == Set::<H256>::empty() && rest.block_chunks_left == Set::<
                H256,
            >::empty() {
                asked.len() >= 1 && asked[0] == ActionView::StateRoot
            } else {
                &&& asked.len() >= 3
                &&& asked[0] == ActionView::Discard(rest.leftover)
                &&& asked[1] == ActionView::ReplaceClientDb(database_in(service.root))
                &&& asked[2] == if rest.writer {
                    ActionView::HoldReader
                } else {
                    ActionView::RemoveDirAll(restoration_in(service.root))
                }
            }
        }),
        feed_run((service, service.finalize_restoration(None)), host).actions() == seq![
            ActionView::ReplaceClientDb(database_in(service.root)),
            ActionView::RemoveDirAll(restoration_in(service.root)),
        ],
{
    law_proper_hosts_answer(host);
    lemma_dirs(service);
    if rest.done() {
        assert(rest.state_chunks_left =~= Set::empty());
        assert(rest.block_chunks_left =~= Set::empty());
    }
    reveal(feed_next);
    reveal_with_fuel(feed_run, 4);
    let run = feed_run((service, service.finalize_restoration(Some(rest))), host);
    if rest.done() {
        assert(run.actions()[0] == run.trace[0].action);
    } else {
        assert(run.actions()[0] == run.trace[0].action);
        assert(run.actions()[1] == run.trace[1].action);
        assert(run.actions()[2] == run.trace[2].action);
    }
    let run = feed_run((service, service.finalize_restoration(None)), host);
    assert(run.actions() =~= seq![
        ActionView::ReplaceClientDb(database_in(service.root)),
        ActionView::RemoveDirAll(restoration_in(service.root)),
    ]);
}

// ---------------------------------------------------------------------------------------------
// The service while an operation goes on
// ---------------------------------------------------------------------------------------------

/// Whether a service has the parameters of another, and what no restoration changes.
spec fn keeps(now: ServiceView, service: ServiceView) -> bool {
    &&& now.root == service.root
    &&& now.genesis_block == service.genesis_block
    &&& now.pruning == service.pruning
    &&& now.taking_snapshot == service.taking_snapshot
    &&& now.restoring_snapshot == service.restoring_snapshot
}

/// What the service shows while a feeding waits for an action.
spec fn shows_feeding(
    now: ServiceView,
    action: ActionView,
    service: ServiceView,
    hash: H256,
    is_state: bool,
) -> bool {
    let left = service.restoration->0.without(hash, is_state);
    let processing = action is Decompress || action is FeedState || action is FeedBlocks || action
        is WriteStateChunk || action is WriteBlockChunk;
    let replacing = action is Exists || action is Rename || action is OpenReader || action
        == ActionView::RemoveDirAll(current_in(service.root));
    let ending = action is Discard || action == ActionView::RemoveDirAll(
        restoration_in(service.root),
    );
    &&& now.root == service.root
    &&& now.genesis_block == service.genesis_block
    &&& now.pruning == service.pruning
    &&& now.taking_snapshot == service.taking_snapshot
    &&& now.restoring_snapshot == service.restoring_snapshot
    &&& now.status == service.status || (now.status is Failed && action == ActionView::RemoveDirAll(
        restoration_in(service.root),
    ))
    &&& processing ==> now.state_chunks == service.state_chunks && now.block_chunks
        == service.block_chunks
    &&& !processing && !ending ==> {
        &&& now.state_chunks == if is_state {
            one_more(service.state_chunks)
        } else {
            service.state_chunks
        }
        &&& now.block_chunks == if is_state {
            service.block_chunks
        } else {
            one_more(service.block_chunks)
        }
    }
    &&& replacing ==> now.reader is None
    &&& !replacing && !ending ==> now.reader == service.reader
    &&& now.swapping == replacing
    &&& action == ActionView::RemoveDirAll(restoration_in(service.root)) && now.status is Failed
        ==> !now.held
    &&& action !is FlushDatabase && now.status == service.status ==> now.held
    &&& action is FlushDatabase ==> now.held == left.done()
    &&& action is FlushDatabase && !now.held ==> now.restoration == Some(left)
}

spec fn during_feeding(at: FeedMove, service: ServiceView, hash: H256, is_state: bool) -> bool {
    let left = service.restoration->0.without(hash, is_state);
    let uncounted = at.0.state_chunks == service.state_chunks && at.0.block_chunks
        == service.block_chunks;
    let counted = at.0.state_chunks == (if is_state {
        one_more(service.state_chunks)
    } else {
        service.state_chunks
    }) && at.0.block_chunks == (if is_state {
        service.block_chunks
    } else {
        one_more(service.block_chunks)
    });
    &&& keeps(at.0, service)
    &&& service.status is Ongoing
    &&& feed_sound(at)
    &&& at.1 matches StepView::Do(action, task) ==> {
        &&& shows_feeding(at.0, action, service, hash, is_state)
        &&& match task {
            FeedTaskView::Decompressing { rest, is_state: s, .. } => uncounted && at.0.reader
                == service.reader && s == is_state && rest == left,
            FeedTaskView::Feeding { rest, is_state: s, .. } => uncounted && at.0.reader
                == service.reader && s == is_state && rest == left,
            FeedTaskView::Writing { rest, is_state: s } => uncounted && at.0.reader
                == service.reader && s == is_state && rest == left,
            FeedTaskView::Checking => counted && at.0.reader is None,
            FeedTaskView::Removing => counted && at.0.reader is None,
            FeedTaskView::Renaming => counted && at.0.reader is None,
            FeedTaskView::Reopening => counted && at.0.reader is None,
            FeedTaskView::Ending => true,
            FeedTaskView::Failing { .. } => true,
            FeedTaskView::Cleaning { .. } => true,
            _ => counted && at.0.reader == service.reader,
        }
        &&& at.0.status == if task is Cleaning {
            RestorationStatus::Failed
        } else {
            service.status
        }
    }
}

proof fn lemma_during_feeding(
    now: ServiceView,
    action: ActionView,
    task: FeedTaskView,
    service: ServiceView,
    hash: H256,
    is_state: bool,
    reply: ReplyView,
)
    requires
        during_feeding((now, StepView::Do(action, task)), service, hash, is_state),
        reply.kind() == action.reply_kind(),
    ensures
        during_feeding(now.resume_feed(task, reply), service, hash, is_state),
{
    lemma_dirs(now);
}

/// What the service shows while a feeding goes on. The status stays as it was, until a feeding that
/// fails removes the restoration directory. The chunk is counted when it is processed, and not
/// before. The reader is there until the current snapshot is replaced. The restoration is held all the
/// while, but for the flush of a chunk that is not the last: by then it is back in its place.
pub proof fn law_service_while_feeding(
    service: ServiceView,
    hash: H256,
    chunk: Seq<u8>,
    is_state: bool,
    host: Host,
)
    requires
        proper(host),
        !service.held,
        !service.swapping,
    ensures
        ({
            let trace = service.feed_chunk_run(hash, chunk, is_state, host).trace;
            forall|i: int|
                0 <= i < trace.len() ==> {
                    let now = (#[trigger] trace[i]).service;
                    let action = trace[i].action;
                    let processing = action is Decompress || action is FeedState || action
                        is FeedBlocks || action is WriteStateChunk || action is WriteBlockChunk;
                    let replacing = action is Exists || action is Rename || action is OpenReader
                        || action == ActionView::RemoveDirAll(current_in(service.root));
                    let removing = action == ActionView::RemoveDirAll(
                        restoration_in(service.root),
                    );
                    &&& now.root == service.root
                    &&& now.genesis_block == service.genesis_block
                    &&& now.pruning == service.pruning
                    &&& now.taking_snapshot == service.taking_snapshot
                    &&& now.restoring_snapshot == service.restoring_snapshot
                    &&& now.status == service.status || (now.status is Failed && removing)
                    &&& processing ==> now.state_chunks == service.state_chunks && now.block_chunks
                        == service.block_chunks
                    &&& !processing && !removing && action !is Discard ==> {
                        &&& is_state ==> now.state_chunks == one_more(service.state_chunks)
                        &&& is_state ==> now.block_chunks == service.block_chunks
                        &&& !is_state ==> now.state_chunks == service.state_chunks
                        &&& !is_state ==> now.block_chunks == one_more(service.block_chunks)
                    }
                    &&& replacing ==> now.reader is None
                    &&& !replacing && !removing && action !is Discard ==> now.reader
                        == service.reader
                    &&& now.swapping == replacing
                    &&& removing && now.status is Failed ==> !now.held
                    &&& action !is FlushDatabase && now.status == service.status ==> now.held
                    &&& action is FlushDatabase ==> {
                        let rest = service.restoration->0;
                        let states = if is_state {
                            rest.state_chunks_left.remove(hash)
                        } else {
                            rest.state_chunks_left
                        };
                        let blocks = if is_state {
                            rest.block_chunks_left
                        } else {
                            rest.block_chunks_left.remove(hash)
                        };
                        if states == Set::<H256>::empty() && blocks == Set::<H256>::empty() {
                            now.held
                        } else {
                            &&& !now.held
                            &&& now.restoration == Some(
                                RestorationView {
                                    state_chunks_left: states,
                                    block_chunks_left: blocks,
                                    ..rest
                                },
                            )
                        }
                    }
                }
        }),
{
    law_proper_hosts_answer(host);
    lemma_dirs(service);
    if service.status is Ongoing {
        let inv = |at: FeedMove| during_feeding(at, service, hash, is_state);
        let good = |asked: Asked| shows_feeding(asked.service, asked.action, service, hash, is_state);
        assert forall|now: ServiceView, action: ActionView, task: FeedTaskView|
            #[trigger] inv((now, StepView::Do(action, task))) implies {
            &&& now.feed_may_resume(task, host(action))
            &&& good(Asked { service: now, action })
            &&& inv(feed_next(now, task, host(action)))
        } by {
            reveal(feed_next);
            lemma_during_feeding(now, action, task, service, hash, is_state, host(action));
        }
        let at = service.feed_chunk(hash, chunk, is_state);
        if let Some(rest) = service.restoration {
            if !rest.wants(hash, is_state) {
                assert(rest.without(hash, is_state) =~= rest);
            }
        }
        law_feeding_sound(
            service,
            hash,
            chunk,
            is_state,
            ActionView::FlushDatabase,
            FeedTaskView::Flushing,
            host(ActionView::FlushDatabase),
        );
        assert(inv(at));
        lemma_feed_trace(at, host, inv, good);
        let trace = service.feed_chunk_run(hash, chunk, is_state, host).trace;
        assert forall|i: int| 0 <= i < trace.len() implies shows_feeding(
            (#[trigger] trace[i]).service,
            trace[i].action,
            service,
            hash,
            is_state,
        ) by {
            assert(good(trace[i]));
        }
    }
}

/// What the service shows while a snapshot waits for an action.
spec fn shows_snapshot(now: ServiceView, action: ActionView, service: ServiceView) -> bool {
    let replacing = action is Exists || action is Rename || action is OpenReader || action
        == ActionView::RemoveDirAll(current_in(service.root));
    let removing = action == ActionView::RemoveDirAll(in_progress_in(service.root));
    &&& now == (ServiceView {
        taking_snapshot: now.taking_snapshot,
        reader: now.reader,
        swapping: now.swapping,
        ..service
    })
    &&& action is ResetProgress || action is OpenWriter || action is TakeSnapshot
        ==> now.taking_snapshot
    &&& replacing || action is ChainInfo || action is HoldReader ==> !now.taking_snapshot
    &&& replacing ==> now.reader is None
    &&& !replacing && !removing ==> now.reader == service.reader
    &&& now.swapping == replacing
}

spec fn during_snapshot(at: SnapshotMove, num: u64, service: ServiceView) -> bool {
    let temp = in_progress_in(service.root);
    &&& snapshot_ready(at, num)
    &&& at.0 == (ServiceView {
        taking_snapshot: at.0.taking_snapshot,
        reader: at.0.reader,
        swapping: at.0.swapping,
        ..service
    })
    &&& at.1 matches StepView::Do(action, task) ==> {
        &&& shows_snapshot(at.0, action, service)
        &&& at.0.taking_snapshot == task.takes()
        &&& match task {
            SnapshotTaskView::Checking { leftover } => at.0.reader is None && leftover == Some(temp),
            SnapshotTaskView::Removing { leftover } => at.0.reader is None && leftover == Some(temp),
            SnapshotTaskView::Renaming { leftover } => at.0.reader is None && leftover == Some(temp),
            SnapshotTaskView::Reopening { leftover } => at.0.reader is None && leftover == Some(
                temp,
            ),
            SnapshotTaskView::Taking { leftover, .. } => at.0.reader == service.reader && leftover
                == Some(temp),
            SnapshotTaskView::Judging { leftover, .. } => at.0.reader == service.reader && leftover
                == Some(temp),
            SnapshotTaskView::Holding { leftover } => at.0.reader == service.reader && leftover
                == Some(temp),
            SnapshotTaskView::Dropping { .. } => true,
            _ => at.0.reader == service.reader,
        }
    }
}

/// What the service shows while a snapshot goes on: it takes one until the client is through, and
/// the reader is there until the current snapshot is replaced. All else is as it was.
pub proof fn law_service_while_taking_a_snapshot(service: ServiceView, num: u64, host: Host)
    requires
        proper(host),
        !service.swapping,
        num + host(ActionView::ChainInfo)->pruning_history <= u64::MAX,
    ensures
        ({
            let trace = service.take_snapshot_run(num, host).trace;
            forall|i: int|
                0 <= i < trace.len() ==> {
                    let now = (#[trigger] trace[i]).service;
                    let action = trace[i].action;
                    let replacing = action is Exists || action is Rename || action is OpenReader
                        || action == ActionView::RemoveDirAll(current_in(service.root));
                    let removing = action == ActionView::RemoveDirAll(
                        in_progress_in(service.root),
                    );
                    &&& now == (ServiceView {
                        taking_snapshot: now.taking_snapshot,
                        reader: now.reader,
                        swapping: now.swapping,
                        ..service
                    })
                    &&& action is ResetProgress || action is OpenWriter || action is TakeSnapshot
                        ==> now.taking_snapshot
                    &&& replacing || action is ChainInfo || action is HoldReader
                        ==> !now.taking_snapshot
                    &&& replacing ==> now.reader is None
                    &&& !replacing && !removing ==> now.reader == service.reader
                    &&& now.swapping == replacing
                }
        }),
{
    law_proper_hosts_answer(host);
    if !service.taking_snapshot {
        let inv = |at: SnapshotMove| during_snapshot(at, num, service);
        let good = |asked: Asked| shows_snapshot(asked.service, asked.action, service);
        assert forall|now: ServiceView, action: ActionView, task: SnapshotTaskView|
            #[trigger] inv((now, StepView::Do(action, task))) implies {
            &&& now.snapshot_may_resume(task, host(action))
            &&& good(Asked { service: now, action })
            &&& inv(now.resume_snapshot(task, host(action)))
        } by {
            lemma_dirs(now);
        }
        let at = service.take_snapshot(num);
        assert(inv(at));
        lemma_snapshot_trace(at, host, inv, good);
        let trace = service.take_snapshot_run(num, host).trace;
        assert forall|i: int| 0 <= i < trace.len() implies shows_snapshot(
            (#[trigger] trace[i]).service,
            trace[i].action,
            service,
        ) by {
            assert(good(trace[i]));
        }
    }
}

/// What the service shows while a restoration begins.
spec fn shows_beginning(now: ServiceView, service: ServiceView) -> bool {
    now == (ServiceView {
        restoration: None,
        state_chunks: 0,
        block_chunks: 0,
        held: true,
        ..service
    })
}

/// What the service shows while a restoration begins: the counts are back at zero, the old restoration
/// is gone, and all else is as it was.
pub proof fn law_service_while_beginning(
    service: ServiceView,
    manifest: ManifestView,
    recover: bool,
    host: Host,
)
    requires
        proper(host),
        !service.held,
    ensures
        ({
            let trace = service.init_restore_run(manifest, recover, host).trace;
            forall|i: int|
                0 <= i < trace.len() ==> (#[trigger] trace[i]).service == (ServiceView {
                    restoration: None,
                    state_chunks: 0,
                    block_chunks: 0,
                    held: true,
                    ..service
                })
        }),
{
    law_proper_hosts_answer(host);
    let inv = |at: RestoreMove|
        at.1 matches StepView::Do(action, task) ==> {
            &&& action.reply_kind() == task.awaits()
            &&& shows_beginning(at.0, service)
            &&& task !is Aborting
        };
    let good = |asked: Asked| shows_beginning(asked.service, service);
    assert forall|now: ServiceView, action: ActionView, task: RestoreTaskView|
        #[trigger] inv((now, StepView::Do(action, task))) implies {
        &&& host(action).kind() == task.awaits()
        &&& good(Asked { service: now, action })
        &&& inv(now.resume_restore(task, host(action)))
    } by {}
    let at = service.init_restore(manifest, recover);
    assert(inv(at));
    lemma_restore_trace(at, host, inv, good);
    let trace = service.init_restore_run(manifest, recover, host).trace;
    assert forall|i: int| 0 <= i < trace.len() implies shows_beginning(
        (#[trigger] trace[i]).service,
        service,
    ) by {
        assert(good(trace[i]));
    }
}

/// What the service shows while a restoration is called off: the restoration is gone, it may not go on,
/// and all else is as it was until what it guards is removed.
pub proof fn law_service_while_aborting(service: ServiceView, host: Host)
    requires
        proper(host),
        !service.held,
    ensures
        ({
            let trace = service.abort_restore_run(host).trace;
            forall|i: int|
                0 <= i < trace.len() ==> (#[trigger] trace[i]).service == (ServiceView {
                    restoration: None,
                    restoring_snapshot: false,
                    held: true,
                    ..service
                })
        }),
{
    law_proper_hosts_answer(host);
    reveal_with_fuel(restore_run, 3);
}

} // verus!
