//! Laws of what the service asks of its host: in which order, with what reason, and where in the
//! file system.

use vstd::prelude::*;

use crate::feed::{FeedMove, FeedTaskView};
use crate::hash::H256;
use crate::host::{ActionView, ReplyView, StepView};
use crate::laws::law_directories_apart;
use crate::manifest::ManifestView;
use crate::outcomes::{law_init_outcome, law_take_outcome};
use crate::path::{is_within, PathView};
use crate::restoration::RestorationView;
use crate::restore::{RestoreMove, RestoreTaskView};
use crate::runs::{
    answers, feed_next, feed_rank, feed_run, in_range, restore_rank, restore_run, snapshot_rank, snapshot_run, Asked,
    Host, Run,
};
use crate::service::ServiceView;
use crate::snapshot::{SnapshotMove, SnapshotTaskView};

verus! {

// ---------------------------------------------------------------------------------------------
// Questions and answers
// ---------------------------------------------------------------------------------------------

/// Whether a step waits for the kind of reply that its action is answered with.
pub open spec fn feed_fits(step: StepView<FeedTaskView>) -> bool {
    step matches StepView::Do(action, task) ==> action.reply_kind() == task.awaits()
}

/// Whether a step waits for the kind of reply that its action is answered with.
pub open spec fn restore_fits(step: StepView<RestoreTaskView>) -> bool {
    step matches StepView::Do(action, task) ==> action.reply_kind() == task.awaits()
}

/// Whether a step waits for the kind of reply that its action is answered with.
pub open spec fn snapshot_fits(step: StepView<SnapshotTaskView>) -> bool {
    step matches StepView::Do(action, task) ==> action.reply_kind() == task.awaits()
}

/// Each action of a feeding is followed by a wait for the kind of reply that goes with it.
#[verifier::rlimit(30)]
pub proof fn law_feeding_fits(
    service: ServiceView,
    hash: H256,
    chunk: Seq<u8>,
    is_state: bool,
    task: FeedTaskView,
    reply: ReplyView,
)
    ensures
        feed_fits(service.feed_chunk(hash, chunk, is_state).1),
        reply.kind() == task.awaits() ==> feed_fits(service.resume_feed(task, reply).1),
{
}

/// Each action of the beginning or the calling off of a restoration is followed by a wait for the
/// kind of reply that goes with it.
pub proof fn law_restoring_fits(
    service: ServiceView,
    manifest: ManifestView,
    recover: bool,
    task: RestoreTaskView,
    reply: ReplyView,
)
    ensures
        restore_fits(service.init_restore(manifest, recover).1),
        restore_fits(service.abort_restore().1),
        reply.kind() == task.awaits() ==> restore_fits(service.resume_restore(task, reply).1),
{
}

/// Each action of a snapshot is followed by a wait for the kind of reply that goes with it.
pub proof fn law_snapshot_fits(
    service: ServiceView,
    num: u64,
    task: SnapshotTaskView,
    reply: ReplyView,
)
    ensures
        snapshot_fits(service.take_snapshot(num).1),
        reply.kind() == task.awaits() ==> snapshot_fits(service.resume_snapshot(task, reply).1),
{
}

/// Whether a step of a feeding can be followed by the next: it waits for the kind of reply that its
/// action is answered with, and the service knows what the feeding holds. When the feeding returns,
/// it holds nothing.
pub open spec fn feed_sound(at: FeedMove) -> bool {
    match at.1 {
        StepView::Do(action, task) => {
            &&& action.reply_kind() == task.awaits()
            &&& at.0.held == task.holds()
            &&& at.0.swapping == task.swaps()
            &&& task.holds() ==> at.0.restoration is None
        },
        StepView::Return(_) => at.0.idle(),
    }
}

/// A feeding that begins while nothing is held can always go on, and holds nothing when it returns.
#[verifier::rlimit(30)]
pub proof fn law_feeding_sound(
    service: ServiceView,
    hash: H256,
    chunk: Seq<u8>,
    is_state: bool,
    action: ActionView,
    task: FeedTaskView,
    reply: ReplyView,
)
    ensures
        service.idle() ==> feed_sound(service.feed_chunk(hash, chunk, is_state)),
        feed_sound((service, StepView::Do(action, task))) && reply.kind() == action.reply_kind()
            ==> service.feed_may_resume(task, reply) && feed_sound(
            service.resume_feed(task, reply),
        ),
{
}

/// How many actions a feeding has left to ask for at most.
spec fn feed_bound(at: FeedMove) -> nat {
    match at.1 {
        StepView::Do(_, task) => task.rank() + if task is Failing && at.0.restoration is Some {
            1nat
        } else {
            0nat
        },
        StepView::Return(_) => 0,
    }
}

#[verifier::rlimit(30)]
proof fn lemma_feed_bound(at: FeedMove, host: Host)
    requires
        answers(host),
        feed_sound(at),
    ensures
        feed_run(at, host).trace.len() <= feed_bound(at),
    decreases feed_rank(at),
{
    if let StepView::Do(action, task) = at.1 {
        reveal(feed_next);
        lemma_feed_bound(feed_next(at.0, task, host(action)), host);
    }
}

proof fn lemma_restore_bound(at: RestoreMove, host: Host)
    requires
        answers(host),
        restore_fits(at.1),
    ensures
        restore_run(at, host).trace.len() <= restore_rank(at.1),
    decreases restore_rank(at.1),
{
    if let StepView::Do(action, task) = at.1 {
        lemma_restore_bound(at.0.resume_restore(task, host(action)), host);
    }
}

/// Whether a step waits for a reply that a host gives, in an operation on block `num`, and the
/// service knows whether the operation replaces the current snapshot.
pub open spec fn snapshot_ready(at: SnapshotMove, num: u64) -> bool {
    at.1 matches StepView::Do(action, task) ==> {
        &&& action.reply_kind() == task.awaits()
        &&& at.0.swapping == task.swaps()
        &&& match task {
            SnapshotTaskView::Resetting { num: n } => n == num,
            SnapshotTaskView::Clearing { num: n } => n == num,
            SnapshotTaskView::OpeningWriter { num: n } => n == num,
            SnapshotTaskView::Taking { num: n, .. } => n == num,
            SnapshotTaskView::Judging { num: n, .. } => n == num && action
                == ActionView::ChainInfo,
            _ => true,
        }
    }
}

proof fn lemma_snapshot_bound(at: SnapshotMove, num: u64, host: Host)
    requires
        answers(host),
        in_range(host, num),
        snapshot_ready(at, num),
    ensures
        snapshot_run(at, host).trace.len() <= snapshot_rank(at.1),
    decreases snapshot_rank(at.1),
{
    if let StepView::Do(action, task) = at.1 {
        lemma_snapshot_bound(at.0.resume_snapshot(task, host(action)), num, host);
    }
}

/// Every operation comes to an end: there is a bound to the number of actions that it asks for.
pub proof fn law_operations_end(
    service: ServiceView,
    manifest: ManifestView,
    recover: bool,
    hash: H256,
    chunk: Seq<u8>,
    is_state: bool,
    num: u64,
    host: Host,
)
    requires
        answers(host),
        service.idle(),
        in_range(host, num),
    ensures
        service.init_restore_run(manifest, recover, host).trace.len() <= 7,
        service.abort_restore_run(host).trace.len() <= 1,
        service.take_snapshot_run(num, host).trace.len() <= 10,
        service.feed_chunk_run(hash, chunk, is_state, host).trace.len() <= 18,
{
    lemma_restore_bound(service.init_restore(manifest, recover), host);
    lemma_restore_bound(service.abort_restore(), host);
    lemma_snapshot_bound(service.take_snapshot(num), num, host);
    lemma_feed_bound(service.feed_chunk(hash, chunk, is_state), host);
}

// ---------------------------------------------------------------------------------------------
// Invariants of runs
// ---------------------------------------------------------------------------------------------

/// The rank of a feeding falls with each step.
#[verifier::rlimit(30)]
pub(crate) proof fn lemma_feed_rank(
    service: ServiceView,
    action: ActionView,
    task: FeedTaskView,
    reply: ReplyView,
)
    requires
        reply.kind() == task.awaits(),
    ensures
        feed_rank(feed_next(service, task, reply)) < feed_rank(
            (service, StepView::Do(action, task)),
        ),
{
    reveal(feed_next);
}

/// What holds of a step of a feeding, and is kept by the next, holds at the end; what it gives of
/// each action holds of all of them.
pub(crate) proof fn lemma_feed_trace(
    at: FeedMove,
    host: Host,
    inv: spec_fn(FeedMove) -> bool,
    good: spec_fn(Asked) -> bool,
)
    requires
        inv(at),
        forall|service: ServiceView, action: ActionView, task: FeedTaskView|
            #[trigger] inv((service, StepView::Do(action, task))) ==> {
                &&& service.feed_may_resume(task, host(action))
                &&& good(Asked { service, action })
                &&& inv(feed_next(service, task, host(action)))
            },
    ensures
        forall|i: int|
            0 <= i < feed_run(at, host).trace.len() ==> good(
                #[trigger] feed_run(at, host).trace[i],
            ),
        inv((feed_run(at, host).service, StepView::Return(feed_run(at, host).result))),
    decreases feed_rank(at),
{
    if let StepView::Do(action, task) = at.1 {
        lemma_feed_rank(at.0, action, task, host(action));
        let next = feed_next(at.0, task, host(action));
        assert(inv((at.0, StepView::Do(action, task))));
        lemma_feed_trace(next, host, inv, good);
        let rest = feed_run(next, host).trace;
        assert forall|i: int| 0 <= i < feed_run(at, host).trace.len() implies good(
            #[trigger] feed_run(at, host).trace[i],
        ) by {
            if i > 0 {
                assert(feed_run(at, host).trace[i] == rest[i - 1]);
            }
        }
    }
}

/// The same, of the beginning or the calling off of a restoration.
pub(crate) proof fn lemma_restore_trace(
    at: RestoreMove,
    host: Host,
    inv: spec_fn(RestoreMove) -> bool,
    good: spec_fn(Asked) -> bool,
)
    requires
        inv(at),
        forall|service: ServiceView, action: ActionView, task: RestoreTaskView|
            #[trigger] inv((service, StepView::Do(action, task))) ==> {
                &&& host(action).kind() == task.awaits()
                &&& good(Asked { service, action })
                &&& inv(service.resume_restore(task, host(action)))
            },
    ensures
        forall|i: int|
            0 <= i < restore_run(at, host).trace.len() ==> good(
                #[trigger] restore_run(at, host).trace[i],
            ),
        inv((restore_run(at, host).service, StepView::Return(restore_run(at, host).result))),
    decreases restore_rank(at.1),
{
    if let StepView::Do(action, task) = at.1 {
        let next = at.0.resume_restore(task, host(action));
        assert(inv((at.0, StepView::Do(action, task))));
        lemma_restore_trace(next, host, inv, good);
        let rest = restore_run(next, host).trace;
        assert forall|i: int| 0 <= i < restore_run(at, host).trace.len() implies good(
            #[trigger] restore_run(at, host).trace[i],
        ) by {
            if i > 0 {
                assert(restore_run(at, host).trace[i] == rest[i - 1]);
            }
        }
    }
}

/// The same, of a snapshot.
pub(crate) proof fn lemma_snapshot_trace(
    at: SnapshotMove,
    host: Host,
    inv: spec_fn(SnapshotMove) -> bool,
    good: spec_fn(Asked) -> bool,
)
    requires
        inv(at),
        forall|service: ServiceView, action: ActionView, task: SnapshotTaskView|
            #[trigger] inv((service, StepView::Do(action, task))) ==> {
                &&& service.snapshot_may_resume(task, host(action))
                &&& good(Asked { service, action })
                &&& inv(service.resume_snapshot(task, host(action)))
            },
    ensures
        forall|i: int|
            0 <= i < snapshot_run(at, host).trace.len() ==> good(
                #[trigger] snapshot_run(at, host).trace[i],
            ),
        inv((snapshot_run(at, host).service, StepView::Return(snapshot_run(at, host).result))),
    decreases snapshot_rank(at.1),
{
    if let StepView::Do(action, task) = at.1 {
        let next = at.0.resume_snapshot(task, host(action));
        assert(inv((at.0, StepView::Do(action, task))));
        lemma_snapshot_trace(next, host, inv, good);
        let rest = snapshot_run(next, host).trace;
        assert forall|i: int| 0 <= i < snapshot_run(at, host).trace.len() implies good(
            #[trigger] snapshot_run(at, host).trace[i],
        ) by {
            if i > 0 {
                assert(snapshot_run(at, host).trace[i] == rest[i - 1]);
            }
        }
    }
}

// ---------------------------------------------------------------------------------------------
// Where in the file system
// ---------------------------------------------------------------------------------------------

/// Whether a directory lies below `root`.
#[verifier::opaque]
pub open spec fn is_below(dir: PathView, root: PathView) -> bool {
    is_within(dir, root) && dir != root
}

/// Whether a directory that is left over, if there is one, lies below `root`.
pub open spec fn leftover_below(leftover: Option<PathView>, root: PathView) -> bool {
    leftover matches Some(dir) ==> is_below(dir, root)
}

/// Whether all paths that an action names lie below `root`.
pub open spec fn confined(action: ActionView, root: PathView) -> bool {
    match action {
        ActionView::RemoveDirAll(dir) => is_below(dir, root),
        ActionView::CreateDirAll(dir) => is_below(dir, root),
        ActionView::Rename { from, to } => is_below(from, root) && is_below(to, root),
        ActionView::Exists(dir) => is_below(dir, root),
        ActionView::OpenReader(dir) => is_below(dir, root),
        ActionView::OpenWriter(dir) => is_below(dir, root),
        ActionView::Discard(leftover) => leftover_below(leftover, root),
        ActionView::OpenDatabase(db) => is_below(db, root),
        ActionView::ReplaceClientDb(db) => is_below(db, root),
        _ => true,
    }
}

proof fn lemma_below(service: ServiceView)
    ensures
        is_below(service.snapshot_dir(), service.root),
        is_below(service.temp_snapshot_dir(), service.root),
        is_below(service.restoration_dir(), service.root),
        is_below(service.restoration_db(), service.root),
        is_below(service.temp_recovery_dir(), service.root),
{
    reveal(is_below);
    let n = service.root.names.len() as int;
    assert(service.snapshot_dir().names.take(n) =~= service.root.names);
    assert(service.temp_snapshot_dir().names.take(n) =~= service.root.names);
    assert(service.restoration_dir().names.take(n) =~= service.root.names);
    assert(service.restoration_db().names.take(n) =~= service.root.names);
    assert(service.temp_recovery_dir().names.take(n) =~= service.root.names);
    assert(service.snapshot_dir().names.len() == n + 1);
    assert(service.temp_snapshot_dir().names.len() == n + 1);
    assert(service.restoration_dir().names.len() == n + 1);
    assert(service.restoration_db().names.len() == n + 2);
    assert(service.temp_recovery_dir().names.len() == n + 2);
}

impl ServiceView {
    /// Whether the restoration of the service, if it has one, guards a directory below the root.
    pub open spec fn guards_below(self) -> bool {
        self.restoration matches Some(rest) ==> leftover_below(rest.leftover, self.root)
    }
}

spec fn feed_confined(at: FeedMove, root: PathView) -> bool {
    &&& at.0.root == root
    &&& at.0.guards_below()
    &&& feed_sound(at)
    &&& at.1 matches StepView::Do(action, task) ==> {
        &&& confined(action, root)
        &&& match task {
            FeedTaskView::Decompressing { rest, .. } => leftover_below(rest.leftover, root),
            FeedTaskView::Feeding { rest, .. } => leftover_below(rest.leftover, root),
            FeedTaskView::Writing { rest, .. } => leftover_below(rest.leftover, root),
            FeedTaskView::FlushingLast { rest } => leftover_below(rest.leftover, root),
            FeedTaskView::CheckingRoot { rest } => leftover_below(rest.leftover, root),
            FeedTaskView::CheckingMissing { rest } => leftover_below(rest.leftover, root),
            FeedTaskView::FinalizingBlocks { leftover, .. } => leftover_below(leftover, root),
            FeedTaskView::FinishingWriter { leftover } => leftover_below(leftover, root),
            _ => true,
        }
    }
}

#[verifier::rlimit(30)]
proof fn lemma_feed_step_confined(
    service: ServiceView,
    action: ActionView,
    task: FeedTaskView,
    root: PathView,
    reply: ReplyView,
)
    requires
        feed_confined((service, StepView::Do(action, task)), root),
        reply.kind() == task.awaits(),
    ensures
        feed_confined(service.resume_feed(task, reply), root),
{
    lemma_below(service);
}

proof fn lemma_feed_confined(at: FeedMove, root: PathView, host: Host)
    requires
        answers(host),
        feed_confined(at, root),
    ensures
        forall|i: int|
            0 <= i < feed_run(at, host).trace.len() ==> confined(
                (#[trigger] feed_run(at, host).trace[i]).action,
                root,
            ),
        feed_run(at, host).service.root == root,
        feed_run(at, host).service.guards_below(),
{
    let inv = |at: FeedMove| feed_confined(at, root);
    assert forall|service: ServiceView, action: ActionView, task: FeedTaskView|
        #[trigger] inv((service, StepView::Do(action, task))) implies inv(
        feed_next(service, task, host(action)),
    ) by {
        reveal(feed_next);
        lemma_feed_step_confined(service, action, task, root, host(action));
    }
    lemma_feed_trace(at, host, inv, |asked: Asked| confined(asked.action, root));
    let end = feed_run(at, host);
    assert(inv((end.service, StepView::Return(end.result))));
}

spec fn restore_confined(at: RestoreMove, root: PathView) -> bool {
    &&& at.0.root == root
    &&& at.0.guards_below()
    &&& at.1 matches StepView::Do(action, task) ==> {
        &&& action.reply_kind() == task.awaits()
        &&& confined(action, root)
        &&& match task {
            RestoreTaskView::OpeningDatabase { leftover, .. } => leftover_below(leftover, root),
            RestoreTaskView::Rebuilding { leftover, .. } => leftover_below(leftover, root),
            _ => true,
        }
    }
}

proof fn lemma_restore_confined(at: RestoreMove, root: PathView, host: Host)
    requires
        answers(host),
        restore_confined(at, root),
    ensures
        forall|i: int|
            0 <= i < restore_run(at, host).trace.len() ==> confined(
                (#[trigger] restore_run(at, host).trace[i]).action,
                root,
            ),
        restore_run(at, host).service.root == root,
        restore_run(at, host).service.guards_below(),
{
    let inv = |at: RestoreMove| restore_confined(at, root);
    assert forall|service: ServiceView, action: ActionView, task: RestoreTaskView|
        #[trigger] inv((service, StepView::Do(action, task))) implies inv(
        service.resume_restore(task, host(action)),
    ) by {
        lemma_below(service);
    }
    lemma_restore_trace(at, host, inv, |asked: Asked| confined(asked.action, root));
    let end = restore_run(at, host);
    assert(inv((end.service, StepView::Return(end.result))));
}

spec fn snapshot_confined(at: SnapshotMove, num: u64, root: PathView) -> bool {
    &&& at.0.root == root
    &&& snapshot_ready(at, num)
    &&& at.1 matches StepView::Do(action, task) ==> {
        &&& confined(action, root)
        &&& match task {
            SnapshotTaskView::Taking { leftover, .. } => leftover_below(leftover, root),
            SnapshotTaskView::Judging { leftover, .. } => leftover_below(leftover, root),
            SnapshotTaskView::Holding { leftover } => leftover_below(leftover, root),
            SnapshotTaskView::Checking { leftover } => leftover_below(leftover, root),
            SnapshotTaskView::Removing { leftover } => leftover_below(leftover, root),
            SnapshotTaskView::Renaming { leftover } => leftover_below(leftover, root),
            SnapshotTaskView::Reopening { leftover } => leftover_below(leftover, root),
            _ => true,
        }
    }
}

proof fn lemma_snapshot_confined(at: SnapshotMove, num: u64, root: PathView, host: Host)
    requires
        answers(host),
        in_range(host, num),
        snapshot_confined(at, num, root),
    ensures
        forall|i: int|
            0 <= i < snapshot_run(at, host).trace.len() ==> confined(
                (#[trigger] snapshot_run(at, host).trace[i]).action,
                root,
            ),
{
    let inv = |at: SnapshotMove| snapshot_confined(at, num, root);
    assert forall|service: ServiceView, action: ActionView, task: SnapshotTaskView|
        #[trigger] inv((service, StepView::Do(action, task))) implies inv(
        service.resume_snapshot(task, host(action)),
    ) by {
        lemma_below(service);
    }
    lemma_snapshot_trace(at, host, inv, |asked: Asked| confined(asked.action, root));
}

/// No operation of a service touches anything that does not lie below its root. What a restoration
/// guards stays below the root, too.
pub proof fn law_confined_to_root(
    service: ServiceView,
    manifest: ManifestView,
    recover: bool,
    hash: H256,
    chunk: Seq<u8>,
    is_state: bool,
    num: u64,
    host: Host,
)
    requires
        answers(host),
        service.idle(),
        in_range(host, num),
        service.guards_below(),
    ensures
        forall|run: Run, i: int|
            #![trigger run.trace[i]]
            run == service.init_restore_run(manifest, recover, host) || run
                == service.abort_restore_run(host) || run == service.take_snapshot_run(num, host)
                || run == service.feed_chunk_run(hash, chunk, is_state, host) ==> 0 <= i
                < run.trace.len() ==> confined(run.trace[i].action, service.root),
        service.init_restore_run(manifest, recover, host).service.guards_below(),
        service.abort_restore_run(host).service.guards_below(),
        service.feed_chunk_run(hash, chunk, is_state, host).service.guards_below(),
{
    lemma_below(service);
    lemma_restore_confined(service.init_restore(manifest, recover), service.root, host);
    lemma_restore_confined(service.abort_restore(), service.root, host);
    lemma_snapshot_confined(service.take_snapshot(num), num, service.root, host);
    lemma_feed_confined(service.feed_chunk(hash, chunk, is_state), service.root, host);
}

// ---------------------------------------------------------------------------------------------
// With what reason
// ---------------------------------------------------------------------------------------------

/// The feeding of a chunk, as it begins.
pub struct Feeding {
    /// The service.
    pub service: ServiceView,
    /// The restoration that the chunk is fed to.
    pub rest: RestorationView,
    pub hash: H256,
    pub chunk: Seq<u8>,
    pub is_state: bool,
}

impl Feeding {
    /// The restoration once the chunk is handed in.
    pub open spec fn left(self) -> RestorationView {
        self.rest.without(self.hash, self.is_state)
    }

    /// Whether the chunk is wanted.
    pub open spec fn wanted(self) -> bool {
        self.rest.wants(self.hash, self.is_state)
    }

    /// Whether the chunk is processed without an error.
    pub open spec fn processed(self, host: Host) -> bool {
        ServiceView::processing_error(self.rest, self.hash, self.chunk, self.is_state, host) is None
    }

    /// Whether the chunk was the last, and the restoration is verified without an error.
    pub open spec fn verified(self, host: Host) -> bool {
        self.left().done() && ServiceView::verifying_error(self.left(), host) is None
    }

    /// Whether, besides, the client's database is replaced without an error, and there is a
    /// recovered snapshot.
    pub open spec fn recovers(self, host: Host) -> bool {
        self.verified(host) && self.rest.writer && host(
            ActionView::ReplaceClientDb(self.service.restoration_db()),
        ).error() is None
    }

    /// Whether there is reason for an action.
    pub open spec fn justifies(self, asked: Asked, host: Host) -> bool {
        match asked.action {
            ActionView::Decompress(chunk) => self.wanted() && chunk == self.chunk,
            ActionView::FeedState(data) => self.wanted() && self.is_state && host(
                ActionView::Decompress(self.chunk),
            ) == ReplyView::Bytes(Ok(data)),
            ActionView::FeedBlocks(data) => self.wanted() && !self.is_state && host(
                ActionView::Decompress(self.chunk),
            ) == ReplyView::Bytes(Ok(data)),
            ActionView::WriteStateChunk(hash, chunk) => self.wanted() && self.is_state
                && self.rest.writer && hash == self.hash && chunk == self.chunk,
            ActionView::WriteBlockChunk(hash, chunk) => self.wanted() && !self.is_state
                && self.rest.writer && hash == self.hash && chunk == self.chunk,
            ActionView::FlushDatabase => self.processed(host),
            ActionView::StateRoot => self.left().done(),
            ActionView::CheckMissing => self.left().done(),
            ActionView::FinalizeBlocks(hashes) => self.left().done() && hashes
                == self.rest.canonical_hashes,
            ActionView::FinishWriter(manifest) => self.left().done() && self.rest.writer && manifest
                == self.rest.manifest,
            ActionView::ReplaceClientDb(db) => self.verified(host) && db
                == self.service.restoration_db(),
            ActionView::HoldReader => self.recovers(host),
            ActionView::Exists(dir) => self.recovers(host) && dir == self.service.snapshot_dir(),
            ActionView::Rename { from, to } => self.recovers(host) && asked.service.reader is None
                && from == self.service.temp_recovery_dir() && to == self.service.snapshot_dir(),
            ActionView::OpenReader(dir) => self.recovers(host) && dir
                == self.service.snapshot_dir(),
            ActionView::RemoveDirAll(dir) => dir == self.service.restoration_dir() || (
            self.recovers(host) && asked.service.reader is None && dir
                == self.service.snapshot_dir()),
            ActionView::Discard(leftover) => leftover == self.rest.leftover || (leftover is None
                && self.verified(host)),
            _ => false,
        }
    }

    /// What is known when the feeding waits at `task` for `action`.
    spec fn known(self, action: ActionView, task: FeedTaskView, host: Host) -> bool {
        let left = self.left();
        let data = match host(ActionView::Decompress(self.chunk)) {
            ReplyView::Bytes(Ok(data)) => data,
            _ => Seq::empty(),
        };
        let decompressed = host(ActionView::Decompress(self.chunk)) == ReplyView::Bytes(Ok(data));
        let feed = if self.is_state {
            ActionView::FeedState(data)
        } else {
            ActionView::FeedBlocks(data)
        };
        let write = if self.is_state {
            ActionView::WriteStateChunk(self.hash, self.chunk)
        } else {
            ActionView::WriteBlockChunk(self.hash, self.chunk)
        };
        let root_right = host(ActionView::StateRoot) == ReplyView::Root(left.final_state_root);
        let none_missing = host(ActionView::CheckMissing).error() is None;
        let blocks = ActionView::FinalizeBlocks(left.canonical_hashes);
        match task {
            FeedTaskView::Decompressing { rest, hash, chunk, is_state } => {
                &&& action == ActionView::Decompress(self.chunk)
                &&& self.wanted()
                &&& rest == left && hash == self.hash && chunk == self.chunk && is_state
                    == self.is_state
            },
            FeedTaskView::Feeding { rest, hash, chunk, is_state } => {
                &&& action == feed
                &&& self.wanted() && decompressed
                &&& rest == left && hash == self.hash && chunk == self.chunk && is_state
                    == self.is_state
            },
            FeedTaskView::Writing { rest, is_state } => {
                &&& action == write
                &&& self.wanted() && decompressed && host(feed).error() is None
                &&& left.writer && rest == left && is_state == self.is_state
            },
            FeedTaskView::Flushing => self.processed(host),
            FeedTaskView::FlushingLast { rest } => self.processed(host) && left.done() && rest
                == left,
            FeedTaskView::CheckingRoot { rest } => {
                &&& action == ActionView::StateRoot
                &&& left.done() && rest == left
            },
            FeedTaskView::CheckingMissing { rest } => {
                &&& action == ActionView::CheckMissing
                &&& left.done() && rest == left && root_right
            },
            FeedTaskView::FinalizingBlocks { manifest, writer, leftover } => {
                &&& action == blocks
                &&& left.done() && root_right && none_missing
                &&& manifest == left.manifest && writer == left.writer && leftover == left.leftover
            },
            FeedTaskView::FinishingWriter { leftover } => {
                &&& action == ActionView::FinishWriter(left.manifest)
                &&& left.done() && root_right && none_missing && host(blocks).error() is None
                &&& left.writer && leftover == left.leftover
            },
            FeedTaskView::Closing { recover } => self.verified(host) && recover == left.writer,
            FeedTaskView::Replacing { recover } => {
                &&& action == ActionView::ReplaceClientDb(self.service.restoration_db())
                &&& self.verified(host) && recover == left.writer
            },
            FeedTaskView::Holding => self.recovers(host),
            FeedTaskView::Checking => self.recovers(host),
            FeedTaskView::Removing => self.recovers(host),
            FeedTaskView::Renaming => self.recovers(host),
            FeedTaskView::Reopening => self.recovers(host),
            _ => true,
        }
    }

    /// What holds of each step of the feeding.
    spec fn holds_at(self, at: FeedMove, host: Host) -> bool {
        &&& at.0.root == self.service.root
        &&& at.0.restoration matches Some(rest) ==> rest == self.left()
        &&& feed_sound(at)
        &&& at.1 matches StepView::Do(action, task) ==> {
            &&& self.justifies(Asked { service: at.0, action }, host)
            &&& self.known(action, task, host)
            &&& task is Checking || task is Removing || task is Renaming || task is Reopening
                ==> at.0.reader is None
        }
    }
}

#[verifier::rlimit(30)]
proof fn lemma_step_justified(
    feeding: Feeding,
    service: ServiceView,
    action: ActionView,
    task: FeedTaskView,
    host: Host,
)
    requires
        answers(host),
        feeding.holds_at((service, StepView::Do(action, task)), host),
    ensures
        feeding.holds_at(service.resume_feed(task, host(action)), host),
{
}

/// A feeding asks for nothing without reason:
/// - only a chunk that is wanted is decompressed; what a rebuilder is fed is what that gave, and what
///   is written is the chunk as it came, where there is a writer;
/// - only when nothing is left to be fed is the restoration verified, with all canonical hashes that
///   were noted, and the recovered snapshot finished with the manifest of the restoration;
/// - only when it is verified is the client's database replaced;
/// - only when that is done and there is a recovered snapshot is the current snapshot touched, and
///   it is removed or replaced only while its reader is closed;
/// - nothing else is removed but the restoration directory and what the restoration guards.
pub proof fn law_reason_for_each_action(
    service: ServiceView,
    hash: H256,
    chunk: Seq<u8>,
    is_state: bool,
    host: Host,
)
    requires
        answers(host),
        service.idle(),
        service.restoration is Some,
    ensures
        ({
            let feeding = Feeding {
                service,
                rest: service.restoration->0,
                hash,
                chunk,
                is_state,
            };
            let trace = service.feed_chunk_run(hash, chunk, is_state, host).trace;
            forall|i: int|
                0 <= i < trace.len() ==> feeding.justifies(#[trigger] trace[i], host)
        }),
{
    let rest = service.restoration->0;
    let feeding = Feeding { service, rest, hash, chunk, is_state };
    if service.status is Ongoing {
        assert(!feeding.wanted() ==> feeding.left() =~= rest);
        let inv = |at: FeedMove| feeding.holds_at(at, host);
        assert forall|service: ServiceView, action: ActionView, task: FeedTaskView|
            #[trigger] inv((service, StepView::Do(action, task))) implies inv(
            feed_next(service, task, host(action)),
        ) by {
            reveal(feed_next);
            lemma_step_justified(feeding, service, action, task, host);
        }
        let at = service.feed_chunk(hash, chunk, is_state);
        assert(inv(at));
        lemma_feed_trace(at, host, inv, |asked: Asked| feeding.justifies(asked, host));
    }
}

/// A chunk that is not wanted, with others still to be fed, is only counted: the one action that it
/// leads to is a flush.
pub proof fn law_unwanted_chunk_is_counted(
    service: ServiceView,
    hash: H256,
    chunk: Seq<u8>,
    is_state: bool,
    host: Host,
)
    requires
        answers(host),
        service.idle(),
        service.status is Ongoing,
        service.restoration is Some,
        !service.restoration->0.wants(hash, is_state),
        !service.restoration->0.done(),
        host(ActionView::FlushDatabase).error() is None,
    ensures
        ({
            let run = service.feed_chunk_run(hash, chunk, is_state, host);
            &&& run.result is Ok
            &&& run.service == service.with_counted(is_state)
            &&& run.trace.len() == 1
            &&& run.trace[0].action == ActionView::FlushDatabase
        }),
{
    reveal(feed_next);
    reveal_with_fuel(feed_run, 3);
}

/// Whether a step of a feeding that ends in an error is one that removes the restoration directory
/// last.
spec fn cleans(at: FeedMove, dir: PathView) -> bool {
    &&& at.0.restoration_dir() == dir
    &&& feed_sound(at)
    &&& match at.1 {
        StepView::Do(action, task) => task is Cleaning ==> action == ActionView::RemoveDirAll(dir),
        StepView::Return(result) => result is Ok,
    }
}

#[verifier::rlimit(30)]
proof fn lemma_step_cleans(
    service: ServiceView,
    action: ActionView,
    task: FeedTaskView,
    dir: PathView,
    reply: ReplyView,
)
    requires
        cleans((service, StepView::Do(action, task)), dir),
        reply.kind() == task.awaits(),
    ensures
        ({
            let next = feed_next(service, task, reply);
            cleans(next, dir) || (next.1 is Return && action == ActionView::RemoveDirAll(dir))
        }),
{
    reveal(feed_next);
}

proof fn lemma_cleans(at: FeedMove, dir: PathView, host: Host)
    requires
        answers(host),
        cleans(at, dir),
    ensures
        ({
            let run = feed_run(at, host);
            run.result is Err ==> run.trace.len() > 0 && run.trace.last().action
                == ActionView::RemoveDirAll(dir)
        }),
    decreases feed_rank(at),
{
    if let StepView::Do(action, task) = at.1 {
        let next = feed_next(at.0, task, host(action));
        lemma_feed_rank(at.0, action, task, host(action));
        lemma_step_cleans(at.0, action, task, dir, host(action));
        if next.1 is Do {
            lemma_cleans(next, dir, host);
            let rest = feed_run(next, host).trace;
            assert(rest.len() > 0 ==> feed_run(at, host).trace.last() == rest.last());
        }
    }
}

/// The last thing that a feeding does which ends in an error is to remove the restoration directory.
pub proof fn law_failed_feeding_cleans_up(
    service: ServiceView,
    hash: H256,
    chunk: Seq<u8>,
    is_state: bool,
    host: Host,
)
    requires
        answers(host),
        service.idle(),
    ensures
        ({
            let run = service.feed_chunk_run(hash, chunk, is_state, host);
            run.result is Err ==> run.trace.len() > 0 && run.trace.last().action
                == ActionView::RemoveDirAll(service.restoration_dir())
        }),
{
    lemma_cleans(service.feed_chunk(hash, chunk, is_state), service.restoration_dir(), host);
}

/// A restoration that does not come to be, though its directory was created and its writer opened,
/// is discarded with its directory.
#[verifier::rlimit(30)]
pub proof fn law_failed_beginning_cleans_up(
    service: ServiceView,
    manifest: ManifestView,
    recover: bool,
    host: Host,
)
    requires
        answers(host),
        service.idle(),
        service.init_restore_run(manifest, recover, host).result is Err,
        host(ActionView::RemoveDirAll(service.restoration_dir())).removal_error() is None,
        host(ActionView::CreateDirAll(service.restoration_dir())).error() is None,
        recover ==> host(ActionView::OpenWriter(service.temp_recovery_dir())).error() is None,
    ensures
        ({
            let trace = service.init_restore_run(manifest, recover, host).trace;
            trace.len() > 0 && trace.last().action == ActionView::Discard(
                Some(service.restoration_dir()),
            )
        }),
{
    law_init_outcome(service, manifest, recover, host);
    reveal_with_fuel(restore_run, 8);
}

/// When a snapshot has been handed to the client to be written, and does not become the current one,
/// the last thing that happens is that what there is of it is removed.
#[verifier::rlimit(30)]
pub proof fn law_unfinished_snapshot_goes(service: ServiceView, num: u64, host: Host)
    requires
        answers(host),
        in_range(host, num),
        !service.swapping,
        !service.taking_snapshot,
        host(ActionView::OpenWriter(service.temp_snapshot_dir())).error() is None,
    ensures
        ({
            let run = service.take_snapshot_run(num, host);
            run.result is Err || host(ActionView::TakeSnapshot(num)).error() is Some
                ==> run.trace.len() > 0 && run.trace.last().action == ActionView::RemoveDirAll(
                service.temp_snapshot_dir(),
            )
        }),
{
    law_take_outcome(service, num, host);
    reveal_with_fuel(snapshot_run, 11);
}

/// Whether the current snapshot is removed or replaced only while its reader is closed.
pub open spec fn reader_closed(asked: Asked) -> bool {
    match asked.action {
        ActionView::RemoveDirAll(dir) => dir == asked.service.snapshot_dir()
            ==> asked.service.reader is None,
        ActionView::Rename { to, .. } => to == asked.service.snapshot_dir()
            ==> asked.service.reader is None,
        _ => true,
    }
}

spec fn snapshot_careful(at: SnapshotMove, num: u64, temp: PathView) -> bool {
    &&& at.0.temp_snapshot_dir() == temp
    &&& snapshot_ready(at, num)
    &&& at.1 matches StepView::Do(action, task) ==> {
        &&& reader_closed(Asked { service: at.0, action })
        &&& match task {
            SnapshotTaskView::Taking { leftover, .. } => leftover == Some(temp),
            SnapshotTaskView::Judging { leftover, .. } => leftover == Some(temp),
            SnapshotTaskView::Holding { leftover } => leftover == Some(temp),
            SnapshotTaskView::Checking { leftover } => at.0.reader is None && leftover == Some(temp),
            SnapshotTaskView::Removing { leftover } => at.0.reader is None && leftover == Some(temp),
            SnapshotTaskView::Renaming { leftover } => at.0.reader is None && leftover == Some(temp),
            SnapshotTaskView::Reopening { leftover } => at.0.reader is None && leftover == Some(
                temp,
            ),
            _ => true,
        }
    }
}

/// A snapshot that is taken replaces the current one only while the reader of that one is closed.
pub proof fn law_reader_closed_for_snapshot(service: ServiceView, num: u64, host: Host)
    requires
        answers(host),
        !service.swapping,
        in_range(host, num),
    ensures
        ({
            let trace = service.take_snapshot_run(num, host).trace;
            forall|i: int| 0 <= i < trace.len() ==> reader_closed(#[trigger] trace[i])
        }),
{
    let temp = service.temp_snapshot_dir();
    let inv = |at: SnapshotMove| snapshot_careful(at, num, temp);
    assert forall|service: ServiceView, action: ActionView, task: SnapshotTaskView|
        #[trigger] inv((service, StepView::Do(action, task))) implies inv(
        service.resume_snapshot(task, host(action)),
    ) by {
        law_directories_apart(service);
    }
    let at = service.take_snapshot(num);
    assert(inv(at));
    lemma_snapshot_trace(at, host, inv, |asked: Asked| reader_closed(asked));
}

} // verus!
