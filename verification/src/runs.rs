//! Whole operations: what comes of one when a host performs its actions, one after the other, and
//! answers each.

use vstd::prelude::*;

use crate::error::Error;
use crate::feed::{FeedMove, FeedTaskView};
use crate::hash::H256;
use crate::host::{ActionView, ReplyView, StepView};
use crate::manifest::ManifestView;
use crate::restore::{RestoreMove, RestoreTaskView};
use crate::service::ServiceView;
use crate::snapshot::{SnapshotMove, SnapshotTaskView};
use crate::startup::{StartupStage, StartupStepView};

verus! {

/// A host, by what it answers to each action.
pub type Host = spec_fn(ActionView) -> ReplyView;

/// Whether a host answers each action with the kind of reply that goes with it.
pub open spec fn answers(host: Host) -> bool {
    forall|action: ActionView| (#[trigger] host(action)).kind() == action.reply_kind()
}

/// Whether the pruning history that a host gives for block `num` ends at a block number.
pub open spec fn in_range(host: Host, num: u64) -> bool {
    host(ActionView::ChainInfo) matches ReplyView::Chain { pruning_history, .. } ==> num
        + pruning_history <= u64::MAX
}

/// A whole operation.
pub struct Run {
    /// The service that it leaves.
    pub service: ServiceView,
    /// What it returns.
    pub result: Result<(), Error>,
    /// The actions that it asked for, in their order, each with the service as it was by then.
    pub trace: Seq<Asked>,
}

/// An action that was asked for.
pub struct Asked {
    /// The service, when it waited for the action.
    pub service: ServiceView,
    /// The action.
    pub action: ActionView,
}

impl Run {
    /// The run that first asks for `action`, with the service as given, and then goes on as this
    /// one.
    pub open spec fn after(self, service: ServiceView, action: ActionView) -> Self {
        Run { trace: seq![Asked { service, action }] + self.trace, ..self }
    }

    /// The run of an operation that returns at once.
    pub open spec fn at_once(service: ServiceView, result: Result<(), Error>) -> Self {
        Run { service, result, trace: Seq::empty() }
    }
}

impl RestoreTaskView {
    /// How many steps are left at most.
    pub open spec fn rank(self) -> nat {
        match self {
            RestoreTaskView::TearingDown { .. } => 7,
            RestoreTaskView::Removing { .. } => 6,
            RestoreTaskView::Creating { .. } => 5,
            RestoreTaskView::OpeningWriter { .. } => 4,
            RestoreTaskView::OpeningDatabase { .. } => 3,
            RestoreTaskView::Rebuilding { .. } => 2,
            RestoreTaskView::Abandoning { .. } => 1,
            RestoreTaskView::Aborting => 1,
        }
    }
}

/// The rank of a step: that of its task.
pub open spec fn restore_rank(step: StepView<RestoreTaskView>) -> nat {
    match step {
        StepView::Do(_, task) => task.rank(),
        StepView::Return(_) => 0,
    }
}

/// The run of `init_restore` or `abort_restore` from one of its steps on.
pub open spec fn restore_run(at: RestoreMove, host: Host) -> Run
    decreases restore_rank(at.1),
{
    match at.1 {
        StepView::Return(result) => Run::at_once(at.0, result),
        StepView::Do(action, task) => if host(action).kind() == task.awaits() {
            restore_run(at.0.resume_restore(task, host(action)), host).after(at.0, action)
        } else {
            arbitrary()
        },
    }
}

impl SnapshotTaskView {
    /// How many steps are left at most.
    pub open spec fn rank(self) -> nat {
        match self {
            SnapshotTaskView::Resetting { .. } => 10,
            SnapshotTaskView::Clearing { .. } => 9,
            SnapshotTaskView::OpeningWriter { .. } => 8,
            SnapshotTaskView::Taking { .. } => 7,
            SnapshotTaskView::Judging { .. } => 6,
            SnapshotTaskView::Holding { .. } => 6,
            SnapshotTaskView::Checking { .. } => 5,
            SnapshotTaskView::Removing { .. } => 4,
            SnapshotTaskView::Renaming { .. } => 3,
            SnapshotTaskView::Reopening { .. } => 2,
            SnapshotTaskView::Dropping { .. } => 1,
        }
    }
}

/// The rank of a step: that of its task.
pub open spec fn snapshot_rank(step: StepView<SnapshotTaskView>) -> nat {
    match step {
        StepView::Do(_, task) => task.rank(),
        StepView::Return(_) => 0,
    }
}

/// The run of `take_snapshot` from one of its steps on.
pub open spec fn snapshot_run(at: SnapshotMove, host: Host) -> Run
    decreases snapshot_rank(at.1),
{
    match at.1 {
        StepView::Return(result) => Run::at_once(at.0, result),
        StepView::Do(action, task) => if at.0.snapshot_may_resume(task, host(action)) {
            snapshot_run(at.0.resume_snapshot(task, host(action)), host).after(at.0, action)
        } else {
            arbitrary()
        },
    }
}

/// Where `take_snapshot` stands, from one of its steps on, after a number of further steps.
pub open spec fn snapshot_after(at: SnapshotMove, host: Host, n: nat) -> SnapshotMove
    decreases n,
{
    if n == 0 {
        at
    } else {
        let (service, step) = snapshot_after(at, host, (n - 1) as nat);
        match step {
            StepView::Return(_) => (service, step),
            StepView::Do(action, task) => service.resume_snapshot(task, host(action)),
        }
    }
}

impl FeedTaskView {
    /// How many steps are left at most, but for the discarding of a restoration that the service
    /// holds.
    pub open spec fn rank(self) -> nat {
        match self {
            FeedTaskView::Decompressing { .. } => 18,
            FeedTaskView::Feeding { .. } => 17,
            FeedTaskView::Writing { .. } => 16,
            FeedTaskView::Flushing => 15,
            FeedTaskView::FlushingLast { .. } => 15,
            FeedTaskView::CheckingRoot { .. } => 14,
            FeedTaskView::CheckingMissing { .. } => 13,
            FeedTaskView::FinalizingBlocks { .. } => 12,
            FeedTaskView::FinishingWriter { .. } => 11,
            FeedTaskView::Closing { .. } => 10,
            FeedTaskView::Replacing { .. } => 9,
            FeedTaskView::Holding => 8,
            FeedTaskView::Checking => 7,
            FeedTaskView::Removing => 6,
            FeedTaskView::Renaming => 5,
            FeedTaskView::Reopening => 4,
            FeedTaskView::Ending => 3,
            FeedTaskView::Failing { .. } => 2,
            FeedTaskView::Cleaning { .. } => 1,
        }
    }
}

/// The rank of a step: that of its task, and then whether the service holds a restoration.
pub open spec fn feed_rank(at: FeedMove) -> nat {
    match at.1 {
        StepView::Do(_, task) => 2 * task.rank() + if at.0.restoration is Some {
            1nat
        } else {
            0nat
        },
        StepView::Return(_) => 0,
    }
}

/// What follows on a step when the host has answered.
#[verifier::opaque]
pub open spec fn feed_next(service: ServiceView, task: FeedTaskView, reply: ReplyView) -> FeedMove {
    service.resume_feed(task, reply)
}

/// The run of `feed_state_chunk` or `feed_block_chunk` from one of its steps on.
pub open spec fn feed_run(at: FeedMove, host: Host) -> Run
    decreases feed_rank(at),
{
    match at.1 {
        StepView::Return(result) => Run::at_once(at.0, result),
        StepView::Do(action, task) => if at.0.feed_may_resume(task, host(action)) {
            proof {
                reveal(feed_next);
            }
            feed_run(feed_next(at.0, task, host(action)), host).after(at.0, action)
        } else {
            arbitrary()
        },
    }
}

/// Where `feed_state_chunk` or `feed_block_chunk` stands, from one of its steps on, after a number of
/// further steps.
pub open spec fn feed_after(at: FeedMove, host: Host, n: nat) -> FeedMove
    decreases n,
{
    if n == 0 {
        at
    } else {
        let (service, step) = feed_after(at, host, (n - 1) as nat);
        match step {
            StepView::Return(_) => (service, step),
            StepView::Do(action, task) => feed_next(service, task, host(action)),
        }
    }
}

impl ServiceView {
    /// The whole of `init_restore`.
    pub open spec fn init_restore_run(
        self,
        manifest: ManifestView,
        recover: bool,
        host: Host,
    ) -> Run {
        restore_run(self.init_restore(manifest, recover), host)
    }

    /// The whole of `abort_restore`.
    pub open spec fn abort_restore_run(self, host: Host) -> Run {
        restore_run(self.abort_restore(), host)
    }

    /// The whole of `take_snapshot`.
    pub open spec fn take_snapshot_run(self, num: u64, host: Host) -> Run {
        snapshot_run(self.take_snapshot(num), host)
    }

    /// The whole of `feed_state_chunk` or `feed_block_chunk`.
    pub open spec fn feed_chunk_run(
        self,
        hash: H256,
        chunk: Seq<u8>,
        is_state: bool,
        host: Host,
    ) -> Run {
        feed_run(self.feed_chunk(hash, chunk, is_state), host)
    }
}

/// How many steps the creation of a service has left at most.
pub open spec fn startup_rank(step: StartupStepView) -> nat {
    match step {
        StartupStepView::Do(_, startup) => match startup.stage {
            StartupStage::CreatingRoot => 4,
            StartupStage::RemovingRestoration => 3,
            StartupStage::RemovingTemp => 2,
            StartupStage::OpeningReader => 1,
        },
        _ => 0,
    }
}

/// The creation of a service from one of its steps on: the service or the error that it ends with,
/// and the actions that it asked for.
pub open spec fn startup_run(step: StartupStepView, host: Host) -> (
    Result<ServiceView, Error>,
    Seq<ActionView>,
)
    decreases startup_rank(step),
{
    match step {
        StartupStepView::Ready(service) => (Ok(service), Seq::empty()),
        StartupStepView::Failed(error) => (Err(error), Seq::empty()),
        StartupStepView::Do(action, startup) => if host(action).kind() == startup.stage.awaited() {
            let rest = startup_run(startup.resume(host(action)), host);
            (rest.0, seq![action] + rest.1)
        } else {
            arbitrary()
        },
    }
}

} // verus!
