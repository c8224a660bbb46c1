//! Taking snapshots.

use vstd::prelude::*;

use crate::error::Error;
use crate::guard::Guard;
use crate::host::{Action, ActionView, Reply, ReplyKind, ReplyView, Step, StepView};
use crate::path::PathView;
use crate::service::{LooseReader, ReaderView, Service, ServiceView};

verus! {

/// How far `take_snapshot` has come: what it waits for.
#[derive(Debug)]
pub enum SnapshotTask {
    /// The progress to be set back.
    Resetting { num: u64 },
    /// What an earlier snapshot left unfinished to be removed.
    Clearing { num: u64 },
    /// The writer to be opened.
    OpeningWriter { num: u64 },
    /// The client to write the snapshot.
    Taking { num: u64, guard: Guard },
    /// The client to tell where its chain stands, since it failed to write the snapshot.
    Judging { num: u64, guard: Guard, error: Error },
    /// The current snapshot to be held for replacing.
    Holding { guard: Guard },
    /// Whether there is an old snapshot.
    Checking { guard: Guard },
    /// The old snapshot to be removed.
    Removing { guard: Guard },
    /// The new snapshot to be moved to its place.
    Renaming { guard: Guard },
    /// The new snapshot to be opened.
    Reopening { guard: Guard },
    /// The unfinished snapshot to be removed; then the operation returns this.
    Dropping { result: Result<(), Error> },
}

/// The value of a task.
pub enum SnapshotTaskView {
    Resetting { num: u64 },
    Clearing { num: u64 },
    OpeningWriter { num: u64 },
    Taking { num: u64, leftover: Option<PathView> },
    Judging { num: u64, leftover: Option<PathView>, error: Error },
    Holding { leftover: Option<PathView> },
    Checking { leftover: Option<PathView> },
    Removing { leftover: Option<PathView> },
    Renaming { leftover: Option<PathView> },
    Reopening { leftover: Option<PathView> },
    Dropping { result: Result<(), Error> },
}

impl View for SnapshotTask {
    type V = SnapshotTaskView;

    open spec fn view(&self) -> SnapshotTaskView {
        match *self {
            SnapshotTask::Resetting { num } => SnapshotTaskView::Resetting { num },
            SnapshotTask::Clearing { num } => SnapshotTaskView::Clearing { num },
            SnapshotTask::OpeningWriter { num } => SnapshotTaskView::OpeningWriter { num },
            SnapshotTask::Taking { num, guard } => SnapshotTaskView::Taking {
                num,
                leftover: guard.leftover(),
            },
            SnapshotTask::Judging { num, guard, error } => SnapshotTaskView::Judging {
                num,
                leftover: guard.leftover(),
                error,
            },
            SnapshotTask::Holding { guard } => SnapshotTaskView::Holding {
                leftover: guard.leftover(),
            },
            SnapshotTask::Checking { guard } => SnapshotTaskView::Checking {
                leftover: guard.leftover(),
            },
            SnapshotTask::Removing { guard } => SnapshotTaskView::Removing {
                leftover: guard.leftover(),
            },
            SnapshotTask::Renaming { guard } => SnapshotTaskView::Renaming {
                leftover: guard.leftover(),
            },
            SnapshotTask::Reopening { guard } => SnapshotTaskView::Reopening {
                leftover: guard.leftover(),
            },
            SnapshotTask::Dropping { result } => SnapshotTaskView::Dropping { result },
        }
    }
}

impl SnapshotTaskView {
    /// The kind of reply that the task waits for.
    pub open spec fn awaits(self) -> ReplyKind {
        match self {
            SnapshotTaskView::Resetting { .. } => ReplyKind::Unit,
            SnapshotTaskView::Clearing { .. } => ReplyKind::Io,
            SnapshotTaskView::OpeningWriter { .. } => ReplyKind::Done,
            SnapshotTaskView::Taking { .. } => ReplyKind::Done,
            SnapshotTaskView::Judging { .. } => ReplyKind::Chain,
            SnapshotTaskView::Holding { .. } => ReplyKind::Unit,
            SnapshotTaskView::Checking { .. } => ReplyKind::Flag,
            SnapshotTaskView::Removing { .. } => ReplyKind::Io,
            SnapshotTaskView::Renaming { .. } => ReplyKind::Io,
            SnapshotTaskView::Reopening { .. } => ReplyKind::Reader,
            SnapshotTaskView::Dropping { .. } => ReplyKind::Io,
        }
    }

    /// Whether the client is at the snapshot, or about to be.
    pub open spec fn takes(self) -> bool {
        self is Resetting || self is Clearing || self is OpeningWriter || self is Taking
    }

    /// Whether the operation is at replacing the current snapshot.
    pub open spec fn swaps(self) -> bool {
        self is Checking || self is Removing || self is Renaming || self is Reopening
    }

    /// Whether the task can go on from this reply: it has the right kind, and the end of the
    /// pruning history that it gives for the block of the snapshot is a block number.
    pub open spec fn accepts(self, reply: ReplyView) -> bool {
        &&& reply.kind() == self.awaits()
        &&& (self matches SnapshotTaskView::Judging { num, .. } ==> reply matches ReplyView::Chain {
            pruning_history,
            ..
        } ==> num + pruning_history <= u64::MAX)
    }
}

/// Whether the state at block `num` is pruned by the time that the chain has come to
/// `best_block_number`.
pub open spec fn is_pruned(best_block_number: u64, num: u64, pruning_history: u64) -> bool {
    best_block_number >= num + pruning_history
}

/// An operation on snapshots: the service it leaves, and its step.
pub type SnapshotMove = (ServiceView, StepView<SnapshotTaskView>);

/// Let go of the unfinished snapshot: remove its directory if the guard still holds it. Then return
/// `result`.
pub open spec fn drop_snapshot(leftover: Option<PathView>, result: Result<(), Error>) -> StepView<
    SnapshotTaskView,
> {
    match leftover {
        Some(dir) => StepView::Do(
            ActionView::RemoveDirAll(dir),
            SnapshotTaskView::Dropping { result },
        ),
        None => StepView::Return(result),
    }
}

impl ServiceView {
    /// How a snapshot begins: not at all, if another one is being taken.
    pub open spec fn take_snapshot(self, num: u64) -> SnapshotMove {
        if self.taking_snapshot {
            (self, StepView::Return(Ok(())))
        } else {
            (
                ServiceView { taking_snapshot: true, ..self },
                StepView::Do(ActionView::ResetProgress, SnapshotTaskView::Resetting { num }),
            )
        }
    }

    /// Move the new snapshot to the place of the current one.
    pub open spec fn place_snapshot(self, leftover: Option<PathView>) -> StepView<SnapshotTaskView> {
        StepView::Do(
            ActionView::Rename { from: self.temp_snapshot_dir(), to: self.snapshot_dir() },
            SnapshotTaskView::Renaming { leftover },
        )
    }

    /// Whether a snapshot can go on: the task accepts the reply, and the current snapshot is held
    /// for replacing by one operation at a time.
    pub open spec fn snapshot_may_resume(self, task: SnapshotTaskView, reply: ReplyView) -> bool {
        &&& task.accepts(reply)
        &&& task is Holding ==> !self.swapping
    }

    /// What follows when the host has answered `reply` to the action that `task` waits for.
    pub open spec fn resume_snapshot(self, task: SnapshotTaskView, reply: ReplyView) -> SnapshotMove {
        match (task, reply) {
            (SnapshotTaskView::Resetting { num }, _) => (
                self,
                StepView::Do(
                    ActionView::RemoveDirAll(self.temp_snapshot_dir()),
                    SnapshotTaskView::Clearing { num },
                ),
            ),
            // Whether there was anything to remove makes no difference.
            (SnapshotTaskView::Clearing { num }, _) => (
                self,
                StepView::Do(
                    ActionView::OpenWriter(self.temp_snapshot_dir()),
                    SnapshotTaskView::OpeningWriter { num },
                ),
            ),
            // A snapshot that cannot be written leaves the service at taking it.
            (SnapshotTaskView::OpeningWriter { num }, ReplyView::Done(result)) => (
                self,
                match result {
                    Err(e) => StepView::Return(Err(e)),
                    Ok(()) => StepView::Do(
                        ActionView::TakeSnapshot(num),
                        SnapshotTaskView::Taking { num, leftover: Some(self.temp_snapshot_dir()) },
                    ),
                },
            ),
            (SnapshotTaskView::Taking { num, leftover }, ReplyView::Done(result)) => match result {
                Err(error) => (
                    ServiceView { taking_snapshot: false, ..self },
                    StepView::Do(
                        ActionView::ChainInfo,
                        SnapshotTaskView::Judging { num, leftover, error },
                    ),
                ),
                Ok(()) => (
                    ServiceView { taking_snapshot: false, ..self },
                    StepView::Do(ActionView::HoldReader, SnapshotTaskView::Holding { leftover }),
                ),
            },
            // The old reader goes before its snapshot does.
            (SnapshotTaskView::Holding { leftover }, _) => (
                ServiceView { reader: None, swapping: true, ..self },
                StepView::Do(
                    ActionView::Exists(self.snapshot_dir()),
                    SnapshotTaskView::Checking { leftover },
                ),
            ),
            // A snapshot of a state that was pruned under way is no error.
            (
                SnapshotTaskView::Judging { num, leftover, error },
                ReplyView::Chain { best_block_number, pruning_history },
            ) => (
                self,
                drop_snapshot(
                    leftover,
                    if is_pruned(best_block_number, num, pruning_history) {
                        Ok(())
                    } else {
                        Err(error)
                    },
                ),
            ),
            (SnapshotTaskView::Checking { leftover }, ReplyView::Flag(exists)) => (
                self,
                if exists {
                    StepView::Do(
                        ActionView::RemoveDirAll(self.snapshot_dir()),
                        SnapshotTaskView::Removing { leftover },
                    )
                } else {
                    self.place_snapshot(leftover)
                },
            ),
            (SnapshotTaskView::Removing { leftover }, ReplyView::Io(result)) => match result {
                Err(e) => (
                    ServiceView { swapping: false, ..self },
                    drop_snapshot(leftover, Err(Error::StdIo(e))),
                ),
                Ok(()) => (self, self.place_snapshot(leftover)),
            },
            (SnapshotTaskView::Renaming { leftover }, ReplyView::Io(result)) => match result {
                Err(e) => (
                    ServiceView { swapping: false, ..self },
                    drop_snapshot(leftover, Err(Error::StdIo(e))),
                ),
                Ok(()) => (
                    self,
                    StepView::Do(
                        ActionView::OpenReader(self.snapshot_dir()),
                        SnapshotTaskView::Reopening { leftover },
                    ),
                ),
            },
            (SnapshotTaskView::Reopening { leftover }, ReplyView::Reader(result)) => match result {
                Err(e) => (
                    ServiceView { swapping: false, ..self },
                    drop_snapshot(leftover, Err(e)),
                ),
                Ok(manifest) => (
                    ServiceView {
                        reader: Some(ReaderView { dir: self.snapshot_dir(), manifest }),
                        swapping: false,
                        ..self
                    },
                    StepView::Return(Ok(())),
                ),
            },
            (SnapshotTaskView::Dropping { result }, _) => (self, StepView::Return(result)),
            _ => arbitrary(),
        }
    }
}

/// Lets go of the guard over an unfinished snapshot, and then returns the result.
fn drop_snapshot_guard(guard: Guard, result: Result<(), Error>) -> (step: Step<
    'static,
    SnapshotTask,
>)
    ensures
        step@ == drop_snapshot(guard.leftover(), result),
{
    match guard.drop() {
        Some(dir) => Step::Do(Action::RemoveDirAll(dir), SnapshotTask::Dropping { result }),
        None => Step::Return(result),
    }
}

impl SnapshotTask {
    /// The kind of reply that the task waits for.
    pub fn awaits(&self) -> (kind: ReplyKind)
        ensures
            kind == self@.awaits(),
    {
        match self {
            SnapshotTask::Resetting { .. } => ReplyKind::Unit,
            SnapshotTask::Clearing { .. } => ReplyKind::Io,
            SnapshotTask::OpeningWriter { .. } => ReplyKind::Done,
            SnapshotTask::Taking { .. } => ReplyKind::Done,
            SnapshotTask::Judging { .. } => ReplyKind::Chain,
            SnapshotTask::Holding { .. } => ReplyKind::Unit,
            SnapshotTask::Checking { .. } => ReplyKind::Flag,
            SnapshotTask::Removing { .. } => ReplyKind::Io,
            SnapshotTask::Renaming { .. } => ReplyKind::Io,
            SnapshotTask::Reopening { .. } => ReplyKind::Reader,
            SnapshotTask::Dropping { .. } => ReplyKind::Io,
        }
    }

    /// Whether the task can go on from this reply.
    pub fn accepts(&self, reply: &Reply) -> (accepted: bool)
        ensures
            accepted == self@.accepts(reply@),
    {
        if reply.kind() != self.awaits() {
            return false;
        }
        match (self, reply) {
            (SnapshotTask::Judging { num, .. }, Reply::Chain { pruning_history, .. }) => {
                *pruning_history <= u64::MAX - *num
            },
            _ => true,
        }
    }
}

impl Service {
    /// Take a snapshot at the block with the given number.
    /// Calling this while a restoration is in progress or vice versa
    /// will lead to a race condition where the first one to finish will
    /// have their produced snapshot overwritten.
    pub fn take_snapshot(&mut self, num: u64) -> (step: Step<'static, SnapshotTask>)
        ensures
            (final(self)@, step@) == old(self)@.take_snapshot(num),
    {
        if self.taking_snapshot {
            return Step::Return(Ok(()));
        }
        self.taking_snapshot = true;
        Step::Do(Action::ResetProgress, SnapshotTask::Resetting { num })
    }

    fn place_snapshot(&self, guard: Guard) -> (step: Step<'static, SnapshotTask>)
        ensures
            step@ == self@.place_snapshot(guard.leftover()),
    {
        Step::Do(
            Action::Rename { from: self.temp_snapshot_dir(), to: self.snapshot_dir() },
            SnapshotTask::Renaming { guard },
        )
    }

    /// Whether a snapshot can go on from this reply.
    pub fn snapshot_may_resume(&self, task: &SnapshotTask, reply: &Reply) -> (may: bool)
        ensures
            may == self@.snapshot_may_resume(task@, reply@),
    {
        if !task.accepts(reply) {
            return false;
        }
        match task {
            SnapshotTask::Holding { .. } => !self.swapping,
            _ => true,
        }
    }

    /// Goes on with `take_snapshot` when the host has answered.
    pub fn resume_snapshot(&mut self, task: SnapshotTask, reply: Reply) -> (step: Step<
        'static,
        SnapshotTask,
    >)
        requires
            old(self)@.snapshot_may_resume(task@, reply@),
        ensures
            (final(self)@, step@) == old(self)@.resume_snapshot(task@, reply@),
    {
        match (task, reply) {
            (SnapshotTask::Resetting { num }, _) => Step::Do(
                Action::RemoveDirAll(self.temp_snapshot_dir()),
                SnapshotTask::Clearing { num },
            ),
            (SnapshotTask::Clearing { num }, _) => Step::Do(
                Action::OpenWriter(self.temp_snapshot_dir()),
                SnapshotTask::OpeningWriter { num },
            ),
            (SnapshotTask::OpeningWriter { num }, Reply::Done(result)) => {
                match result {
                    Err(e) => Step::Return(Err(e)),
                    Ok(()) => Step::Do(
                        Action::TakeSnapshot(num),
                        SnapshotTask::Taking { num, guard: Guard::new(self.temp_snapshot_dir()) },
                    ),
                }
            },
            (SnapshotTask::Taking { num, guard }, Reply::Done(result)) => {
                self.taking_snapshot = false;
                match result {
                    Err(error) => Step::Do(
                        Action::ChainInfo,
                        SnapshotTask::Judging { num, guard, error },
                    ),
                    Ok(()) => Step::Do(Action::HoldReader, SnapshotTask::Holding { guard }),
                }
            },
            (SnapshotTask::Holding { guard }, _) => {
                self.swapping = true;
                // destroy the old snapshot reader.
                self.reader = None;
                Step::Do(Action::Exists(self.snapshot_dir()), SnapshotTask::Checking { guard })
            },
            (
                SnapshotTask::Judging { num, guard, error },
                Reply::Chain { best_block_number, pruning_history },
            ) => {
                if best_block_number >= num + pruning_history {
                    // the state that the snapshot was taken of got pruned out before the
                    // snapshot was finished.
                    drop_snapshot_guard(guard, Ok(()))
                } else {
                    drop_snapshot_guard(guard, Err(error))
                }
            },
            (SnapshotTask::Checking { guard }, Reply::Flag(exists)) => {
                if exists {
                    Step::Do(
                        Action::RemoveDirAll(self.snapshot_dir()),
                        SnapshotTask::Removing { guard },
                    )
                } else {
                    self.place_snapshot(guard)
                }
            },
            (SnapshotTask::Removing { guard }, Reply::Io(result)) => {
                match result {
                    Err(e) => {
                        self.swapping = false;
                        drop_snapshot_guard(guard, Err(Error::StdIo(e)))
                    },
                    Ok(()) => self.place_snapshot(guard),
                }
            },
            (SnapshotTask::Renaming { guard }, Reply::Io(result)) => {
                match result {
                    Err(e) => {
                        self.swapping = false;
                        drop_snapshot_guard(guard, Err(Error::StdIo(e)))
                    },
                    Ok(()) => Step::Do(
                        Action::OpenReader(self.snapshot_dir()),
                        SnapshotTask::Reopening { guard },
                    ),
                }
            },
            (SnapshotTask::Reopening { guard }, Reply::Reader(result)) => {
                self.swapping = false;
                match result {
                    Err(e) => drop_snapshot_guard(guard, Err(e)),
                    Ok(manifest) => {
                        let dir = self.snapshot_dir();
                        self.reader = Some(LooseReader { dir, manifest });
                        drop_snapshot_guard(guard.disarm(), Ok(()))
                    },
                }
            },
            (SnapshotTask::Dropping { result }, _) => Step::Return(result),
            _ => {
                assert(false);
                Step::Return(Ok(()))
            },
        }
    }
}

} // verus!
