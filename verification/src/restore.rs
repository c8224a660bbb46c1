//! Beginning a restoration, and calling one off.

use vstd::prelude::*;

use crate::error::{Error, IoErrorKind};
use crate::guard::Guard;
use crate::host::{Action, ActionView, Reply, ReplyKind, ReplyView, Step, StepView};
use crate::manifest::{ManifestData, ManifestView};
use crate::path::PathView;
use crate::restoration::{Restoration, RestorationParams, RestorationView};
use crate::service::{Service, ServiceView};
use crate::status::RestorationStatus;

verus! {

/// How far `init_restore` or `abort_restore` has come: what it waits for.
#[derive(Debug)]
pub enum RestoreTask {
    /// The old restoration to be discarded.
    TearingDown { manifest: ManifestData, recover: bool },
    /// The old restoration directory to be removed.
    Removing { manifest: ManifestData, recover: bool },
    /// The restoration directory to be created.
    Creating { manifest: ManifestData, recover: bool },
    /// The writer of the recovered snapshot to be opened.
    OpeningWriter { manifest: ManifestData },
    /// The database to be opened.
    OpeningDatabase { params: RestorationParams },
    /// The rebuilders to be set up.
    Rebuilding { params: RestorationParams },
    /// What was set up so far to be discarded, on account of this error.
    Abandoning { error: Error },
    /// The restoration to be discarded, since it is called off.
    Aborting,
}

/// The value of a task.
pub enum RestoreTaskView {
    TearingDown { manifest: ManifestView, recover: bool },
    Removing { manifest: ManifestView, recover: bool },
    Creating { manifest: ManifestView, recover: bool },
    OpeningWriter { manifest: ManifestView },
    OpeningDatabase { manifest: ManifestView, writer: bool, leftover: Option<PathView> },
    Rebuilding { manifest: ManifestView, writer: bool, leftover: Option<PathView> },
    Abandoning { error: Error },
    Aborting,
}

impl View for RestoreTask {
    type V = RestoreTaskView;

    open spec fn view(&self) -> RestoreTaskView {
        match *self {
            RestoreTask::TearingDown { manifest, recover } => RestoreTaskView::TearingDown {
                manifest: manifest@,
                recover,
            },
            RestoreTask::Removing { manifest, recover } => RestoreTaskView::Removing {
                manifest: manifest@,
                recover,
            },
            RestoreTask::Creating { manifest, recover } => RestoreTaskView::Creating {
                manifest: manifest@,
                recover,
            },
            RestoreTask::OpeningWriter { manifest } => RestoreTaskView::OpeningWriter {
                manifest: manifest@,
            },
            RestoreTask::OpeningDatabase { params } => RestoreTaskView::OpeningDatabase {
                manifest: params.manifest@,
                writer: params.writer,
                leftover: params.guard.leftover(),
            },
            RestoreTask::Rebuilding { params } => RestoreTaskView::Rebuilding {
                manifest: params.manifest@,
                writer: params.writer,
                leftover: params.guard.leftover(),
            },
            RestoreTask::Abandoning { error } => RestoreTaskView::Abandoning { error },
            RestoreTask::Aborting => RestoreTaskView::Aborting,
        }
    }
}

impl RestoreTaskView {
    /// The kind of reply that the task waits for.
    pub open spec fn awaits(self) -> ReplyKind {
        match self {
            RestoreTaskView::TearingDown { .. } => ReplyKind::Unit,
            RestoreTaskView::Removing { .. } => ReplyKind::Io,
            RestoreTaskView::Creating { .. } => ReplyKind::Io,
            RestoreTaskView::OpeningWriter { .. } => ReplyKind::Done,
            RestoreTaskView::OpeningDatabase { .. } => ReplyKind::Database,
            RestoreTaskView::Rebuilding { .. } => ReplyKind::Done,
            RestoreTaskView::Abandoning { .. } => ReplyKind::Unit,
            RestoreTaskView::Aborting => ReplyKind::Unit,
        }
    }
}

/// An operation on restorations: the service it leaves, and its step.
pub type RestoreMove = (ServiceView, StepView<RestoreTaskView>);

impl ServiceView {
    /// The status of a restoration from a manifest that has just begun. All numbers of chunks are
    /// cut to 32 bits.
    pub open spec fn just_begun(self, manifest: ManifestView) -> RestorationStatus {
        RestorationStatus::Ongoing {
            state_chunks: manifest.state_hashes.len() as u32,
            block_chunks: manifest.block_hashes.len() as u32,
            state_chunks_done: self.state_chunks as u32,
            block_chunks_done: self.block_chunks as u32,
        }
    }

    /// How a restoration begins: the counts go back to zero, and the old restoration and its
    /// directory go first.
    pub open spec fn init_restore(self, manifest: ManifestView, recover: bool) -> RestoreMove {
        let service = ServiceView {
            restoration: None,
            state_chunks: 0,
            block_chunks: 0,
            held: true,
            ..self
        };
        match self.restoration {
            Some(rest) => (
                service,
                StepView::Do(
                    ActionView::Discard(rest.leftover),
                    RestoreTaskView::TearingDown { manifest, recover },
                ),
            ),
            None => (service, self.clear_restoration(manifest, recover)),
        }
    }

    /// Remove the restoration directory.
    pub open spec fn clear_restoration(self, manifest: ManifestView, recover: bool) -> StepView<
        RestoreTaskView,
    > {
        StepView::Do(
            ActionView::RemoveDirAll(self.restoration_dir()),
            RestoreTaskView::Removing { manifest, recover },
        )
    }

    /// Open the database; the restoration directory is guarded from here on.
    pub open spec fn open_database(self, manifest: ManifestView, writer: bool) -> StepView<
        RestoreTaskView,
    > {
        StepView::Do(
            ActionView::OpenDatabase(self.restoration_db()),
            RestoreTaskView::OpeningDatabase {
                manifest,
                writer,
                leftover: Some(self.restoration_dir()),
            },
        )
    }

    /// Return with an error: nothing is held any more.
    pub open spec fn give_up(self, error: Error) -> RestoreMove {
        (ServiceView { held: false, ..self }, StepView::Return(Err(error)))
    }

    /// The service once a restoration has begun.
    pub open spec fn begun(
        self,
        manifest: ManifestView,
        writer: bool,
        leftover: Option<PathView>,
    ) -> Self {
        ServiceView {
            restoration: Some(RestorationView::fresh(manifest, writer, leftover)),
            status: self.just_begun(manifest),
            restoring_snapshot: true,
            held: false,
            ..self
        }
    }

    /// How a restoration is called off: it is discarded, if there is one, and the service is
    /// inactive.
    pub open spec fn abort_restore(self) -> RestoreMove {
        match self.restoration {
            Some(rest) => (
                ServiceView { restoration: None, restoring_snapshot: false, held: true, ..self },
                StepView::Do(ActionView::Discard(rest.leftover), RestoreTaskView::Aborting),
            ),
            None => (self.aborted(), StepView::Return(Ok(()))),
        }
    }

    /// What follows when the host has answered `reply` to the action that `task` waits for.
    pub open spec fn resume_restore(self, task: RestoreTaskView, reply: ReplyView) -> RestoreMove {
        match (task, reply) {
            (RestoreTaskView::TearingDown { manifest, recover }, _) => (
                self,
                self.clear_restoration(manifest, recover),
            ),
            // A directory that is not there needs no removing.
            (RestoreTaskView::Removing { manifest, recover }, ReplyView::Io(result)) =>
                match result {
                    Err(e) if e.kind != IoErrorKind::NotFound => self.give_up(Error::StdIo(e)),
                    _ => (
                        self,
                        StepView::Do(
                            ActionView::CreateDirAll(self.restoration_dir()),
                            RestoreTaskView::Creating { manifest, recover },
                        ),
                    ),
                },
            (RestoreTaskView::Creating { manifest, recover }, ReplyView::Io(result)) =>
                match result {
                    Err(e) => self.give_up(Error::StdIo(e)),
                    Ok(()) => (
                        self,
                        if recover {
                            StepView::Do(
                                ActionView::OpenWriter(self.temp_recovery_dir()),
                                RestoreTaskView::OpeningWriter { manifest },
                            )
                        } else {
                            self.open_database(manifest, false)
                        },
                    ),
                },
            (RestoreTaskView::OpeningWriter { manifest }, ReplyView::Done(result)) => match result {
                Err(e) => self.give_up(e),
                Ok(()) => (self, self.open_database(manifest, true)),
            },
            (
                RestoreTaskView::OpeningDatabase { manifest, writer, leftover },
                ReplyView::Database(result),
            ) => (
                self,
                match result {
                    Err(message) => StepView::Do(
                        ActionView::Discard(leftover),
                        RestoreTaskView::Abandoning { error: Error::Util(message) },
                    ),
                    Ok(()) => StepView::Do(
                        ActionView::StartRebuild {
                            genesis: self.genesis_block,
                            pruning: self.pruning,
                            manifest,
                        },
                        RestoreTaskView::Rebuilding { manifest, writer, leftover },
                    ),
                },
            ),
            (
                RestoreTaskView::Rebuilding { manifest, writer, leftover },
                ReplyView::Done(result),
            ) => match result {
                Err(error) => (
                    self,
                    StepView::Do(
                        ActionView::Discard(leftover),
                        RestoreTaskView::Abandoning { error },
                    ),
                ),
                Ok(()) => (self.begun(manifest, writer, leftover), StepView::Return(Ok(()))),
            },
            (RestoreTaskView::Abandoning { error }, _) => self.give_up(error),
            (RestoreTaskView::Aborting, _) => (
                ServiceView { status: RestorationStatus::Inactive, held: false, ..self },
                StepView::Return(Ok(())),
            ),
            _ => arbitrary(),
        }
    }
}

impl RestoreTask {
    /// The kind of reply that the task waits for.
    pub fn awaits(&self) -> (kind: ReplyKind)
        ensures
            kind == self@.awaits(),
    {
        match self {
            RestoreTask::TearingDown { .. } => ReplyKind::Unit,
            RestoreTask::Removing { .. } => ReplyKind::Io,
            RestoreTask::Creating { .. } => ReplyKind::Io,
            RestoreTask::OpeningWriter { .. } => ReplyKind::Done,
            RestoreTask::OpeningDatabase { .. } => ReplyKind::Database,
            RestoreTask::Rebuilding { .. } => ReplyKind::Done,
            RestoreTask::Abandoning { .. } => ReplyKind::Unit,
            RestoreTask::Aborting => ReplyKind::Unit,
        }
    }
}

impl Service {
    /// Initialize the restoration.
    /// The recover flag indicates whether to recover the restored snapshot.
    /// Not while an operation holds the restoration.
    pub fn init_restore(&mut self, manifest: ManifestData, recover: bool) -> (step: Step<
        'static,
        RestoreTask,
    >)
        requires
            !old(self)@.held,
        ensures
            (final(self)@, step@) == old(self)@.init_restore(manifest@, recover),
    {
        self.held = true;
        self.state_chunks = 0;
        self.block_chunks = 0;

        // tear down existing restoration.
        match self.restoration.take() {
            Some(rest) => Step::Do(
                Action::Discard(rest.guard.drop()),
                RestoreTask::TearingDown { manifest, recover },
            ),
            None => self.clear_restoration(manifest, recover),
        }
    }

    fn clear_restoration(&self, manifest: ManifestData, recover: bool) -> (step: Step<
        'static,
        RestoreTask,
    >)
        ensures
            step@ == self@.clear_restoration(manifest@, recover),
    {
        Step::Do(
            Action::RemoveDirAll(self.restoration_dir()),
            RestoreTask::Removing { manifest, recover },
        )
    }

    fn open_database(&self, manifest: ManifestData, writer: bool) -> (step: Step<
        'static,
        RestoreTask,
    >)
        ensures
            step@ == self@.open_database(manifest@, writer),
    {
        let guard = Guard::new(self.restoration_dir());
        Step::Do(
            Action::OpenDatabase(self.restoration_db()),
            RestoreTask::OpeningDatabase { params: RestorationParams { manifest, writer, guard } },
        )
    }

    fn give_up(&mut self, error: Error) -> (step: Step<'static, RestoreTask>)
        ensures
            (final(self)@, step@) == old(self)@.give_up(error),
    {
        self.held = false;
        Step::Return(Err(error))
    }

    /// Goes on with `init_restore` or `abort_restore` when the host has answered.
    pub fn resume_restore(&mut self, task: RestoreTask, reply: Reply) -> (step: Step<
        'static,
        RestoreTask,
    >)
        requires
            reply@.kind() == task@.awaits(),
        ensures
            (final(self)@, step@) == old(self)@.resume_restore(task@, reply@),
    {
        match (task, reply) {
            (RestoreTask::TearingDown { manifest, recover }, _) => self.clear_restoration(
                manifest,
                recover,
            ),
            (RestoreTask::Removing { manifest, recover }, Reply::Io(result)) => {
                if let Err(e) = result {
                    match e.kind {
                        IoErrorKind::NotFound => {},
                        _ => {
                            return self.give_up(Error::StdIo(e));
                        },
                    }
                }
                Step::Do(
                    Action::CreateDirAll(self.restoration_dir()),
                    RestoreTask::Creating { manifest, recover },
                )
            },
            (RestoreTask::Creating { manifest, recover }, Reply::Io(result)) => {
                if let Err(e) = result {
                    return self.give_up(Error::StdIo(e));
                }
                // make new restoration.
                if recover {
                    Step::Do(
                        Action::OpenWriter(self.temp_recovery_dir()),
                        RestoreTask::OpeningWriter { manifest },
                    )
                } else {
                    self.open_database(manifest, false)
                }
            },
            (RestoreTask::OpeningWriter { manifest }, Reply::Done(result)) => {
                match result {
                    Err(e) => self.give_up(e),
                    Ok(()) => self.open_database(manifest, true),
                }
            },
            (RestoreTask::OpeningDatabase { params }, Reply::Database(result)) => {
                match result {
                    Err(message) => Step::Do(
                        Action::Discard(params.guard.drop()),
                        RestoreTask::Abandoning { error: Error::Util(message) },
                    ),
                    Ok(()) => {
                        let genesis = self.genesis_block.clone();
                        assert(genesis@ =~= self.genesis_block@);
                        Step::Do(
                            Action::StartRebuild {
                                genesis,
                                pruning: self.pruning,
                                manifest: params.manifest.clone(),
                            },
                            RestoreTask::Rebuilding { params },
                        )
                    },
                }
            },
            (RestoreTask::Rebuilding { params }, Reply::Done(result)) => {
                match result {
                    Err(error) => Step::Do(
                        Action::Discard(params.guard.drop()),
                        RestoreTask::Abandoning { error },
                    ),
                    Ok(()) => {
                        let state_chunks: usize = params.manifest.state_hashes.len();
                        let block_chunks: usize = params.manifest.block_hashes.len();
                        self.restoration = Some(Restoration::new(params));
                        self.status = RestorationStatus::Ongoing {
                            state_chunks: #[verifier::truncate] (state_chunks as u32),
                            block_chunks: #[verifier::truncate] (block_chunks as u32),
                            state_chunks_done: #[verifier::truncate] (self.state_chunks as u32),
                            block_chunks_done: #[verifier::truncate] (self.block_chunks as u32),
                        };
                        self.restoring_snapshot = true;
                        self.held = false;
                        Step::Return(Ok(()))
                    },
                }
            },
            (RestoreTask::Abandoning { error }, _) => self.give_up(error),
            (RestoreTask::Aborting, _) => {
                self.held = false;
                self.status = RestorationStatus::Inactive;
                Step::Return(Ok(()))
            },
            _ => {
                assert(false);
                Step::Return(Ok(()))
            },
        }
    }

    /// Abort the restoration: it and its directory go, and the service is inactive. Not while an
    /// operation holds the restoration; one that is feeding gives up after `stop_feeding`.
    pub fn abort_restore(&mut self) -> (step: Step<'static, RestoreTask>)
        requires
            !old(self)@.held,
        ensures
            (final(self)@, step@) == old(self)@.abort_restore(),
    {
        self.restoring_snapshot = false;
        match self.restoration.take() {
            Some(rest) => {
                self.held = true;
                Step::Do(Action::Discard(rest.guard.drop()), RestoreTask::Aborting)
            },
            None => {
                self.status = RestorationStatus::Inactive;
                Step::Return(Ok(()))
            },
        }
    }
}

} // verus!
