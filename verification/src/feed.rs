//! Feeding a restoration, and finishing it.

use vstd::prelude::*;

use crate::error::Error;
use crate::guard::Guard;
use crate::hash::H256;
use crate::host::{Action, ActionView, Reply, ReplyKind, ReplyView, Step, StepView};
use crate::manifest::{ManifestData, ManifestView};
use crate::path::PathView;
use crate::restoration::{Restoration, RestorationView};
use crate::service::{restoration_view, LooseReader, ReaderView, Service, ServiceView};
use crate::status::RestorationStatus;

verus! {

/// How far the feeding of a chunk has come: what it waits for. The operation holds the restoration
/// as long as it works on it.
#[derive(Debug)]
pub enum FeedTask<'a> {
    /// The chunk to be decompressed.
    Decompressing { rest: Restoration, hash: H256, chunk: &'a [u8], is_state: bool },
    /// A rebuilder to process the chunk.
    Feeding { rest: Restoration, hash: H256, chunk: &'a [u8], is_state: bool },
    /// The chunk to be written to the recovered snapshot.
    Writing { rest: Restoration, is_state: bool },
    /// The database to be flushed, with chunks still to come.
    Flushing,
    /// The database to be flushed, after the last chunk.
    FlushingLast { rest: Restoration },
    /// The root of the rebuilt state.
    CheckingRoot { rest: Restoration },
    /// The check for missing code.
    CheckingMissing { rest: Restoration },
    /// The chain to be connected and verified.
    FinalizingBlocks { manifest: ManifestData, writer: bool, guard: Guard },
    /// The recovered snapshot to be finished.
    FinishingWriter { guard: Guard },
    /// The restoration to be let go, before its results are put in place.
    Closing { recover: bool },
    /// The client's database to be replaced.
    Replacing { recover: bool },
    /// The current snapshot to be held for replacing.
    Holding,
    /// Whether there is an old snapshot.
    Checking,
    /// The old snapshot to be removed.
    Removing,
    /// The recovered snapshot to be moved to its place.
    Renaming,
    /// The recovered snapshot to be opened.
    Reopening,
    /// The restoration directory to be removed, now that all is in place.
    Ending,
    /// The restoration to be discarded, on account of this error.
    Failing { error: Error },
    /// The restoration directory to be removed, on account of this error.
    Cleaning { error: Error },
}

/// The value of a task.
pub enum FeedTaskView {
    Decompressing { rest: RestorationView, hash: H256, chunk: Seq<u8>, is_state: bool },
    Feeding { rest: RestorationView, hash: H256, chunk: Seq<u8>, is_state: bool },
    Writing { rest: RestorationView, is_state: bool },
    Flushing,
    FlushingLast { rest: RestorationView },
    CheckingRoot { rest: RestorationView },
    CheckingMissing { rest: RestorationView },
    FinalizingBlocks { manifest: ManifestView, writer: bool, leftover: Option<PathView> },
    FinishingWriter { leftover: Option<PathView> },
    Closing { recover: bool },
    Replacing { recover: bool },
    Holding,
    Checking,
    Removing,
    Renaming,
    Reopening,
    Ending,
    Failing { error: Error },
    Cleaning { error: Error },
}

impl<'a> View for FeedTask<'a> {
    type V = FeedTaskView;

    open spec fn view(&self) -> FeedTaskView {
        match *self {
            FeedTask::Decompressing { rest, hash, chunk, is_state } => FeedTaskView::Decompressing {
                rest: rest@,
                hash,
                chunk: chunk@,
                is_state,
            },
            FeedTask::Feeding { rest, hash, chunk, is_state } => FeedTaskView::Feeding {
                rest: rest@,
                hash,
                chunk: chunk@,
                is_state,
            },
            FeedTask::Writing { rest, is_state } => FeedTaskView::Writing { rest: rest@, is_state },
            FeedTask::Flushing => FeedTaskView::Flushing,
            FeedTask::FlushingLast { rest } => FeedTaskView::FlushingLast { rest: rest@ },
            FeedTask::CheckingRoot { rest } => FeedTaskView::CheckingRoot { rest: rest@ },
            FeedTask::CheckingMissing { rest } => FeedTaskView::CheckingMissing { rest: rest@ },
            FeedTask::FinalizingBlocks { manifest, writer, guard } =>
                FeedTaskView::FinalizingBlocks {
                    manifest: manifest@,
                    writer,
                    leftover: guard.leftover(),
                },
            FeedTask::FinishingWriter { guard } => FeedTaskView::FinishingWriter {
                leftover: guard.leftover(),
            },
            FeedTask::Closing { recover } => FeedTaskView::Closing { recover },
            FeedTask::Replacing { recover } => FeedTaskView::Replacing { recover },
            FeedTask::Holding => FeedTaskView::Holding,
            FeedTask::Checking => FeedTaskView::Checking,
            FeedTask::Removing => FeedTaskView::Removing,
            FeedTask::Renaming => FeedTaskView::Renaming,
            FeedTask::Reopening => FeedTaskView::Reopening,
            FeedTask::Ending => FeedTaskView::Ending,
            FeedTask::Failing { error } => FeedTaskView::Failing { error },
            FeedTask::Cleaning { error } => FeedTaskView::Cleaning { error },
        }
    }
}

impl FeedTaskView {
    /// The kind of reply that the task waits for.
    pub open spec fn awaits(self) -> ReplyKind {
        match self {
            FeedTaskView::Decompressing { .. } => ReplyKind::Bytes,
            FeedTaskView::Feeding { .. } => ReplyKind::Done,
            FeedTaskView::Writing { .. } => ReplyKind::Done,
            FeedTaskView::Flushing => ReplyKind::Database,
            FeedTaskView::FlushingLast { .. } => ReplyKind::Database,
            FeedTaskView::CheckingRoot { .. } => ReplyKind::Root,
            FeedTaskView::CheckingMissing { .. } => ReplyKind::Done,
            FeedTaskView::FinalizingBlocks { .. } => ReplyKind::Done,
            FeedTaskView::FinishingWriter { .. } => ReplyKind::Done,
            FeedTaskView::Closing { .. } => ReplyKind::Unit,
            FeedTaskView::Replacing { .. } => ReplyKind::Done,
            FeedTaskView::Holding => ReplyKind::Unit,
            FeedTaskView::Checking => ReplyKind::Flag,
            FeedTaskView::Removing => ReplyKind::Io,
            FeedTaskView::Renaming => ReplyKind::Io,
            FeedTaskView::Reopening => ReplyKind::Reader,
            FeedTaskView::Ending => ReplyKind::Io,
            FeedTaskView::Failing { .. } => ReplyKind::Unit,
            FeedTaskView::Cleaning { .. } => ReplyKind::Io,
        }
    }
}

impl FeedTaskView {
    /// Whether the operation holds the restoration while it waits: always, but while it flushes with
    /// chunks still to come, and while it cleans up at the end.
    pub open spec fn holds(self) -> bool {
        self !is Flushing && self !is Cleaning
    }

    /// Whether the operation is at replacing the current snapshot.
    pub open spec fn swaps(self) -> bool {
        self is Checking || self is Removing || self is Renaming || self is Reopening
    }
}

/// One more than a count; a count that is at its end goes back to zero.
pub open spec fn counted(count: usize) -> usize {
    if count == usize::MAX {
        0
    } else {
        (count + 1) as usize
    }
}

/// An operation on a chunk: the service it leaves, and its step.
pub type FeedMove = (ServiceView, StepView<FeedTaskView>);

/// Let go of a restoration that is finished but for its results: its directory stands unless the
/// guard still holds it.
pub open spec fn close(leftover: Option<PathView>, recover: bool) -> StepView<FeedTaskView> {
    StepView::Do(ActionView::Discard(leftover), FeedTaskView::Closing { recover })
}

/// Discard a restoration on account of an error.
pub open spec fn discard(leftover: Option<PathView>, error: Error) -> StepView<FeedTaskView> {
    StepView::Do(ActionView::Discard(leftover), FeedTaskView::Failing { error })
}

impl RestorationView {
    /// How a restoration is finished: if all is fed it is verified, beginning with the root of the
    /// rebuilt state; otherwise it is let go.
    pub open spec fn finalize(self) -> StepView<FeedTaskView> {
        if self.done() {
            StepView::Do(ActionView::StateRoot, FeedTaskView::CheckingRoot { rest: self })
        } else {
            close(self.leftover, self.writer)
        }
    }
}

impl ServiceView {
    /// How a chunk is fed. Nothing happens if there is no restoration, or the status is wrong. A
    /// chunk that the restoration does not want is counted, and no more.
    pub open spec fn feed_chunk(self, hash: H256, chunk: Seq<u8>, is_state: bool) -> FeedMove {
        match (self.status, self.restoration) {
            (RestorationStatus::Ongoing { .. }, Some(rest)) => {
                let service = ServiceView { restoration: None, held: true, ..self };
                if rest.wants(hash, is_state) {
                    (
                        service,
                        StepView::Do(
                            ActionView::Decompress(chunk),
                            FeedTaskView::Decompressing {
                                rest: rest.without(hash, is_state),
                                hash,
                                chunk,
                                is_state,
                            },
                        ),
                    )
                } else {
                    service.count_chunk(rest, is_state)
                }
            },
            _ => (self, StepView::Return(Ok(()))),
        }
    }

    /// Count a chunk, and flush. When nothing is left to be fed, the operation keeps the
    /// restoration, to finish it.
    pub open spec fn count_chunk(self, rest: RestorationView, is_state: bool) -> FeedMove {
        let service = if is_state {
            ServiceView { state_chunks: counted(self.state_chunks), ..self }
        } else {
            ServiceView { block_chunks: counted(self.block_chunks), ..self }
        };
        if rest.done() {
            (
                service,
                StepView::Do(ActionView::FlushDatabase, FeedTaskView::FlushingLast { rest }),
            )
        } else {
            (
                ServiceView { restoration: Some(rest), held: false, ..service },
                StepView::Do(ActionView::FlushDatabase, FeedTaskView::Flushing),
            )
        }
    }

    /// How a restoration is finished, and its results are put in place.
    pub open spec fn finalize_restoration(self, rest: Option<RestorationView>) -> StepView<
        FeedTaskView,
    > {
        match rest {
            Some(rest) => rest.finalize(),
            None => self.replace_db(false),
        }
    }

    /// Replace the client's database by the restored one.
    pub open spec fn replace_db(self, recover: bool) -> StepView<FeedTaskView> {
        StepView::Do(
            ActionView::ReplaceClientDb(self.restoration_db()),
            FeedTaskView::Replacing { recover },
        )
    }

    /// How an operation fails: the restoration goes, if there is one, then the status is set, and
    /// then the restoration directory goes.
    pub open spec fn fail(self, error: Error) -> FeedMove {
        match self.restoration {
            Some(rest) => (
                ServiceView { restoration: None, held: true, ..self },
                discard(rest.leftover, error),
            ),
            None => (
                ServiceView { status: RestorationStatus::Failed, held: false, ..self },
                StepView::Do(
                    ActionView::RemoveDirAll(self.restoration_dir()),
                    FeedTaskView::Cleaning { error },
                ),
            ),
        }
    }

    /// Remove the restoration directory at the end of a restoration that succeeded.
    pub open spec fn end_restoration(self) -> StepView<FeedTaskView> {
        StepView::Do(ActionView::RemoveDirAll(self.restoration_dir()), FeedTaskView::Ending)
    }

    /// Move the recovered snapshot to the place of the current one.
    pub open spec fn place_recovered(self) -> StepView<FeedTaskView> {
        StepView::Do(
            ActionView::Rename { from: self.temp_recovery_dir(), to: self.snapshot_dir() },
            FeedTaskView::Renaming,
        )
    }

    /// Whether a feeding can go on: the reply has the right kind, the current snapshot is held for
    /// replacing by one operation at a time, and a feeding that had let go of the restoration
    /// discards it only when no other operation holds it.
    pub open spec fn feed_may_resume(self, task: FeedTaskView, reply: ReplyView) -> bool {
        &&& reply.kind() == task.awaits()
        &&& task is Holding ==> !self.swapping
        &&& task is Flushing && reply is Database && reply->Database_0 is Err ==> !self.held
    }

    /// What follows when the host has answered `reply` to the action that `task` waits for.
    pub open spec fn resume_feed(self, task: FeedTaskView, reply: ReplyView) -> FeedMove {
        match (task, reply) {
            (
                FeedTaskView::Decompressing { rest, hash, chunk, is_state },
                ReplyView::Bytes(result),
            ) => (
                self,
                match result {
                    Err(e) => discard(rest.leftover, e),
                    Ok(data) => StepView::Do(
                        if is_state {
                            ActionView::FeedState(data)
                        } else {
                            ActionView::FeedBlocks(data)
                        },
                        FeedTaskView::Feeding { rest, hash, chunk, is_state },
                    ),
                },
            ),
            (FeedTaskView::Feeding { rest, hash, chunk, is_state }, ReplyView::Done(result)) =>
                match result {
                    Err(e) => (self, discard(rest.leftover, e)),
                    Ok(()) => if rest.writer {
                        (
                            self,
                            StepView::Do(
                                if is_state {
                                    ActionView::WriteStateChunk(hash, chunk)
                                } else {
                                    ActionView::WriteBlockChunk(hash, chunk)
                                },
                                FeedTaskView::Writing { rest, is_state },
                            ),
                        )
                    } else {
                        self.count_chunk(rest, is_state)
                    },
                },
            (FeedTaskView::Writing { rest, is_state }, ReplyView::Done(result)) => match result {
                Err(e) => (self, discard(rest.leftover, e)),
                Ok(()) => self.count_chunk(rest, is_state),
            },
            (FeedTaskView::Flushing, ReplyView::Database(result)) => match result {
                Err(message) => self.fail(Error::Util(message)),
                Ok(()) => (self, StepView::Return(Ok(()))),
            },
            (FeedTaskView::FlushingLast { rest }, ReplyView::Database(result)) => (
                self,
                match result {
                    Err(message) => discard(rest.leftover, Error::Util(message)),
                    Ok(()) => self.finalize_restoration(Some(rest)),
                },
            ),
            // The state that was rebuilt has to be the one that the manifest names.
            (FeedTaskView::CheckingRoot { rest }, ReplyView::Root(root)) => (
                self,
                if root == rest.final_state_root {
                    StepView::Do(ActionView::CheckMissing, FeedTaskView::CheckingMissing { rest })
                } else {
                    discard(rest.leftover, Error::InvalidStateRoot(root))
                },
            ),
            (FeedTaskView::CheckingMissing { rest }, ReplyView::Done(result)) => (
                self,
                match result {
                    Err(e) => discard(rest.leftover, e),
                    Ok(()) => StepView::Do(
                        ActionView::FinalizeBlocks(rest.canonical_hashes),
                        FeedTaskView::FinalizingBlocks {
                            manifest: rest.manifest,
                            writer: rest.writer,
                            leftover: rest.leftover,
                        },
                    ),
                },
            ),
            (
                FeedTaskView::FinalizingBlocks { manifest, writer, leftover },
                ReplyView::Done(result),
            ) => (
                self,
                match result {
                    Err(e) => discard(leftover, e),
                    Ok(()) => if writer {
                        StepView::Do(
                            ActionView::FinishWriter(manifest),
                            FeedTaskView::FinishingWriter { leftover },
                        )
                    } else {
                        close(None, false)
                    },
                },
            ),
            (FeedTaskView::FinishingWriter { leftover }, ReplyView::Done(result)) => (
                self,
                match result {
                    Err(e) => discard(leftover, e),
                    Ok(()) => close(None, true),
                },
            ),
            (FeedTaskView::Closing { recover }, _) => (self, self.replace_db(recover)),
            (FeedTaskView::Replacing { recover }, ReplyView::Done(result)) => match result {
                Err(e) => self.fail(e),
                Ok(()) => (
                    self,
                    if recover {
                        StepView::Do(ActionView::HoldReader, FeedTaskView::Holding)
                    } else {
                        self.end_restoration()
                    },
                ),
            },
            // The old reader goes before its snapshot does.
            (FeedTaskView::Holding, _) => (
                ServiceView { reader: None, swapping: true, ..self },
                StepView::Do(ActionView::Exists(self.snapshot_dir()), FeedTaskView::Checking),
            ),
            (FeedTaskView::Checking, ReplyView::Flag(exists)) => (
                self,
                if exists {
                    StepView::Do(
                        ActionView::RemoveDirAll(self.snapshot_dir()),
                        FeedTaskView::Removing,
                    )
                } else {
                    self.place_recovered()
                },
            ),
            (FeedTaskView::Removing, ReplyView::Io(result)) => match result {
                Err(e) => (ServiceView { swapping: false, ..self }).fail(Error::StdIo(e)),
                Ok(()) => (self, self.place_recovered()),
            },
            (FeedTaskView::Renaming, ReplyView::Io(result)) => match result {
                Err(e) => (ServiceView { swapping: false, ..self }).fail(Error::StdIo(e)),
                Ok(()) => (
                    self,
                    StepView::Do(
                        ActionView::OpenReader(self.snapshot_dir()),
                        FeedTaskView::Reopening,
                    ),
                ),
            },
            (FeedTaskView::Reopening, ReplyView::Reader(result)) => match result {
                Err(e) => (ServiceView { swapping: false, ..self }).fail(e),
                Ok(manifest) => (
                    ServiceView {
                        reader: Some(ReaderView { dir: self.snapshot_dir(), manifest }),
                        swapping: false,
                        ..self
                    },
                    self.end_restoration(),
                ),
            },
            // Whether the directory could be removed makes no difference.
            (FeedTaskView::Ending, _) => (
                ServiceView { status: RestorationStatus::Inactive, held: false, ..self },
                StepView::Return(Ok(())),
            ),
            (FeedTaskView::Failing { error }, _) => self.fail(error),
            (FeedTaskView::Cleaning { error }, _) => (self, StepView::Return(Err(error))),
            _ => arbitrary(),
        }
    }
}

impl<'a> FeedTask<'a> {
    /// The kind of reply that the task waits for.
    pub fn awaits(&self) -> (kind: ReplyKind)
        ensures
            kind == self@.awaits(),
    {
        match self {
            FeedTask::Decompressing { .. } => ReplyKind::Bytes,
            FeedTask::Feeding { .. } => ReplyKind::Done,
            FeedTask::Writing { .. } => ReplyKind::Done,
            FeedTask::Flushing => ReplyKind::Database,
            FeedTask::FlushingLast { .. } => ReplyKind::Database,
            FeedTask::CheckingRoot { .. } => ReplyKind::Root,
            FeedTask::CheckingMissing { .. } => ReplyKind::Done,
            FeedTask::FinalizingBlocks { .. } => ReplyKind::Done,
            FeedTask::FinishingWriter { .. } => ReplyKind::Done,
            FeedTask::Closing { .. } => ReplyKind::Unit,
            FeedTask::Replacing { .. } => ReplyKind::Done,
            FeedTask::Holding => ReplyKind::Unit,
            FeedTask::Checking => ReplyKind::Flag,
            FeedTask::Removing => ReplyKind::Io,
            FeedTask::Renaming => ReplyKind::Io,
            FeedTask::Reopening => ReplyKind::Reader,
            FeedTask::Ending => ReplyKind::Io,
            FeedTask::Failing { .. } => ReplyKind::Unit,
            FeedTask::Cleaning { .. } => ReplyKind::Io,
        }
    }
}

/// Lets go of the guard of a restoration that is finished but for its results.
fn close_guard<'a>(guard: Guard, recover: bool) -> (step: Step<'a, FeedTask<'a>>)
    ensures
        step@ == close(guard.leftover(), recover),
{
    Step::Do(Action::Discard(guard.drop()), FeedTask::Closing { recover })
}

/// Lets go of the guard of a restoration on account of an error.
fn discard_guard<'a>(guard: Guard, error: Error) -> (step: Step<'a, FeedTask<'a>>)
    ensures
        step@ == discard(guard.leftover(), error),
{
    Step::Do(Action::Discard(guard.drop()), FeedTask::Failing { error })
}

impl Restoration {
    /// Finish up restoration.
    fn finalize<'a>(self) -> (step: Step<'a, FeedTask<'a>>)
        ensures
            step@ == self@.finalize(),
    {
        if !self.is_done() {
            return close_guard(self.guard, self.writer);
        }
        // verify final state root.
        Step::Do(Action::StateRoot, FeedTask::CheckingRoot { rest: self })
    }
}

impl Service {
    /// Feed a chunk of either kind. No-op if no restoration or status is wrong.
    fn feed_chunk<'a>(&mut self, hash: H256, chunk: &'a [u8], is_state: bool) -> (step: Step<
        'a,
        FeedTask<'a>,
    >)
        requires
            !old(self)@.held,
        ensures
            (final(self)@, step@) == old(self)@.feed_chunk(hash, chunk@, is_state),
    {
        match self.status() {
            RestorationStatus::Inactive | RestorationStatus::Failed => Step::Return(Ok(())),
            RestorationStatus::Ongoing { .. } => {
                let mut rest = match self.restoration.take() {
                    Some(rest) => rest,
                    None => {
                        return Step::Return(Ok(()));
                    },
                };
                let wanted = if is_state {
                    rest.feed_state(hash)
                } else {
                    rest.feed_blocks(hash)
                };
                self.held = true;
                if wanted {
                    Step::Do(
                        Action::Decompress(chunk),
                        FeedTask::Decompressing { rest, hash, chunk, is_state },
                    )
                } else {
                    self.count_chunk(rest, is_state)
                }
            },
        }
    }

    /// Feed a state chunk to be processed. Not while an operation holds the restoration.
    pub fn feed_state_chunk<'a>(&mut self, hash: H256, chunk: &'a [u8]) -> (step: Step<
        'a,
        FeedTask<'a>,
    >)
        requires
            !old(self)@.held,
        ensures
            (final(self)@, step@) == old(self)@.feed_chunk(hash, chunk@, true),
    {
        self.feed_chunk(hash, chunk, true)
    }

    /// Feed a block chunk to be processed. Not while an operation holds the restoration.
    pub fn feed_block_chunk<'a>(&mut self, hash: H256, chunk: &'a [u8]) -> (step: Step<
        'a,
        FeedTask<'a>,
    >)
        requires
            !old(self)@.held,
        ensures
            (final(self)@, step@) == old(self)@.feed_chunk(hash, chunk@, false),
    {
        self.feed_chunk(hash, chunk, false)
    }

    fn count_chunk<'a>(&mut self, rest: Restoration, is_state: bool) -> (step: Step<
        'a,
        FeedTask<'a>,
    >)
        ensures
            (final(self)@, step@) == old(self)@.count_chunk(rest@, is_state),
    {
        if is_state {
            self.state_chunks = self.state_chunks.wrapping_add(1);
        } else {
            self.block_chunks = self.block_chunks.wrapping_add(1);
        }
        if rest.is_done() {
            Step::Do(Action::FlushDatabase, FeedTask::FlushingLast { rest })
        } else {
            self.restoration = Some(rest);
            self.held = false;
            Step::Do(Action::FlushDatabase, FeedTask::Flushing)
        }
    }

    /// Finalize the restoration.
    fn finalize_restoration<'a>(&self, rest: Option<Restoration>) -> (step: Step<'a, FeedTask<'a>>)
        ensures
            step@ == self@.finalize_restoration(restoration_view(rest)),
    {
        match rest {
            Some(rest) => rest.finalize(),
            None => self.replace_db(false),
        }
    }

    fn replace_db<'a>(&self, recover: bool) -> (step: Step<'a, FeedTask<'a>>)
        ensures
            step@ == self@.replace_db(recover),
    {
        Step::Do(
            Action::ReplaceClientDb(self.restoration_db()),
            FeedTask::Replacing { recover },
        )
    }

    fn fail<'a>(&mut self, error: Error) -> (step: Step<'a, FeedTask<'a>>)
        ensures
            (final(self)@, step@) == old(self)@.fail(error),
    {
        match self.restoration.take() {
            Some(rest) => {
                self.held = true;
                discard_guard(rest.guard, error)
            },
            None => {
                self.held = false;
                self.status = RestorationStatus::Failed;
                Step::Do(Action::RemoveDirAll(self.restoration_dir()), FeedTask::Cleaning { error })
            },
        }
    }

    fn end_restoration<'a>(&self) -> (step: Step<'a, FeedTask<'a>>)
        ensures
            step@ == self@.end_restoration(),
    {
        Step::Do(Action::RemoveDirAll(self.restoration_dir()), FeedTask::Ending)
    }

    fn place_recovered<'a>(&self) -> (step: Step<'a, FeedTask<'a>>)
        ensures
            step@ == self@.place_recovered(),
    {
        Step::Do(
            Action::Rename { from: self.temp_recovery_dir(), to: self.snapshot_dir() },
            FeedTask::Renaming,
        )
    }

    /// Whether a feeding can go on from this reply.
    pub fn feed_may_resume(&self, task: &FeedTask, reply: &Reply) -> (may: bool)
        ensures
            may == self@.feed_may_resume(task@, reply@),
    {
        if reply.kind() != task.awaits() {
            return false;
        }
        match (task, reply) {
            (FeedTask::Holding, _) => !self.swapping,
            (FeedTask::Flushing, Reply::Database(Err(_))) => !self.held,
            _ => true,
        }
    }

    /// Goes on with `feed_state_chunk` or `feed_block_chunk` when the host has answered.
    pub fn resume_feed<'a>(&mut self, task: FeedTask<'a>, reply: Reply) -> (step: Step<
        'a,
        FeedTask<'a>,
    >)
        requires
            old(self)@.feed_may_resume(task@, reply@),
        ensures
            (final(self)@, step@) == old(self)@.resume_feed(task@, reply@),
    {
        match (task, reply) {
            (FeedTask::Decompressing { rest, hash, chunk, is_state }, Reply::Bytes(result)) => {
                match result {
                    Err(e) => discard_guard(rest.guard, e),
                    Ok(data) => {
                        let action = if is_state {
                            Action::FeedState(data)
                        } else {
                            Action::FeedBlocks(data)
                        };
                        Step::Do(action, FeedTask::Feeding { rest, hash, chunk, is_state })
                    },
                }
            },
            (FeedTask::Feeding { rest, hash, chunk, is_state }, Reply::Done(result)) => {
                match result {
                    Err(e) => discard_guard(rest.guard, e),
                    Ok(()) => {
                        if rest.writer {
                            let action = if is_state {
                                Action::WriteStateChunk(hash, chunk)
                            } else {
                                Action::WriteBlockChunk(hash, chunk)
                            };
                            Step::Do(action, FeedTask::Writing { rest, is_state })
                        } else {
                            self.count_chunk(rest, is_state)
                        }
                    },
                }
            },
            (FeedTask::Writing { rest, is_state }, Reply::Done(result)) => {
                match result {
                    Err(e) => discard_guard(rest.guard, e),
                    Ok(()) => self.count_chunk(rest, is_state),
                }
            },
            (FeedTask::Flushing, Reply::Database(result)) => {
                match result {
                    Err(message) => self.fail(Error::Util(message)),
                    Ok(()) => Step::Return(Ok(())),
                }
            },
            (FeedTask::FlushingLast { rest }, Reply::Database(result)) => {
                match result {
                    Err(message) => discard_guard(rest.guard, Error::Util(message)),
                    Ok(()) => self.finalize_restoration(Some(rest)),
                }
            },
            (FeedTask::CheckingRoot { rest }, Reply::Root(root)) => {
                match rest.verify_root(root) {
                    Err(e) => discard_guard(rest.guard, e),
                    // check for missing code.
                    Ok(()) => Step::Do(Action::CheckMissing, FeedTask::CheckingMissing { rest }),
                }
            },
            (FeedTask::CheckingMissing { rest }, Reply::Done(result)) => {
                match result {
                    Err(e) => discard_guard(rest.guard, e),
                    // connect out-of-order chunks and verify chain integrity.
                    Ok(()) => Step::Do(
                        Action::FinalizeBlocks(rest.canonical_hashes),
                        FeedTask::FinalizingBlocks {
                            manifest: rest.manifest,
                            writer: rest.writer,
                            guard: rest.guard,
                        },
                    ),
                }
            },
            (FeedTask::FinalizingBlocks { manifest, writer, guard }, Reply::Done(result)) => {
                match result {
                    Err(e) => discard_guard(guard, e),
                    Ok(()) => {
                        if writer {
                            Step::Do(
                                Action::FinishWriter(manifest),
                                FeedTask::FinishingWriter { guard },
                            )
                        } else {
                            close_guard(guard.disarm(), false)
                        }
                    },
                }
            },
            (FeedTask::FinishingWriter { guard }, Reply::Done(result)) => {
                match result {
                    Err(e) => discard_guard(guard, e),
                    Ok(()) => close_guard(guard.disarm(), true),
                }
            },
            (FeedTask::Closing { recover }, _) => self.replace_db(recover),
            (FeedTask::Replacing { recover }, Reply::Done(result)) => {
                match result {
                    Err(e) => self.fail(e),
                    Ok(()) => {
                        if recover {
                            Step::Do(Action::HoldReader, FeedTask::Holding)
                        } else {
                            self.end_restoration()
                        }
                    },
                }
            },
            (FeedTask::Holding, _) => {
                self.swapping = true;
                // destroy the old reader if it existed.
                self.reader = None;
                Step::Do(Action::Exists(self.snapshot_dir()), FeedTask::Checking)
            },
            (FeedTask::Checking, Reply::Flag(exists)) => {
                if exists {
                    Step::Do(Action::RemoveDirAll(self.snapshot_dir()), FeedTask::Removing)
                } else {
                    self.place_recovered()
                }
            },
            (FeedTask::Removing, Reply::Io(result)) => {
                match result {
                    Err(e) => {
                        self.swapping = false;
                        self.fail(Error::StdIo(e))
                    },
                    Ok(()) => self.place_recovered(),
                }
            },
            (FeedTask::Renaming, Reply::Io(result)) => {
                match result {
                    Err(e) => {
                        self.swapping = false;
                        self.fail(Error::StdIo(e))
                    },
                    Ok(()) => Step::Do(
                        Action::OpenReader(self.snapshot_dir()),
                        FeedTask::Reopening,
                    ),
                }
            },
            (FeedTask::Reopening, Reply::Reader(result)) => {
                self.swapping = false;
                match result {
                    Err(e) => self.fail(e),
                    Ok(manifest) => {
                        let dir = self.snapshot_dir();
                        self.reader = Some(LooseReader { dir, manifest });
                        self.end_restoration()
                    },
                }
            },
            (FeedTask::Ending, _) => {
                self.held = false;
                self.status = RestorationStatus::Inactive;
                Step::Return(Ok(()))
            },
            (FeedTask::Failing { error }, _) => self.fail(error),
            (FeedTask::Cleaning { error }, _) => Step::Return(Err(error)),
            _ => {
                assert(false);
                Step::Return(Ok(()))
            },
        }
    }
}

} // verus!
