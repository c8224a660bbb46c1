//! What comes of whole operations, by what the host answers, and the proof that it does.

use vstd::prelude::*;

use crate::error::{Error, IoErrorKind};
use crate::feed::{close, counted, discard, FeedTaskView};
use crate::hash::H256;
use crate::host::{ActionView, ReplyView, StepView};
use crate::manifest::ManifestView;
use crate::path::PathView;
use crate::restoration::RestorationView;
use crate::runs::{
    answers, feed_next, feed_run, in_range, restore_run, snapshot_run, startup_run, Host,
};
use crate::service::{ReaderView, ServiceView};
use crate::snapshot::is_pruned;
use crate::startup::{StartupStage, StartupView};
use crate::status::{Algorithm, RestorationStatus};

verus! {

impl ReplyView {
    /// The error in any reply that the service passes on as it is, or wraps.
    pub open spec fn error(self) -> Option<Error> {
        match self {
            ReplyView::Io(Err(e)) => Some(Error::StdIo(e)),
            ReplyView::Reader(Err(e)) => Some(e),
            ReplyView::Done(Err(e)) => Some(e),
            ReplyView::Database(Err(message)) => Some(Error::Util(message)),
            ReplyView::Bytes(Err(e)) => Some(e),
            _ => None,
        }
    }

    /// The error in a reply of the file system to a removal: a directory that is not there needs
    /// no removing.
    pub open spec fn removal_error(self) -> Option<Error> {
        match self {
            ReplyView::Io(Err(e)) if e.kind != IoErrorKind::NotFound => Some(Error::StdIo(e)),
            _ => None,
        }
    }
}

/// The first of two errors.
pub open spec fn first(a: Option<Error>, b: Option<Error>) -> Option<Error> {
    if a is Some {
        a
    } else {
        b
    }
}

/// What goes wrong when the snapshot in `from` takes the place of the one in `to`: the old one, if
/// it is there, cannot be removed; the new one cannot be moved; or it cannot be opened there.
pub open spec fn placing_error(from: PathView, to: PathView, host: Host) -> Option<Error> {
    let removing = if host(ActionView::Exists(to)) == ReplyView::Flag(true) {
        host(ActionView::RemoveDirAll(to)).error()
    } else {
        None
    };
    let renaming = host(ActionView::Rename { from, to }).error();
    let opening = host(ActionView::OpenReader(to)).error();
    first(removing, first(renaming, opening))
}

/// The reader of the snapshot that was opened in `dir`.
pub open spec fn opened(dir: PathView, host: Host) -> Option<ReaderView> {
    match host(ActionView::OpenReader(dir)) {
        ReplyView::Reader(Ok(manifest)) => Some(ReaderView { dir, manifest }),
        _ => None,
    }
}

impl ServiceView {
    /// What the creation of a service at `root` ends with.
    pub open spec fn new_outcome(
        genesis_block: Seq<u8>,
        pruning: Algorithm,
        root: PathView,
        host: Host,
    ) -> Result<ServiceView, Error> {
        let service = ServiceView::fresh(genesis_block, pruning, root);
        let creating = match host(ActionView::CreateDirAll(root)) {
            ReplyView::Io(Err(e)) if e.kind != IoErrorKind::AlreadyExists => Some(Error::StdIo(e)),
            _ => None,
        };
        let removing = first(
            host(ActionView::RemoveDirAll(service.restoration_dir())).removal_error(),
            host(ActionView::RemoveDirAll(service.temp_snapshot_dir())).removal_error(),
        );
        match first(creating, removing) {
            Some(error) => Err(error),
            None => Ok(ServiceView { reader: opened(service.snapshot_dir(), host), ..service }),
        }
    }

    /// What goes wrong when a restoration begins.
    pub open spec fn init_error(self, manifest: ManifestView, recover: bool, host: Host) -> Option<
        Error,
    > {
        let dir = self.restoration_dir();
        let removing = host(ActionView::RemoveDirAll(dir)).removal_error();
        let creating = host(ActionView::CreateDirAll(dir)).error();
        let writing = if recover {
            host(ActionView::OpenWriter(self.temp_recovery_dir())).error()
        } else {
            None
        };
        let database = host(ActionView::OpenDatabase(self.restoration_db())).error();
        let rebuilding = host(
            ActionView::StartRebuild {
                genesis: self.genesis_block,
                pruning: self.pruning,
                manifest,
            },
        ).error();
        first(removing, first(creating, first(writing, first(database, rebuilding))))
    }

    /// What comes of `init_restore`. When it fails, the old restoration is gone and no other is
    /// there; the status stays as it was.
    pub open spec fn init_outcome(self, manifest: ManifestView, recover: bool, host: Host) -> (
        ServiceView,
        Result<(), Error>,
    ) {
        let cleared = ServiceView {
            restoration: None,
            state_chunks: 0,
            block_chunks: 0,
            held: false,
            ..self
        };
        match self.init_error(manifest, recover, host) {
            Some(error) => (cleared, Err(error)),
            None => (
                cleared.begun(manifest, recover, Some(self.restoration_dir())),
                Ok(()),
            ),
        }
    }

    /// What comes of `take_snapshot`. One that cannot open its writer leaves the service at taking
    /// a snapshot.
    pub open spec fn take_outcome(self, num: u64, host: Host) -> (ServiceView, Result<(), Error>) {
        let opening = host(ActionView::OpenWriter(self.temp_snapshot_dir())).error();
        let taking = host(ActionView::TakeSnapshot(num)).error();
        let placing = placing_error(self.temp_snapshot_dir(), self.snapshot_dir(), host);
        if self.taking_snapshot {
            (self, Ok(()))
        } else if opening is Some {
            (ServiceView { taking_snapshot: true, ..self }, Err(opening->0))
        } else if taking is Some {
            match host(ActionView::ChainInfo) {
                ReplyView::Chain { best_block_number, pruning_history } if is_pruned(
                    best_block_number,
                    num,
                    pruning_history,
                ) => (self, Ok(())),
                _ => (self, Err(taking->0)),
            }
        } else if placing is Some {
            (ServiceView { reader: None, ..self }, Err(placing->0))
        } else {
            (ServiceView { reader: opened(self.snapshot_dir(), host), ..self }, Ok(()))
        }
    }

    /// What goes wrong when the restoration processes a chunk: nothing, if it does not want it.
    pub open spec fn processing_error(
        rest: RestorationView,
        hash: H256,
        chunk: Seq<u8>,
        is_state: bool,
        host: Host,
    ) -> Option<Error> {
        if rest.wants(hash, is_state) {
            match host(ActionView::Decompress(chunk)) {
                ReplyView::Bytes(Ok(data)) => {
                    let feeding = if is_state {
                        host(ActionView::FeedState(data)).error()
                    } else {
                        host(ActionView::FeedBlocks(data)).error()
                    };
                    let writing = if !rest.writer {
                        None
                    } else if is_state {
                        host(ActionView::WriteStateChunk(hash, chunk)).error()
                    } else {
                        host(ActionView::WriteBlockChunk(hash, chunk)).error()
                    };
                    first(feeding, writing)
                },
                reply => reply.error(),
            }
        } else {
            None
        }
    }

    /// What goes wrong when a restoration of which all is fed is verified.
    pub open spec fn verifying_error(rest: RestorationView, host: Host) -> Option<Error> {
        let root = match host(ActionView::StateRoot) {
            ReplyView::Root(root) if root != rest.final_state_root => Some(
                Error::InvalidStateRoot(root),
            ),
            _ => None,
        };
        let missing = host(ActionView::CheckMissing).error();
        let blocks = host(ActionView::FinalizeBlocks(rest.canonical_hashes)).error();
        let finishing = if rest.writer {
            host(ActionView::FinishWriter(rest.manifest)).error()
        } else {
            None
        };
        first(root, first(missing, first(blocks, finishing)))
    }

    /// The service with one more chunk counted.
    pub open spec fn with_counted(self, is_state: bool) -> Self {
        if is_state {
            ServiceView { state_chunks: counted(self.state_chunks), ..self }
        } else {
            ServiceView { block_chunks: counted(self.block_chunks), ..self }
        }
    }

    /// The service with its restoration failed.
    pub open spec fn failed(self) -> Self {
        ServiceView {
            restoration: None,
            status: RestorationStatus::Failed,
            held: false,
            swapping: false,
            ..self
        }
    }

    /// What comes of putting the results of a restoration in place: the client's database is
    /// replaced, and then, if there is a recovered snapshot, the current snapshot.
    pub open spec fn replace_outcome(self, recover: bool, host: Host) -> (
        ServiceView,
        Result<(), Error>,
    ) {
        let replacing = host(ActionView::ReplaceClientDb(self.restoration_db())).error();
        let placing = placing_error(self.temp_recovery_dir(), self.snapshot_dir(), host);
        let finished = ServiceView {
            restoration: None,
            status: RestorationStatus::Inactive,
            held: false,
            swapping: false,
            ..self
        };
        if replacing is Some {
            (self.failed(), Err(replacing->0))
        } else if !recover {
            (finished, Ok(()))
        } else if placing is Some {
            (ServiceView { reader: None, ..self.failed() }, Err(placing->0))
        } else {
            (ServiceView { reader: opened(self.snapshot_dir(), host), ..finished }, Ok(()))
        }
    }

    /// What comes of finishing a restoration of which all is fed.
    pub open spec fn finish_outcome(self, rest: RestorationView, host: Host) -> (
        ServiceView,
        Result<(), Error>,
    ) {
        match Self::verifying_error(rest, host) {
            Some(error) => (self.failed(), Err(error)),
            None => self.replace_outcome(rest.writer, host),
        }
    }

    /// What comes of `feed_state_chunk` or `feed_block_chunk`.
    pub open spec fn feed_outcome(
        self,
        hash: H256,
        chunk: Seq<u8>,
        is_state: bool,
        host: Host,
    ) -> (ServiceView, Result<(), Error>) {
        match (self.status, self.restoration) {
            (RestorationStatus::Ongoing { .. }, Some(rest)) => {
                let left = rest.without(hash, is_state);
                let processing = Self::processing_error(rest, hash, chunk, is_state, host);
                let flushing = host(ActionView::FlushDatabase).error();
                if processing is Some {
                    (self.failed(), Err(processing->0))
                } else if flushing is Some {
                    (self.with_counted(is_state).failed(), Err(flushing->0))
                } else if left.done() {
                    self.with_counted(is_state).finish_outcome(left, host)
                } else {
                    (
                        ServiceView {
                            restoration: Some(left),
                            held: false,
                            ..self.with_counted(is_state)
                        },
                        Ok(()),
                    )
                }
            },
            _ => (self, Ok(())),
        }
    }
}

/// A service comes into being exactly when its root can be created or is there, and what earlier
/// services left in the restoration directory and in the directory of unfinished snapshots can be
/// removed or is not there. It is inactive, and its reader is that of the current snapshot, if
/// one can be opened.
pub proof fn law_new_outcome(genesis_block: Seq<u8>, pruning: Algorithm, root: PathView, host: Host)
    requires
        answers(host),
    ensures
        startup_run(
            StartupView::at(
                StartupStage::CreatingRoot,
                ServiceView::fresh(genesis_block, pruning, root),
            ),
            host,
        ).0 == ServiceView::new_outcome(genesis_block, pruning, root, host),
{
    reveal_with_fuel(startup_run, 5);
}

/// A restoration begins exactly when the old restoration directory can be removed or is not there,
/// the new one can be created, the writer can be opened where one is asked for, the database can
/// be opened and the rebuilders can be set up; otherwise the first of these that goes wrong is
/// the error.
#[verifier::rlimit(30)]
pub proof fn law_init_outcome(service: ServiceView, manifest: ManifestView, recover: bool, host: Host)
    requires
        answers(host),
        service.idle(),
    ensures
        ({
            let run = service.init_restore_run(manifest, recover, host);
            (run.service, run.result) == service.init_outcome(manifest, recover, host)
        }),
{
    reveal_with_fuel(restore_run, 8);
}

/// A restoration that is called off leaves an inactive service without a restoration, whatever the
/// state before.
pub proof fn law_abort_outcome(service: ServiceView, host: Host)
    requires
        answers(host),
        service.idle(),
    ensures
        service.abort_restore_run(host).service == service.aborted(),
        service.abort_restore_run(host).result == Ok::<(), Error>(()),
{
    reveal_with_fuel(restore_run, 2);
}

/// A snapshot is skipped while another is being taken. Otherwise it is taken, and becomes the
/// current one, exactly when the client and the file system let it; a failure of the client is an
/// error only if the state has not been pruned meanwhile.
#[verifier::rlimit(30)]
pub proof fn law_take_outcome(service: ServiceView, num: u64, host: Host)
    requires
        answers(host),
        in_range(host, num),
        !service.swapping,
    ensures
        ({
            let run = service.take_snapshot_run(num, host);
            (run.service, run.result) == service.take_outcome(num, host)
        }),
{
    reveal_with_fuel(snapshot_run, 11);
}

/// The run of a feeding that fails, from where its error is known.
proof fn lemma_fail(service: ServiceView, error: Error, host: Host)
    requires
        answers(host),
        service.restoration is None,
        !service.swapping,
    ensures
        ({
            let run = feed_run(service.fail(error), host);
            (run.service, run.result) == (service.failed(), Err::<(), Error>(error))
        }),
{
    reveal(feed_next);
    reveal_with_fuel(feed_run, 3);
}

/// The run of a feeding that fails, from where its restoration is discarded.
proof fn lemma_discard(
    service: ServiceView,
    leftover: Option<PathView>,
    error: Error,
    host: Host,
)
    requires
        answers(host),
        service.restoration is None,
        !service.swapping,
    ensures
        ({
            let run = feed_run((service, discard(leftover, error)), host);
            (run.service, run.result) == (service.failed(), Err::<(), Error>(error))
        }),
{
    reveal(feed_next);
    reveal_with_fuel(feed_run, 2);
    lemma_fail(service, error, host);
}

/// The run of a feeding from where the recovered snapshot is put in its place.
#[verifier::rlimit(30)]
proof fn lemma_place(service: ServiceView, host: Host)
    requires
        answers(host),
        service.restoration is None,
        service.reader is None,
        service.swapping,
    ensures
        ({
            let run = feed_run(
                (
                    service,
                    StepView::Do(
                        ActionView::Exists(service.snapshot_dir()),
                        FeedTaskView::Checking,
                    ),
                ),
                host,
            );
            let error = placing_error(service.temp_recovery_dir(), service.snapshot_dir(), host);
            (run.service, run.result) == match error {
                Some(e) => (service.failed(), Err::<(), Error>(e)),
                None => (
                    ServiceView {
                        status: RestorationStatus::Inactive,
                        reader: opened(service.snapshot_dir(), host),
                        held: false,
                        swapping: false,
                        ..service
                    },
                    Ok(()),
                ),
            }
        }),
{
    reveal(feed_next);
    reveal_with_fuel(feed_run, 6);
    match placing_error(service.temp_recovery_dir(), service.snapshot_dir(), host) {
        Some(e) => lemma_fail(ServiceView { swapping: false, ..service }, e, host),
        None => {},
    }
}

/// One step of a feeding.
proof fn lemma_step(service: ServiceView, action: ActionView, task: FeedTaskView, host: Host)
    requires
        service.feed_may_resume(task, host(action)),
    ensures
        ({
            let run = feed_run((service, StepView::Do(action, task)), host);
            let next = feed_run(service.resume_feed(task, host(action)), host);
            run.service == next.service && run.result == next.result
        }),
{
    reveal(feed_next);
}

/// The run of a feeding from where the client's database is replaced.
proof fn lemma_replace(service: ServiceView, recover: bool, host: Host)
    requires
        answers(host),
        service.restoration is None,
        !service.swapping,
    ensures
        ({
            let run = feed_run(
                (
                    service,
                    StepView::Do(
                        ActionView::ReplaceClientDb(service.restoration_db()),
                        FeedTaskView::Replacing { recover },
                    ),
                ),
                host,
            );
            (run.service, run.result) == service.replace_outcome(recover, host)
        }),
{
    let replacing = ActionView::ReplaceClientDb(service.restoration_db());
    lemma_step(service, replacing, FeedTaskView::Replacing { recover }, host);
    match host(replacing).error() {
        Some(e) => lemma_fail(service, e, host),
        None => if recover {
            lemma_step(service, ActionView::HoldReader, FeedTaskView::Holding, host);
            lemma_place(ServiceView { reader: None, swapping: true, ..service }, host);
        } else {
            reveal(feed_next);
            reveal_with_fuel(feed_run, 3);
        },
    }
}

/// The run of a feeding from where a verified restoration is let go.
proof fn lemma_close(service: ServiceView, recover: bool, host: Host)
    requires
        answers(host),
        service.restoration is None,
        !service.swapping,
    ensures
        ({
            let run = feed_run((service, close(None, recover)), host);
            (run.service, run.result) == service.replace_outcome(recover, host)
        }),
{
    lemma_step(service, ActionView::Discard(None), FeedTaskView::Closing { recover }, host);
    lemma_replace(service, recover, host);
}

/// The run of a feeding from where all is fed.
proof fn lemma_finish(service: ServiceView, rest: RestorationView, host: Host)
    requires
        answers(host),
        service.restoration is None,
        !service.swapping,
        rest.done(),
    ensures
        ({
            let run = feed_run((service, service.finalize_restoration(Some(rest))), host);
            (run.service, run.result) == service.finish_outcome(rest, host)
        }),
{
    let blocks = FeedTaskView::FinalizingBlocks {
        manifest: rest.manifest,
        writer: rest.writer,
        leftover: rest.leftover,
    };
    match ServiceView::verifying_error(rest, host) {
        Some(e) => lemma_discard(service, rest.leftover, e, host),
        None => lemma_close(service, rest.writer, host),
    }
    lemma_step(service, ActionView::StateRoot, FeedTaskView::CheckingRoot { rest }, host);
    lemma_step(service, ActionView::CheckMissing, FeedTaskView::CheckingMissing { rest }, host);
    lemma_step(service, ActionView::FinalizeBlocks(rest.canonical_hashes), blocks, host);
    lemma_step(
        service,
        ActionView::FinishWriter(rest.manifest),
        FeedTaskView::FinishingWriter { leftover: rest.leftover },
        host,
    );
}

/// The run of a feeding from where the chunk is processed.
proof fn lemma_count(service: ServiceView, rest: RestorationView, is_state: bool, host: Host)
    requires
        answers(host),
        service.restoration is None,
        !service.swapping,
    ensures
        ({
            let run = feed_run(service.count_chunk(rest, is_state), host);
            let flushing = host(ActionView::FlushDatabase).error();
            (run.service, run.result) == if flushing is Some {
                (service.with_counted(is_state).failed(), Err::<(), Error>(flushing->0))
            } else if rest.done() {
                service.with_counted(is_state).finish_outcome(rest, host)
            } else {
                (
                    ServiceView {
                        restoration: Some(rest),
                        held: false,
                        ..service.with_counted(is_state)
                    },
                    Ok(()),
                )
            }
        }),
{
    reveal(feed_next);
    reveal_with_fuel(feed_run, 2);
    let next = service.with_counted(is_state);
    match host(ActionView::FlushDatabase).error() {
        Some(e) => lemma_discard(next, rest.leftover, e, host),
        None => if rest.done() {
            lemma_finish(next, rest, host);
        },
    }
}

/// A chunk that is fed while a restoration is going on is processed if the restoration wants it,
/// and counted; the last one finishes the restoration. The first thing that goes wrong on the way
/// is the error, and fails the restoration. While none is going on, nothing happens.
pub proof fn law_feed_outcome(
    service: ServiceView,
    hash: H256,
    chunk: Seq<u8>,
    is_state: bool,
    host: Host,
)
    requires
        answers(host),
        service.idle(),
    ensures
        ({
            let run = service.feed_chunk_run(hash, chunk, is_state, host);
            (run.service, run.result) == service.feed_outcome(hash, chunk, is_state, host)
        }),
{
    if service.status is Ongoing && service.restoration is Some {
        let rest = service.restoration->0;
        let left = rest.without(hash, is_state);
        let held = ServiceView { restoration: None, held: true, ..service };
        assert(!rest.wants(hash, is_state) ==> left =~= rest);
        match ServiceView::processing_error(rest, hash, chunk, is_state, host) {
            Some(e) => lemma_discard(held, rest.leftover, e, host),
            None => lemma_count(held, left, is_state, host),
        }
        if rest.wants(hash, is_state) {
            let decompressing = ActionView::Decompress(chunk);
            lemma_step(
                held,
                decompressing,
                FeedTaskView::Decompressing { rest: left, hash, chunk, is_state },
                host,
            );
            if let ReplyView::Bytes(Ok(data)) = host(decompressing) {
                lemma_step(
                    held,
                    if is_state {
                        ActionView::FeedState(data)
                    } else {
                        ActionView::FeedBlocks(data)
                    },
                    FeedTaskView::Feeding { rest: left, hash, chunk, is_state },
                    host,
                );
                lemma_step(
                    held,
                    if is_state {
                        ActionView::WriteStateChunk(hash, chunk)
                    } else {
                        ActionView::WriteBlockChunk(hash, chunk)
                    },
                    FeedTaskView::Writing { rest: left, is_state },
                    host,
                );
            }
        }
    }
}

} // verus!
