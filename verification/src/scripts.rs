//! What each operation does, in full, by the replies of the host alone.
//!
//! An operation has a script: the actions that it asks for when nothing is refused. It plays the
//! script up to the first action that is refused, cleans up after that one, and returns its error;
//! if none is refused it plays the script to the end and returns without an error. What is written
//! here names directories, replies and fields by themselves.

use vstd::prelude::*;

use crate::error::{Error, IoErrorKind};
use crate::feed::FeedTaskView;
use crate::hash::H256;
use crate::host::{ActionView, ReplyView, StepView};
use crate::manifest::ManifestView;
use crate::path::PathView;
use crate::restoration::RestorationView;
use crate::restore::RestoreTaskView;
use crate::runs::{
    answers, feed_next, feed_run, in_range, restore_run, snapshot_run, startup_run, Asked, Host,
    Run,
};
use crate::service::{ReaderView, ServiceView};
use crate::snapshot::SnapshotTaskView;
use crate::startup::{StartupStage, StartupView};
use crate::status::{Algorithm, RestorationStatus};

verus! {

// ---------------------------------------------------------------------------------------------
// Directories and replies
// ---------------------------------------------------------------------------------------------

/// The directory of a name in a directory.
pub open spec fn dir_in(dir: PathView, name: Seq<char>) -> PathView {
    PathView { root: dir.root, separator: dir.separator, names: dir.names.push(name) }
}

/// Where the current snapshot lies.
pub open spec fn current_in(root: PathView) -> PathView {
    dir_in(root, "current"@)
}

/// Where a snapshot is written that is being taken.
pub open spec fn in_progress_in(root: PathView) -> PathView {
    dir_in(root, "in_progress"@)
}

/// Where a restoration has its files.
pub open spec fn restoration_in(root: PathView) -> PathView {
    dir_in(root, "restoration"@)
}

/// Where a restoration has its database.
pub open spec fn database_in(root: PathView) -> PathView {
    dir_in(restoration_in(root), "db"@)
}

/// Where a restoration writes the snapshot that it recovers.
pub open spec fn recovered_in(root: PathView) -> PathView {
    dir_in(restoration_in(root), "temp"@)
}

pub(crate) proof fn lemma_dirs(service: ServiceView)
    ensures
        service.snapshot_dir() == current_in(service.root),
        service.temp_snapshot_dir() == in_progress_in(service.root),
        service.restoration_dir() == restoration_in(service.root),
        service.restoration_db() == database_in(service.root),
        service.temp_recovery_dir() == recovered_in(service.root),
        current_in(service.root) != restoration_in(service.root),
        current_in(service.root) != in_progress_in(service.root),
{
    reveal_strlit("current");
    reveal_strlit("restoration");
    reveal_strlit("in_progress");
    let n = service.root.names.len() as int;
    assert(current_in(service.root).names[n] == "current"@);
    assert(restoration_in(service.root).names[n] == "restoration"@);
    assert(in_progress_in(service.root).names[n] == "in_progress"@);
    assert("current"@.len() == 7);
}

/// The error with which a reply refuses an action.
pub open spec fn refusal(reply: ReplyView) -> Option<Error> {
    match reply {
        ReplyView::Io(Err(e)) => Some(Error::StdIo(e)),
        ReplyView::Reader(Err(e)) => Some(e),
        ReplyView::Done(Err(e)) => Some(e),
        ReplyView::Database(Err(message)) => Some(Error::Util(message)),
        ReplyView::Bytes(Err(e)) => Some(e),
        _ => None,
    }
}

/// Whether a reply is one that an action can get.
pub open spec fn fits(action: ActionView, reply: ReplyView) -> bool {
    match action {
        ActionView::RemoveDirAll(_) => reply is Io,
        ActionView::CreateDirAll(_) => reply is Io,
        ActionView::Rename { .. } => reply is Io,
        ActionView::HoldReader => reply is Unit,
        ActionView::Exists(_) => reply is Flag,
        ActionView::OpenReader(_) => reply is Reader,
        ActionView::OpenWriter(_) => reply is Done,
        ActionView::ResetProgress => reply is Unit,
        ActionView::TakeSnapshot(_) => reply is Done,
        ActionView::ChainInfo => reply is Chain,
        ActionView::Discard(_) => reply is Unit,
        ActionView::OpenDatabase(_) => reply is Database,
        ActionView::StartRebuild { .. } => reply is Done,
        ActionView::Decompress(_) => reply is Bytes,
        ActionView::FeedState(_) => reply is Done,
        ActionView::FeedBlocks(_) => reply is Done,
        ActionView::WriteStateChunk(_, _) => reply is Done,
        ActionView::WriteBlockChunk(_, _) => reply is Done,
        ActionView::FlushDatabase => reply is Database,
        ActionView::StateRoot => reply is Root,
        ActionView::CheckMissing => reply is Done,
        ActionView::FinalizeBlocks(_) => reply is Done,
        ActionView::FinishWriter(_) => reply is Done,
        ActionView::ReplaceClientDb(_) => reply is Done,
    }
}

/// Whether a host gives each action a reply that it can get.
pub open spec fn proper(host: Host) -> bool {
    forall|action: ActionView| fits(action, #[trigger] host(action))
}

/// A host answers as it should exactly if it gives each action a reply that it can get.
pub proof fn law_proper_hosts_answer(host: Host)
    ensures
        proper(host) <==> answers(host),
{
    if proper(host) {
        assert forall|action: ActionView| (#[trigger] host(action)).kind()
            == action.reply_kind() by {
            assert(fits(action, host(action)));
        }
    }
    if answers(host) {
        assert forall|action: ActionView| fits(action, #[trigger] host(action)) by {
            assert(host(action).kind() == action.reply_kind());
        }
    }
}

/// One more than a count, which goes back to zero at its end.
pub open spec fn one_more(count: usize) -> usize {
    if count == usize::MAX {
        0
    } else {
        (count + 1) as usize
    }
}

/// No action.
pub open spec fn none() -> Seq<ActionView> {
    Seq::empty()
}

/// The actions, if they are called for.
pub open spec fn only_if(called_for: bool, actions: Seq<ActionView>) -> Seq<ActionView> {
    if called_for {
        actions
    } else {
        none()
    }
}

// ---------------------------------------------------------------------------------------------
// Operations and their scripts
// ---------------------------------------------------------------------------------------------

/// An operation on a service, with the host that performs what it asks for.
pub enum Operation {
    /// `init_restore`.
    Init { service: ServiceView, manifest: ManifestView, recover: bool, host: Host },
    /// `take_snapshot`, while no other snapshot is being taken.
    Take { service: ServiceView, num: u64, host: Host },
    /// `feed_state_chunk` or `feed_block_chunk`, while a restoration is going on.
    Feed { service: ServiceView, hash: H256, chunk: Seq<u8>, is_state: bool, host: Host },
}

/// What a feeding finds and leaves.
pub struct Fed {
    pub rest: RestorationView,
    pub hash: H256,
    pub is_state: bool,
}

impl Fed {
    /// The state chunks that are left to be fed.
    pub open spec fn states(self) -> Set<H256> {
        if self.is_state {
            self.rest.state_chunks_left.remove(self.hash)
        } else {
            self.rest.state_chunks_left
        }
    }

    /// The block chunks that are left to be fed.
    pub open spec fn blocks(self) -> Set<H256> {
        if self.is_state {
            self.rest.block_chunks_left
        } else {
            self.rest.block_chunks_left.remove(self.hash)
        }
    }

    /// Whether the chunk was left to be fed.
    pub open spec fn wanted(self) -> bool {
        if self.is_state {
            self.rest.state_chunks_left.contains(self.hash)
        } else {
            self.rest.block_chunks_left.contains(self.hash)
        }
    }

    /// Whether none is left.
    pub open spec fn last(self) -> bool {
        self.states() == Set::<H256>::empty() && self.blocks() == Set::<H256>::empty()
    }
}

/// The script of putting the snapshot in `from` in the place of the one in `to`.
pub open spec fn swap_script(from: PathView, to: PathView, host: Host) -> Seq<ActionView> {
    seq![ActionView::HoldReader, ActionView::Exists(to)] + only_if(
        host(ActionView::Exists(to)) == ReplyView::Flag(true),
        seq![ActionView::RemoveDirAll(to)],
    ) + seq![ActionView::Rename { from, to }, ActionView::OpenReader(to)]
}

impl Operation {
    /// What a feeding finds and leaves.
    pub open spec fn fed(self) -> Fed {
        Fed {
            rest: self->Feed_service.restoration->0,
            hash: self->Feed_hash,
            is_state: self->Feed_is_state,
        }
    }

    /// The data that a chunk is decompressed to.
    pub open spec fn data(self) -> Seq<u8> {
        (self->Feed_host)(ActionView::Decompress(self->Feed_chunk))->Bytes_0->Ok_0
    }

    /// The script of the operation.
    pub open spec fn script(self) -> Seq<ActionView> {
        match self {
            Operation::Init { service, manifest, recover, host } => only_if(
                service.restoration is Some,
                seq![ActionView::Discard(service.restoration->0.leftover)],
            ) + seq![
                ActionView::RemoveDirAll(restoration_in(service.root)),
                ActionView::CreateDirAll(restoration_in(service.root)),
            ] + only_if(recover, seq![ActionView::OpenWriter(recovered_in(service.root))]) + seq![
                ActionView::OpenDatabase(database_in(service.root)),
                ActionView::StartRebuild {
                    genesis: service.genesis_block,
                    pruning: service.pruning,
                    manifest,
                },
            ],
            Operation::Take { service, num, host } => seq![
                ActionView::ResetProgress,
                ActionView::RemoveDirAll(in_progress_in(service.root)),
                ActionView::OpenWriter(in_progress_in(service.root)),
                ActionView::TakeSnapshot(num),
            ] + swap_script(in_progress_in(service.root), current_in(service.root), host),
            Operation::Feed { service, hash, chunk, is_state, host } => {
                let fed = self.fed();
                only_if(
                    fed.wanted(),
                    seq![
                        ActionView::Decompress(chunk),
                        if is_state {
                            ActionView::FeedState(self.data())
                        } else {
                            ActionView::FeedBlocks(self.data())
                        },
                    ] + only_if(
                        fed.rest.writer,
                        seq![
                            if is_state {
                                ActionView::WriteStateChunk(hash, chunk)
                            } else {
                                ActionView::WriteBlockChunk(hash, chunk)
                            },
                        ],
                    ),
                ) + seq![ActionView::FlushDatabase] + only_if(
                    fed.last(),
                    seq![
                        ActionView::StateRoot,
                        ActionView::CheckMissing,
                        ActionView::FinalizeBlocks(fed.rest.canonical_hashes),
                    ] + only_if(
                        fed.rest.writer,
                        seq![ActionView::FinishWriter(fed.rest.manifest)],
                    ) + seq![
                        ActionView::Discard(None),
                        ActionView::ReplaceClientDb(database_in(service.root)),
                    ] + only_if(
                        fed.rest.writer,
                        swap_script(recovered_in(service.root), current_in(service.root), host),
                    ) + seq![ActionView::RemoveDirAll(restoration_in(service.root))],
                )
            },
        }
    }

    /// The error with which an action of the script is refused. Three removals may fail: of a
    /// restoration directory that is not there, of what an earlier snapshot left, and of the
    /// restoration directory when all is done. A wrong state root is a refusal.
    pub open spec fn refused(self, action: ActionView) -> Option<Error> {
        match self {
            Operation::Init { service, host, .. } => match host(action) {
                ReplyView::Io(Err(e)) if action is RemoveDirAll && e.kind
                    == IoErrorKind::NotFound => None,
                reply => refusal(reply),
            },
            Operation::Take { service, host, .. } => if action == ActionView::RemoveDirAll(
                in_progress_in(service.root),
            ) {
                None
            } else {
                refusal(host(action))
            },
            Operation::Feed { service, host, .. } => if action == ActionView::RemoveDirAll(
                restoration_in(service.root),
            ) {
                None
            } else {
                match host(action) {
                    ReplyView::Root(root) if action is StateRoot && root
                        != self.fed().rest.final_state_root => Some(Error::InvalidStateRoot(root)),
                    reply => refusal(reply),
                }
            },
        }
    }

    /// What is asked for after an action of the script was refused.
    pub open spec fn cleanup(self, action: ActionView) -> Seq<ActionView> {
        match self {
            Operation::Init { service, .. } => only_if(
                action is OpenDatabase || action is StartRebuild,
                seq![ActionView::Discard(Some(restoration_in(service.root)))],
            ),
            Operation::Take { service, .. } => only_if(
                action is TakeSnapshot,
                seq![ActionView::ChainInfo],
            ) + only_if(
                action !is OpenWriter,
                seq![ActionView::RemoveDirAll(in_progress_in(service.root))],
            ),
            Operation::Feed { service, .. } => only_if(
                action !is ReplaceClientDb && action !is RemoveDirAll && action !is Rename && action
                    !is OpenReader,
                seq![ActionView::Discard(self.fed().rest.leftover)],
            ) + seq![ActionView::RemoveDirAll(restoration_in(service.root))],
        }
    }

    /// What the operation returns, by the action of the script that was refused. A snapshot that the
    /// client fails to write is no error if the chain has left its block behind by the pruning
    /// history.
    pub open spec fn returned(self, refused: Option<ActionView>) -> Result<(), Error> {
        match refused {
            None => Ok(()),
            Some(action) => match self {
                Operation::Take { num, host, .. } => match host(ActionView::ChainInfo) {
                    ReplyView::Chain { best_block_number, pruning_history } if action
                        is TakeSnapshot && best_block_number >= num + pruning_history => Ok(()),
                    _ => Err(self.refused(action)->0),
                },
                _ => Err(self.refused(action)->0),
            },
        }
    }

    /// The manifest of the snapshot that was opened in the place of the current one.
    pub open spec fn found(self, root: PathView, host: Host) -> Option<ReaderView> {
        Some(
            ReaderView {
                dir: current_in(root),
                manifest: host(ActionView::OpenReader(current_in(root)))->Reader_0->Ok_0,
            },
        )
    }

    /// The service that the operation leaves, by the action of the script that was refused.
    pub open spec fn left(self, refused: Option<ActionView>) -> ServiceView {
        match self {
            Operation::Init { service, manifest, recover, host } => match refused {
                None => ServiceView {
                    restoration: Some(
                        RestorationView {
                            manifest,
                            state_chunks_left: manifest.state_hashes.to_set(),
                            block_chunks_left: manifest.block_hashes.to_set(),
                            writer: recover,
                            final_state_root: manifest.state_root,
                            leftover: Some(restoration_in(service.root)),
                            canonical_hashes: Map::empty(),
                        },
                    ),
                    status: RestorationStatus::Ongoing {
                        state_chunks: manifest.state_hashes.len() as u32,
                        block_chunks: manifest.block_hashes.len() as u32,
                        state_chunks_done: 0,
                        block_chunks_done: 0,
                    },
                    state_chunks: 0,
                    block_chunks: 0,
                    restoring_snapshot: true,
                    ..service
                },
                Some(_) => ServiceView {
                    restoration: None,
                    state_chunks: 0,
                    block_chunks: 0,
                    ..service
                },
            },
            Operation::Take { service, num, host } => match refused {
                None => ServiceView { reader: self.found(service.root, host), ..service },
                Some(action) => ServiceView {
                    // A writer that cannot be opened leaves the service at taking the snapshot.
                    taking_snapshot: action is OpenWriter,
                    reader: if action is RemoveDirAll || action is Rename || action is OpenReader {
                        None
                    } else {
                        service.reader
                    },
                    ..service
                },
            },
            Operation::Feed { service, hash, chunk, is_state, host } => {
                let fed = self.fed();
                let processed = match refused {
                    Some(action) => action !is Decompress && action !is FeedState && action
                        !is FeedBlocks && action !is WriteStateChunk && action !is WriteBlockChunk,
                    None => true,
                };
                ServiceView {
                    restoration: if refused is None && !fed.last() {
                        Some(
                            RestorationView {
                                state_chunks_left: fed.states(),
                                block_chunks_left: fed.blocks(),
                                ..fed.rest
                            },
                        )
                    } else {
                        None
                    },
                    status: if refused is Some {
                        RestorationStatus::Failed
                    } else if fed.last() {
                        RestorationStatus::Inactive
                    } else {
                        service.status
                    },
                    reader: match refused {
                        None => if fed.last() && fed.rest.writer {
                            self.found(service.root, host)
                        } else {
                            service.reader
                        },
                        Some(action) => if action is RemoveDirAll || action is Rename || action
                            is OpenReader {
                            None
                        } else {
                            service.reader
                        },
                    },
                    state_chunks: if processed && is_state {
                        one_more(service.state_chunks)
                    } else {
                        service.state_chunks
                    },
                    block_chunks: if processed && !is_state {
                        one_more(service.block_chunks)
                    } else {
                        service.block_chunks
                    },
                    ..service
                }
            },
        }
    }
}

/// A script as far as it was played.
pub struct Played {
    /// The actions up to the first that was refused, and that one.
    pub actions: Seq<ActionView>,
    /// The first that was refused.
    pub refused: Option<ActionView>,
}

/// A script of an operation, as far as it is played.
pub open spec fn played(operation: Operation, script: Seq<ActionView>) -> Played
    decreases script.len(),
{
    if script.len() == 0 {
        Played { actions: none(), refused: None }
    } else if operation.refused(script[0]) is Some {
        Played { actions: seq![script[0]], refused: Some(script[0]) }
    } else {
        let rest = played(operation, script.drop_first());
        Played { actions: seq![script[0]] + rest.actions, refused: rest.refused }
    }
}

/// Whether a run plays a script: it asks for the actions up to the first that is refused, and for the
/// cleaning up after it; and it returns and leaves what it should.
pub open spec fn plays(operation: Operation, script: Seq<ActionView>, run: Run) -> bool {
    let played = played(operation, script);
    &&& run.actions() == played.actions + match played.refused {
        Some(action) => operation.cleanup(action),
        None => none(),
    }
    &&& run.result == operation.returned(played.refused)
    &&& run.service == operation.left(played.refused)
}

// ---------------------------------------------------------------------------------------------
// Steps and scripts
// ---------------------------------------------------------------------------------------------

/// One more action before a script: where it is refused, the rest of the run cleans up; where it is
/// not, the rest of the run plays the rest of the script.
proof fn lemma_plays_first(
    operation: Operation,
    action: ActionView,
    script: Seq<ActionView>,
    run: Run,
    next: Run,
)
    requires
        run.actions() == seq![action] + next.actions(),
        run.result == next.result,
        run.service == next.service,
        operation.refused(action) is None ==> plays(operation, script, next),
        operation.refused(action) is Some ==> {
            &&& next.actions() == operation.cleanup(action)
            &&& next.result == operation.returned(Some(action))
            &&& next.service == operation.left(Some(action))
        },
    ensures
        plays(operation, seq![action] + script, run),
{
    let whole = seq![action] + script;
    assert(whole.drop_first() =~= script);
    let rest = played(operation, script);
    if operation.refused(action) is None {
        let cleanup = match rest.refused {
            Some(action) => operation.cleanup(action),
            None => none(),
        };
        assert(seq![action] + (rest.actions + cleanup) =~= seq![action] + rest.actions + cleanup);
    }
}

/// A run that returns at once plays an empty script.
proof fn lemma_plays_none(operation: Operation, run: Run)
    requires
        run.trace.len() == 0,
        run.result == Ok::<(), Error>(()),
        run.service == operation.left(None),
    ensures
        plays(operation, none(), run),
{
    assert(run.actions() =~= none());
    assert(none() + none() =~= none());
}

proof fn lemma_feed_step(service: ServiceView, action: ActionView, task: FeedTaskView, host: Host)
    requires
        service.feed_may_resume(task, host(action)),
    ensures
        ({
            let run = feed_run((service, StepView::Do(action, task)), host);
            let next = feed_run(service.resume_feed(task, host(action)), host);
            &&& run.actions() == seq![action] + next.actions()
            &&& run.result == next.result
            &&& run.service == next.service
        }),
{
    reveal(feed_next);
    let next = feed_run(service.resume_feed(task, host(action)), host);
    assert(next.after(service, action).actions() =~= seq![action] + next.actions());
}

proof fn lemma_restore_step(
    service: ServiceView,
    action: ActionView,
    task: RestoreTaskView,
    host: Host,
)
    requires
        host(action).kind() == task.awaits(),
    ensures
        ({
            let run = restore_run((service, StepView::Do(action, task)), host);
            let next = restore_run(service.resume_restore(task, host(action)), host);
            &&& run.actions() == seq![action] + next.actions()
            &&& run.result == next.result
            &&& run.service == next.service
        }),
{
    let next = restore_run(service.resume_restore(task, host(action)), host);
    assert(next.after(service, action).actions() =~= seq![action] + next.actions());
}

proof fn lemma_snapshot_step(
    service: ServiceView,
    action: ActionView,
    task: SnapshotTaskView,
    host: Host,
)
    requires
        service.snapshot_may_resume(task, host(action)),
    ensures
        ({
            let run = snapshot_run((service, StepView::Do(action, task)), host);
            let next = snapshot_run(service.resume_snapshot(task, host(action)), host);
            &&& run.actions() == seq![action] + next.actions()
            &&& run.result == next.result
            &&& run.service == next.service
        }),
{
    let next = snapshot_run(service.resume_snapshot(task, host(action)), host);
    assert(next.after(service, action).actions() =~= seq![action] + next.actions());
}

// ---------------------------------------------------------------------------------------------
// Beginning and calling off a restoration
// ---------------------------------------------------------------------------------------------

/// The run of a beginning that returns an error at once.
proof fn lemma_given_up(service: ServiceView, error: Error, host: Host)
    ensures
        ({
            let run = restore_run(service.give_up(error), host);
            &&& run.actions() == none()
            &&& run.result == Err::<(), Error>(error)
            &&& run.service == (ServiceView { held: false, ..service })
        }),
{
    assert(restore_run(service.give_up(error), host).actions() =~= none());
}

/// The run of a beginning from where what was set up is discarded.
proof fn lemma_abandoned(
    service: ServiceView,
    leftover: Option<PathView>,
    error: Error,
    host: Host,
)
    requires
        answers(host),
    ensures
        ({
            let at = (
                service,
                StepView::Do(
                    ActionView::Discard(leftover),
                    RestoreTaskView::Abandoning { error },
                ),
            );
            let run = restore_run(at, host);
            &&& run.actions() == seq![ActionView::Discard(leftover)]
            &&& run.result == Err::<(), Error>(error)
            &&& run.service == (ServiceView { held: false, ..service })
        }),
{
    let discarding = ActionView::Discard(leftover);
    lemma_restore_step(service, discarding, RestoreTaskView::Abandoning { error }, host);
    lemma_given_up(service, error, host);
    assert(seq![discarding] + none() =~= seq![discarding]);
}

proof fn lemma_init_rebuilds(operation: Operation, cleared: ServiceView)
    requires
        operation matches Operation::Init { service, host, .. } && {
            &&& answers(host)
            &&& service.idle()
            &&& cleared == (ServiceView {
                restoration: None,
                state_chunks: 0,
                block_chunks: 0,
                held: true,
                ..service
            })
        },
    ensures
        operation matches Operation::Init { service, manifest, recover, host } && plays(
            operation,
            seq![
                ActionView::OpenDatabase(database_in(service.root)),
                ActionView::StartRebuild {
                    genesis: service.genesis_block,
                    pruning: service.pruning,
                    manifest,
                },
            ],
            restore_run((cleared, cleared.open_database(manifest, recover)), host),
        ),
{
    if let Operation::Init { service, manifest, recover, host } = operation {
        lemma_dirs(service);
        let leftover = Some(restoration_in(service.root));
        let opening = ActionView::OpenDatabase(database_in(service.root));
        let rebuilding = ActionView::StartRebuild {
            genesis: service.genesis_block,
            pruning: service.pruning,
            manifest,
        };
        let task = RestoreTaskView::Rebuilding { manifest, writer: recover, leftover };
        let begun = cleared.resume_restore(task, host(rebuilding));
        lemma_restore_step(cleared, rebuilding, task, host);
        match operation.refused(rebuilding) {
            Some(error) => lemma_abandoned(cleared, leftover, error, host),
            None => {
                assert(begun.0 =~= operation.left(None));
                lemma_plays_none(operation, restore_run(begun, host));
            },
        }
        lemma_plays_first(
            operation,
            rebuilding,
            none(),
            restore_run((cleared, StepView::Do(rebuilding, task)), host),
            restore_run(begun, host),
        );
        assert(seq![rebuilding] + none() =~= seq![rebuilding]);
        let task = RestoreTaskView::OpeningDatabase { manifest, writer: recover, leftover };
        lemma_restore_step(cleared, opening, task, host);
        match operation.refused(opening) {
            Some(error) => lemma_abandoned(cleared, leftover, error, host),
            None => {},
        }
        lemma_plays_first(
            operation,
            opening,
            seq![rebuilding],
            restore_run((cleared, StepView::Do(opening, task)), host),
            restore_run(cleared.resume_restore(task, host(opening)), host),
        );
        assert(seq![opening] + seq![rebuilding] =~= seq![opening, rebuilding]);
    }
}

proof fn lemma_init_clears(operation: Operation, cleared: ServiceView)
    requires
        operation matches Operation::Init { service, host, .. } && {
            &&& answers(host)
            &&& service.idle()
            &&& cleared == (ServiceView {
                restoration: None,
                state_chunks: 0,
                block_chunks: 0,
                held: true,
                ..service
            })
        },
    ensures
        operation matches Operation::Init { service, manifest, recover, host } && plays(
            operation,
            seq![
                ActionView::RemoveDirAll(restoration_in(service.root)),
                ActionView::CreateDirAll(restoration_in(service.root)),
            ] + only_if(recover, seq![ActionView::OpenWriter(recovered_in(service.root))]) + seq![
                ActionView::OpenDatabase(database_in(service.root)),
                ActionView::StartRebuild {
                    genesis: service.genesis_block,
                    pruning: service.pruning,
                    manifest,
                },
            ],
            restore_run((cleared, cleared.clear_restoration(manifest, recover)), host),
        ),
{
    if let Operation::Init { service, manifest, recover, host } = operation {
        lemma_dirs(service);
        lemma_init_rebuilds(operation, cleared);
        let removing = ActionView::RemoveDirAll(restoration_in(service.root));
        let creating = ActionView::CreateDirAll(restoration_in(service.root));
        let writing = ActionView::OpenWriter(recovered_in(service.root));
        let last = seq![
            ActionView::OpenDatabase(database_in(service.root)),
            ActionView::StartRebuild {
                genesis: service.genesis_block,
                pruning: service.pruning,
                manifest,
            },
        ];
        let opened = only_if(recover, seq![writing]) + last;
        if recover {
            let task = RestoreTaskView::OpeningWriter { manifest };
            lemma_restore_step(cleared, writing, task, host);
            if let Some(error) = operation.refused(writing) {
                lemma_given_up(cleared, error, host);
            }
            lemma_plays_first(
                operation,
                writing,
                last,
                restore_run((cleared, StepView::Do(writing, task)), host),
                restore_run(cleared.resume_restore(task, host(writing)), host),
            );
        } else {
            assert(opened =~= last);
        }
        let task = RestoreTaskView::Creating { manifest, recover };
        lemma_restore_step(cleared, creating, task, host);
        if let Some(error) = operation.refused(creating) {
            lemma_given_up(cleared, error, host);
        }
        lemma_plays_first(
            operation,
            creating,
            opened,
            restore_run((cleared, StepView::Do(creating, task)), host),
            restore_run(cleared.resume_restore(task, host(creating)), host),
        );
        let task = RestoreTaskView::Removing { manifest, recover };
        lemma_restore_step(cleared, removing, task, host);
        if let Some(error) = operation.refused(removing) {
            lemma_given_up(cleared, error, host);
        }
        lemma_plays_first(
            operation,
            removing,
            seq![creating] + opened,
            restore_run((cleared, StepView::Do(removing, task)), host),
            restore_run(cleared.resume_restore(task, host(removing)), host),
        );
        assert(seq![removing] + (seq![creating] + opened) =~= seq![removing, creating] + only_if(
            recover,
            seq![writing],
        ) + last);
    }
}

/// `init_restore`, in full: it plays its script.
pub proof fn law_init_plays_its_script(
    service: ServiceView,
    manifest: ManifestView,
    recover: bool,
    host: Host,
)
    requires
        proper(host),
        !service.held,
        !service.swapping,
    ensures
        ({
            let operation = Operation::Init { service, manifest, recover, host };
            plays(
                operation,
                operation.script(),
                service.init_restore_run(manifest, recover, host),
            )
        }),
{
    law_proper_hosts_answer(host);
    let operation = Operation::Init { service, manifest, recover, host };
    let cleared = ServiceView {
        restoration: None,
        state_chunks: 0,
        block_chunks: 0,
        held: true,
        ..service
    };
    lemma_dirs(service);
    lemma_init_clears(operation, cleared);
    let clearing = (cleared, cleared.clear_restoration(manifest, recover));
    let rest_of_script = seq![
        ActionView::RemoveDirAll(restoration_in(service.root)),
        ActionView::CreateDirAll(restoration_in(service.root)),
    ] + only_if(recover, seq![ActionView::OpenWriter(recovered_in(service.root))]) + seq![
        ActionView::OpenDatabase(database_in(service.root)),
        ActionView::StartRebuild {
            genesis: service.genesis_block,
            pruning: service.pruning,
            manifest,
        },
    ];
    match service.restoration {
        Some(rest) => {
            let discarding = ActionView::Discard(rest.leftover);
            let task = RestoreTaskView::TearingDown { manifest, recover };
            lemma_restore_step(cleared, discarding, task, host);
            lemma_plays_first(
                operation,
                discarding,
                rest_of_script,
                restore_run((cleared, StepView::Do(discarding, task)), host),
                restore_run(clearing, host),
            );
            assert(seq![discarding] + rest_of_script =~= operation.script());
        },
        None => {
            assert(rest_of_script =~= operation.script());
        },
    }
}

/// `abort_restore`, in full: it discards the restoration, if there is one, with the directory that it
/// guards, and nothing else; and it leaves the service inactive and not restoring.
pub proof fn law_abort_in_full(service: ServiceView, host: Host)
    requires
        proper(host),
        !service.held,
        !service.swapping,
    ensures
        ({
            let run = service.abort_restore_run(host);
            &&& run.actions() == only_if(
                service.restoration is Some,
                seq![ActionView::Discard(service.restoration->0.leftover)],
            )
            &&& run.result == Ok::<(), Error>(())
            &&& run.service == (ServiceView {
                restoration: None,
                status: RestorationStatus::Inactive,
                restoring_snapshot: false,
                ..service
            })
        }),
{
    law_proper_hosts_answer(host);
    reveal_with_fuel(restore_run, 3);
    let run = service.abort_restore_run(host);
    assert(run.actions() =~= only_if(
        service.restoration is Some,
        seq![ActionView::Discard(service.restoration->0.leftover)],
    ));
}

// ---------------------------------------------------------------------------------------------
// Taking a snapshot
// ---------------------------------------------------------------------------------------------

/// The run of a snapshot from where what there is of it is removed.
proof fn lemma_dropped(service: ServiceView, temp: PathView, result: Result<(), Error>, host: Host)
    requires
        answers(host),
    ensures
        ({
            let at = (
                service,
                StepView::Do(ActionView::RemoveDirAll(temp), SnapshotTaskView::Dropping { result }),
            );
            let run = snapshot_run(at, host);
            &&& run.actions() == seq![ActionView::RemoveDirAll(temp)]
            &&& run.result == result
            &&& run.service == service
        }),
{
    let removing = ActionView::RemoveDirAll(temp);
    lemma_snapshot_step(service, removing, SnapshotTaskView::Dropping { result }, host);
    let end = snapshot_run((service, StepView::Return(result)), host);
    assert(end.actions() =~= none());
    assert(seq![removing] + none() =~= seq![removing]);
}

/// The run of a snapshot from where it is put in its place.
#[verifier::rlimit(40)]
proof fn lemma_take_swaps(operation: Operation)
    requires
        operation matches Operation::Take { service, num, host } && {
            &&& answers(host)
            &&& in_range(host, num)
            &&& !service.swapping
            &&& !service.taking_snapshot
        },
    ensures
        operation matches Operation::Take { service, num, host } && plays(
            operation,
            swap_script(in_progress_in(service.root), current_in(service.root), host),
            snapshot_run(
                (
                    service,
                    StepView::Do(
                        ActionView::HoldReader,
                        SnapshotTaskView::Holding { leftover: Some(in_progress_in(service.root)) },
                    ),
                ),
                host,
            ),
        ),
{
    if let Operation::Take { service, num, host } = operation {
        lemma_dirs(service);
        let temp = in_progress_in(service.root);
        let current = current_in(service.root);
        let leftover = Some(temp);
        let closed = ServiceView { reader: None, swapping: true, ..service };
        let open = ServiceView { swapping: false, ..closed };
        let reading = ActionView::OpenReader(current);
        let renaming = ActionView::Rename { from: temp, to: current };
        let removing = ActionView::RemoveDirAll(current);
        let checking = ActionView::Exists(current);
        let there = host(checking) == ReplyView::Flag(true);

        let task = SnapshotTaskView::Reopening { leftover };
        let next = closed.resume_snapshot(task, host(reading));
        lemma_snapshot_step(closed, reading, task, host);
        match operation.refused(reading) {
            Some(error) => lemma_dropped(open, temp, Err(error), host),
            None => lemma_plays_none(operation, snapshot_run(next, host)),
        }
        assert(none() + seq![ActionView::RemoveDirAll(temp)] =~= seq![
            ActionView::RemoveDirAll(temp),
        ]);
        lemma_plays_first(
            operation,
            reading,
            none(),
            snapshot_run((closed, StepView::Do(reading, task)), host),
            snapshot_run(next, host),
        );
        let script = seq![reading] + none();

        let task = SnapshotTaskView::Renaming { leftover };
        lemma_snapshot_step(closed, renaming, task, host);
        if let Some(error) = operation.refused(renaming) {
            lemma_dropped(open, temp, Err(error), host);
        }
        let renamed = snapshot_run((closed, StepView::Do(renaming, task)), host);
        lemma_plays_first(
            operation,
            renaming,
            script,
            renamed,
            snapshot_run(closed.resume_snapshot(task, host(renaming)), host),
        );
        let script = seq![renaming] + script;

        let task = SnapshotTaskView::Removing { leftover };
        if there {
            lemma_snapshot_step(closed, removing, task, host);
            if let Some(error) = operation.refused(removing) {
                lemma_dropped(open, temp, Err(error), host);
            }
            lemma_plays_first(
                operation,
                removing,
                script,
                snapshot_run((closed, StepView::Do(removing, task)), host),
                snapshot_run(closed.resume_snapshot(task, host(removing)), host),
            );
        }
        let script = if there {
            seq![removing] + script
        } else {
            script
        };

        let task = SnapshotTaskView::Checking { leftover };
        lemma_snapshot_step(closed, checking, task, host);
        lemma_plays_first(
            operation,
            checking,
            script,
            snapshot_run((closed, StepView::Do(checking, task)), host),
            snapshot_run(closed.resume_snapshot(task, host(checking)), host),
        );
        let script = seq![checking] + script;

        let task = SnapshotTaskView::Holding { leftover };
        lemma_snapshot_step(service, ActionView::HoldReader, task, host);
        lemma_plays_first(
            operation,
            ActionView::HoldReader,
            script,
            snapshot_run((service, StepView::Do(ActionView::HoldReader, task)), host),
            snapshot_run((closed, StepView::Do(checking, SnapshotTaskView::Checking { leftover })), host),
        );
        assert(seq![ActionView::HoldReader] + script =~= swap_script(temp, current, host));
    }
}

/// The run of a snapshot that the client fails to write, from where the client has failed.
proof fn lemma_take_judged(operation: Operation, error: Error)
    requires
        operation matches Operation::Take { service, num, host } && {
            &&& answers(host)
            &&& in_range(host, num)
            &&& host(ActionView::TakeSnapshot(num)) == ReplyView::Done(Err(error))
            &&& !service.taking_snapshot
        },
    ensures
        operation matches Operation::Take { service, num, host } && ({
            let action = ActionView::TakeSnapshot(num);
            let run = snapshot_run(
                (
                    service,
                    StepView::Do(
                        ActionView::ChainInfo,
                        SnapshotTaskView::Judging {
                            num,
                            leftover: Some(in_progress_in(service.root)),
                            error,
                        },
                    ),
                ),
                host,
            );
            &&& run.actions() == operation.cleanup(action)
            &&& run.result == operation.returned(Some(action))
            &&& run.service == operation.left(Some(action))
        }),
{
    if let Operation::Take { service, num, host } = operation {
        let temp = in_progress_in(service.root);
        let action = ActionView::TakeSnapshot(num);
        let task = SnapshotTaskView::Judging { num, leftover: Some(temp), error };
        lemma_snapshot_step(service, ActionView::ChainInfo, task, host);
        lemma_dropped(service, temp, operation.returned(Some(action)), host);
        assert(operation.refused(action) == Some(error));
    }
}

/// `take_snapshot`, in full: while another snapshot is being taken it does nothing; otherwise it plays
/// its script.
pub proof fn law_take_plays_its_script(service: ServiceView, num: u64, host: Host)
    requires
        proper(host),
        num + host(ActionView::ChainInfo)->pruning_history <= u64::MAX,
        !service.swapping,
    ensures
        ({
            let operation = Operation::Take { service, num, host };
            let run = service.take_snapshot_run(num, host);
            if service.taking_snapshot {
                &&& run.trace == Seq::<Asked>::empty()
                &&& run.result == Ok::<(), Error>(())
                &&& run.service == service
            } else {
                plays(operation, operation.script(), run)
            }
        }),
{
    law_proper_hosts_answer(host);
    if !service.taking_snapshot {
        let operation = Operation::Take { service, num, host };
        let taking = ServiceView { taking_snapshot: true, ..service };
        let temp = in_progress_in(service.root);
        let swap = swap_script(temp, current_in(service.root), host);
        let snapshot = ActionView::TakeSnapshot(num);
        let writing = ActionView::OpenWriter(temp);
        let clearing = ActionView::RemoveDirAll(temp);
        lemma_dirs(service);
        lemma_take_swaps(operation);

        let task = SnapshotTaskView::Taking { num, leftover: Some(temp) };
        lemma_snapshot_step(taking, snapshot, task, host);
        assert((ServiceView { taking_snapshot: false, ..taking }) =~= service);
        if let Some(error) = operation.refused(snapshot) {
            lemma_take_judged(operation, error);
        }
        lemma_plays_first(
            operation,
            snapshot,
            swap,
            snapshot_run((taking, StepView::Do(snapshot, task)), host),
            snapshot_run(taking.resume_snapshot(task, host(snapshot)), host),
        );
        let script = seq![snapshot] + swap;

        let task = SnapshotTaskView::OpeningWriter { num };
        lemma_snapshot_step(taking, writing, task, host);
        let next = snapshot_run(taking.resume_snapshot(task, host(writing)), host);
        if operation.refused(writing) is Some {
            assert(next.actions() =~= operation.cleanup(writing));
        }
        lemma_plays_first(
            operation,
            writing,
            script,
            snapshot_run((taking, StepView::Do(writing, task)), host),
            next,
        );
        let script = seq![writing] + script;

        let task = SnapshotTaskView::Clearing { num };
        lemma_snapshot_step(taking, clearing, task, host);
        lemma_plays_first(
            operation,
            clearing,
            script,
            snapshot_run((taking, StepView::Do(clearing, task)), host),
            snapshot_run(taking.resume_snapshot(task, host(clearing)), host),
        );
        let script = seq![clearing] + script;

        let task = SnapshotTaskView::Resetting { num };
        lemma_snapshot_step(taking, ActionView::ResetProgress, task, host);
        lemma_plays_first(
            operation,
            ActionView::ResetProgress,
            script,
            snapshot_run((taking, StepView::Do(ActionView::ResetProgress, task)), host),
            snapshot_run(
                taking.resume_snapshot(task, host(ActionView::ResetProgress)),
                host,
            ),
        );
        assert(seq![ActionView::ResetProgress] + script =~= operation.script());
    }
}

// ---------------------------------------------------------------------------------------------
// Feeding a chunk
// ---------------------------------------------------------------------------------------------

/// The run of a feeding that fails, from where its error is known and it has no restoration.
proof fn lemma_failed(service: ServiceView, error: Error, host: Host)
    requires
        answers(host),
        service.restoration is None,
    ensures
        ({
            let run = feed_run(service.fail(error), host);
            &&& run.actions() == seq![ActionView::RemoveDirAll(restoration_in(service.root))]
            &&& run.result == Err::<(), Error>(error)
            &&& run.service == (ServiceView {
                status: RestorationStatus::Failed,
                held: false,
                ..service
            })
        }),
{
    lemma_dirs(service);
    let removing = ActionView::RemoveDirAll(restoration_in(service.root));
    let failed = service.fail(error).0;
    lemma_feed_step(failed, removing, FeedTaskView::Cleaning { error }, host);
    let end = feed_run((failed, StepView::Return(Err(error))), host);
    assert(end.actions() =~= none());
    assert(seq![removing] + none() =~= seq![removing]);
}

/// The run of a feeding that fails, from where its restoration is discarded.
proof fn lemma_discarded(
    service: ServiceView,
    leftover: Option<PathView>,
    error: Error,
    host: Host,
)
    requires
        answers(host),
        service.restoration is None,
    ensures
        ({
            let discarding = ActionView::Discard(leftover);
            let at = (service, StepView::Do(discarding, FeedTaskView::Failing { error }));
            let run = feed_run(at, host);
            &&& run.actions() == seq![
                discarding,
                ActionView::RemoveDirAll(restoration_in(service.root)),
            ]
            &&& run.result == Err::<(), Error>(error)
            &&& run.service == (ServiceView {
                status: RestorationStatus::Failed,
                held: false,
                ..service
            })
        }),
{
    let discarding = ActionView::Discard(leftover);
    lemma_feed_step(service, discarding, FeedTaskView::Failing { error }, host);
    lemma_failed(service, error, host);
    assert(seq![discarding] + seq![ActionView::RemoveDirAll(restoration_in(service.root))]
        =~= seq![discarding, ActionView::RemoveDirAll(restoration_in(service.root))]);
}

/// The service while a feeding holds the restoration, with the chunk counted or not.
pub(crate) open spec fn holding(operation: Operation, counted: bool) -> ServiceView {
    let service = operation->Feed_service;
    let is_state = operation->Feed_is_state;
    ServiceView {
        restoration: None,
        held: true,
        state_chunks: if counted && is_state {
            one_more(service.state_chunks)
        } else {
            service.state_chunks
        },
        block_chunks: if counted && !is_state {
            one_more(service.block_chunks)
        } else {
            service.block_chunks
        },
        ..service
    }
}

/// What is asked of the feedings that the lemmas below are about.
spec fn feeds(operation: Operation) -> bool {
    operation matches Operation::Feed { service, host, .. } && {
        &&& answers(host)
        &&& service.idle()
        &&& service.status is Ongoing
        &&& service.restoration is Some
    }
}

/// The end of a feeding that finishes the restoration: the restoration directory goes.
proof fn lemma_feed_ends(operation: Operation, at: ServiceView)
    requires
        feeds(operation),
        operation.fed().last(),
        (ServiceView { status: RestorationStatus::Inactive, held: false, ..at })
            == operation.left(None),
        at.root == operation->Feed_service.root,
    ensures
        plays(
            operation,
            seq![ActionView::RemoveDirAll(restoration_in(operation->Feed_service.root))],
            feed_run((at, at.end_restoration()), operation->Feed_host),
        ),
{
    let host = operation->Feed_host;
    lemma_dirs(at);
    let removing = ActionView::RemoveDirAll(restoration_in(at.root));
    let next = feed_run(at.resume_feed(FeedTaskView::Ending, host(removing)), host);
    lemma_feed_step(at, removing, FeedTaskView::Ending, host);
    lemma_plays_none(operation, next);
    lemma_plays_first(
        operation,
        removing,
        none(),
        feed_run((at, StepView::Do(removing, FeedTaskView::Ending)), host),
        next,
    );
    assert(seq![removing] + none() =~= seq![removing]);
}

/// The run of a feeding from where the recovered snapshot is put in its place.
#[verifier::rlimit(40)]
proof fn lemma_feed_swaps(operation: Operation)
    requires
        feeds(operation),
        operation.fed().last(),
        operation.fed().rest.writer,
    ensures
        ({
            let root = operation->Feed_service.root;
            plays(
                operation,
                swap_script(recovered_in(root), current_in(root), operation->Feed_host) + seq![
                    ActionView::RemoveDirAll(restoration_in(root)),
                ],
                feed_run(
                    (
                        holding(operation, true),
                        StepView::Do(ActionView::HoldReader, FeedTaskView::Holding),
                    ),
                    operation->Feed_host,
                ),
            )
        }),
{
    let service = operation->Feed_service;
    let host = operation->Feed_host;
    lemma_dirs(service);
    let temp = recovered_in(service.root);
    let current = current_in(service.root);
    let begun = holding(operation, true);
    let closed = ServiceView { reader: None, swapping: true, ..begun };
    let open = ServiceView { swapping: false, ..closed };
    let reading = ActionView::OpenReader(current);
    let renaming = ActionView::Rename { from: temp, to: current };
    let removing = ActionView::RemoveDirAll(current);
    let checking = ActionView::Exists(current);
    let there = host(checking) == ReplyView::Flag(true);
    let last = seq![ActionView::RemoveDirAll(restoration_in(service.root))];

    let next = closed.resume_feed(FeedTaskView::Reopening, host(reading));
    lemma_feed_step(closed, reading, FeedTaskView::Reopening, host);
    match operation.refused(reading) {
        Some(error) => lemma_failed(open, error, host),
        None => lemma_feed_ends(operation, next.0),
    }
    assert(none() + last =~= last);
    lemma_plays_first(
        operation,
        reading,
        last,
        feed_run((closed, StepView::Do(reading, FeedTaskView::Reopening)), host),
        feed_run(next, host),
    );
    let script = seq![reading] + last;

    let next = closed.resume_feed(FeedTaskView::Renaming, host(renaming));
    lemma_feed_step(closed, renaming, FeedTaskView::Renaming, host);
    if let Some(error) = operation.refused(renaming) {
        lemma_failed(open, error, host);
    }
    lemma_plays_first(
        operation,
        renaming,
        script,
        feed_run((closed, StepView::Do(renaming, FeedTaskView::Renaming)), host),
        feed_run(next, host),
    );
    let script = seq![renaming] + script;

    if there {
        let next = closed.resume_feed(FeedTaskView::Removing, host(removing));
        lemma_feed_step(closed, removing, FeedTaskView::Removing, host);
        if let Some(error) = operation.refused(removing) {
            lemma_failed(open, error, host);
        }
        lemma_plays_first(
            operation,
            removing,
            script,
            feed_run((closed, StepView::Do(removing, FeedTaskView::Removing)), host),
            feed_run(next, host),
        );
    }
    let script = if there {
        seq![removing] + script
    } else {
        script
    };

    let next = closed.resume_feed(FeedTaskView::Checking, host(checking));
    lemma_feed_step(closed, checking, FeedTaskView::Checking, host);
    lemma_plays_first(
        operation,
        checking,
        script,
        feed_run((closed, StepView::Do(checking, FeedTaskView::Checking)), host),
        feed_run(next, host),
    );
    let script = seq![checking] + script;

    lemma_feed_step(begun, ActionView::HoldReader, FeedTaskView::Holding, host);
    lemma_plays_first(
        operation,
        ActionView::HoldReader,
        script,
        feed_run((begun, StepView::Do(ActionView::HoldReader, FeedTaskView::Holding)), host),
        feed_run((closed, StepView::Do(checking, FeedTaskView::Checking)), host),
    );
    assert(seq![ActionView::HoldReader] + script =~= swap_script(temp, current, host) + last);
}

/// The script of putting the results of a restoration in place.
spec fn replacing_script(operation: Operation) -> Seq<ActionView> {
    let root = operation->Feed_service.root;
    seq![ActionView::Discard(None), ActionView::ReplaceClientDb(database_in(root))] + only_if(
        operation.fed().rest.writer,
        swap_script(recovered_in(root), current_in(root), operation->Feed_host),
    ) + seq![ActionView::RemoveDirAll(restoration_in(root))]
}

/// The run of a feeding from where the verified restoration is let go.
proof fn lemma_feed_replaces(operation: Operation)
    requires
        feeds(operation),
        operation.fed().last(),
    ensures
        plays(
            operation,
            replacing_script(operation),
            feed_run(
                (
                    holding(operation, true),
                    StepView::Do(
                        ActionView::Discard(None),
                        FeedTaskView::Closing { recover: operation.fed().rest.writer },
                    ),
                ),
                operation->Feed_host,
            ),
        ),
{
    let service = operation->Feed_service;
    let host = operation->Feed_host;
    let recover = operation.fed().rest.writer;
    lemma_dirs(service);
    let begun = holding(operation, true);
    let replacing = ActionView::ReplaceClientDb(database_in(service.root));
    let discarding = ActionView::Discard(None);
    let last = seq![ActionView::RemoveDirAll(restoration_in(service.root))];
    let swapping = only_if(
        recover,
        swap_script(recovered_in(service.root), current_in(service.root), host),
    ) + last;

    let task = FeedTaskView::Replacing { recover };
    lemma_feed_step(begun, replacing, task, host);
    match operation.refused(replacing) {
        Some(error) => {
            lemma_failed(begun, error, host);
            assert(none() + last =~= last);
        },
        None => if recover {
            lemma_feed_swaps(operation);
        } else {
            lemma_feed_ends(operation, begun);
            assert(swapping =~= last);
        },
    }
    lemma_plays_first(
        operation,
        replacing,
        swapping,
        feed_run((begun, StepView::Do(replacing, task)), host),
        feed_run(begun.resume_feed(task, host(replacing)), host),
    );

    let task = FeedTaskView::Closing { recover };
    lemma_feed_step(begun, discarding, task, host);
    lemma_plays_first(
        operation,
        discarding,
        seq![replacing] + swapping,
        feed_run((begun, StepView::Do(discarding, task)), host),
        feed_run((begun, StepView::Do(replacing, FeedTaskView::Replacing { recover })), host),
    );
    assert(seq![discarding] + (seq![replacing] + swapping) =~= replacing_script(operation));
}

/// The script of verifying a restoration, and of putting its results in place.
spec fn finishing_script(operation: Operation) -> Seq<ActionView> {
    let rest = operation.fed().rest;
    seq![
        ActionView::StateRoot,
        ActionView::CheckMissing,
        ActionView::FinalizeBlocks(rest.canonical_hashes),
    ] + only_if(rest.writer, seq![ActionView::FinishWriter(rest.manifest)]) + replacing_script(
        operation,
    )
}

/// The restoration that a feeding leaves to be finished.
spec fn left_to_finish(operation: Operation) -> RestorationView {
    let fed = operation.fed();
    RestorationView { state_chunks_left: fed.states(), block_chunks_left: fed.blocks(), ..fed.rest }
}

/// The run of a feeding from where all is fed.
#[verifier::rlimit(40)]
proof fn lemma_feed_finishes(operation: Operation)
    requires
        feeds(operation),
        operation.fed().last(),
    ensures
        plays(
            operation,
            finishing_script(operation),
            feed_run(
                (
                    holding(operation, true),
                    StepView::Do(
                        ActionView::StateRoot,
                        FeedTaskView::CheckingRoot { rest: left_to_finish(operation) },
                    ),
                ),
                operation->Feed_host,
            ),
        ),
{
    let host = operation->Feed_host;
    let rest = left_to_finish(operation);
    let leftover = rest.leftover;
    let begun = holding(operation, true);
    let finishing = ActionView::FinishWriter(rest.manifest);
    let blocks = ActionView::FinalizeBlocks(rest.canonical_hashes);
    let removing = seq![ActionView::RemoveDirAll(restoration_in(operation->Feed_service.root))];
    let cleanup = seq![
        ActionView::Discard(leftover),
        ActionView::RemoveDirAll(restoration_in(operation->Feed_service.root)),
    ];
    assert(seq![ActionView::Discard(leftover)] + removing =~= cleanup);
    lemma_feed_replaces(operation);
    let script = replacing_script(operation);

    if rest.writer {
        let task = FeedTaskView::FinishingWriter { leftover };
        lemma_feed_step(begun, finishing, task, host);
        if let Some(error) = operation.refused(finishing) {
            lemma_discarded(begun, leftover, error, host);
        }
        lemma_plays_first(
            operation,
            finishing,
            script,
            feed_run((begun, StepView::Do(finishing, task)), host),
            feed_run(begun.resume_feed(task, host(finishing)), host),
        );
    }
    let script = if rest.writer {
        seq![finishing] + script
    } else {
        script
    };

    let task = FeedTaskView::FinalizingBlocks {
        manifest: rest.manifest,
        writer: rest.writer,
        leftover,
    };
    lemma_feed_step(begun, blocks, task, host);
    if let Some(error) = operation.refused(blocks) {
        lemma_discarded(begun, leftover, error, host);
    }
    lemma_plays_first(
        operation,
        blocks,
        script,
        feed_run((begun, StepView::Do(blocks, task)), host),
        feed_run(begun.resume_feed(task, host(blocks)), host),
    );
    let script = seq![blocks] + script;

    let task = FeedTaskView::CheckingMissing { rest };
    lemma_feed_step(begun, ActionView::CheckMissing, task, host);
    if let Some(error) = operation.refused(ActionView::CheckMissing) {
        lemma_discarded(begun, leftover, error, host);
    }
    lemma_plays_first(
        operation,
        ActionView::CheckMissing,
        script,
        feed_run((begun, StepView::Do(ActionView::CheckMissing, task)), host),
        feed_run(begun.resume_feed(task, host(ActionView::CheckMissing)), host),
    );
    let script = seq![ActionView::CheckMissing] + script;

    let task = FeedTaskView::CheckingRoot { rest };
    lemma_feed_step(begun, ActionView::StateRoot, task, host);
    if let Some(error) = operation.refused(ActionView::StateRoot) {
        lemma_discarded(begun, leftover, error, host);
    }
    lemma_plays_first(
        operation,
        ActionView::StateRoot,
        script,
        feed_run((begun, StepView::Do(ActionView::StateRoot, task)), host),
        feed_run(begun.resume_feed(task, host(ActionView::StateRoot)), host),
    );
    assert(seq![ActionView::StateRoot] + script =~= finishing_script(operation));
}

/// The script of a feeding from the flush on.
spec fn counting_script(operation: Operation) -> Seq<ActionView> {
    seq![ActionView::FlushDatabase] + only_if(
        operation.fed().last(),
        finishing_script(operation),
    )
}

/// The run of a feeding from where the chunk is processed.
proof fn lemma_feed_counts(operation: Operation)
    requires
        feeds(operation),
    ensures
        plays(
            operation,
            counting_script(operation),
            feed_run(
                holding(operation, false).count_chunk(
                    left_to_finish(operation),
                    operation->Feed_is_state,
                ),
                operation->Feed_host,
            ),
        ),
{
    let host = operation->Feed_host;
    let is_state = operation->Feed_is_state;
    let rest = left_to_finish(operation);
    let begun = holding(operation, true);
    let flushing = ActionView::FlushDatabase;
    let removing = ActionView::RemoveDirAll(restoration_in(operation->Feed_service.root));
    assert(seq![ActionView::Discard(rest.leftover)] + seq![removing] =~= seq![
        ActionView::Discard(rest.leftover),
        removing,
    ]);
    let at = holding(operation, false).count_chunk(rest, is_state);
    assert(rest.done() <==> operation.fed().last()) by {
        if rest.done() {
            assert(rest.state_chunks_left =~= Set::empty());
            assert(rest.block_chunks_left =~= Set::empty());
        }
    }
    if operation.fed().last() {
        let task = FeedTaskView::FlushingLast { rest };
        assert(at.0 =~= begun);
        lemma_feed_step(begun, flushing, task, host);
        match operation.refused(flushing) {
            Some(error) => lemma_discarded(begun, rest.leftover, error, host),
            None => lemma_feed_finishes(operation),
        }
        lemma_plays_first(
            operation,
            flushing,
            finishing_script(operation),
            feed_run((begun, StepView::Do(flushing, task)), host),
            feed_run(begun.resume_feed(task, host(flushing)), host),
        );
    } else {
        let kept = ServiceView { restoration: Some(rest), held: false, ..begun };
        let task = FeedTaskView::Flushing;
        assert(at.0 =~= kept);
        lemma_feed_step(kept, flushing, task, host);
        let next = kept.resume_feed(task, host(flushing));
        match operation.refused(flushing) {
            Some(error) => {
                assert(next.0 =~= begun);
                lemma_discarded(begun, rest.leftover, error, host);
            },
            None => {
                assert(kept =~= operation.left(None));
                lemma_plays_none(operation, feed_run(next, host));
            },
        }
        lemma_plays_first(
            operation,
            flushing,
            none(),
            feed_run((kept, StepView::Do(flushing, task)), host),
            feed_run(next, host),
        );
    }
}

/// `feed_state_chunk` and `feed_block_chunk`, in full: while no restoration is going on they do
/// nothing; otherwise they play their script.
#[verifier::rlimit(40)]
pub proof fn law_feeding_plays_its_script(
    service: ServiceView,
    hash: H256,
    chunk: Seq<u8>,
    is_state: bool,
    host: Host,
)
    requires
        proper(host),
        !service.held,
        !service.swapping,
    ensures
        ({
            let operation = Operation::Feed { service, hash, chunk, is_state, host };
            let run = service.feed_chunk_run(hash, chunk, is_state, host);
            if service.status is Ongoing && service.restoration is Some {
                plays(operation, operation.script(), run)
            } else {
                &&& run.trace == Seq::<Asked>::empty()
                &&& run.result == Ok::<(), Error>(())
                &&& run.service == service
            }
        }),
{
    law_proper_hosts_answer(host);
    if service.status is Ongoing && service.restoration is Some {
        let operation = Operation::Feed { service, hash, chunk, is_state, host };
        let fed = operation.fed();
        let rest = left_to_finish(operation);
        let begun = holding(operation, false);
        let counting = counting_script(operation);
        let removing = ActionView::RemoveDirAll(restoration_in(service.root));
        assert(seq![ActionView::Discard(rest.leftover)] + seq![removing] =~= seq![
            ActionView::Discard(rest.leftover),
            removing,
        ]);
        lemma_feed_counts(operation);
        assert(fed.rest.without(hash, is_state) =~= rest);
        if fed.wanted() {
            let decompressing = ActionView::Decompress(chunk);
            let feeding = if is_state {
                ActionView::FeedState(operation.data())
            } else {
                ActionView::FeedBlocks(operation.data())
            };
            let writing = if is_state {
                ActionView::WriteStateChunk(hash, chunk)
            } else {
                ActionView::WriteBlockChunk(hash, chunk)
            };
            let script = counting;
            if rest.writer {
                let task = FeedTaskView::Writing { rest, is_state };
                lemma_feed_step(begun, writing, task, host);
                if let Some(error) = operation.refused(writing) {
                    lemma_discarded(begun, rest.leftover, error, host);
                }
                lemma_plays_first(
                    operation,
                    writing,
                    script,
                    feed_run((begun, StepView::Do(writing, task)), host),
                    feed_run(begun.resume_feed(task, host(writing)), host),
                );
            }
            let script = if rest.writer {
                seq![writing] + script
            } else {
                script
            };

            let task = FeedTaskView::Feeding { rest, hash, chunk, is_state };
            lemma_feed_step(begun, feeding, task, host);
            if let Some(error) = operation.refused(feeding) {
                lemma_discarded(begun, rest.leftover, error, host);
            }
            lemma_plays_first(
                operation,
                feeding,
                script,
                feed_run((begun, StepView::Do(feeding, task)), host),
                feed_run(begun.resume_feed(task, host(feeding)), host),
            );
            let script = seq![feeding] + script;

            let task = FeedTaskView::Decompressing { rest, hash, chunk, is_state };
            lemma_feed_step(begun, decompressing, task, host);
            if let Some(error) = operation.refused(decompressing) {
                lemma_discarded(begun, rest.leftover, error, host);
            }
            lemma_plays_first(
                operation,
                decompressing,
                script,
                feed_run((begun, StepView::Do(decompressing, task)), host),
                feed_run(begun.resume_feed(task, host(decompressing)), host),
            );
            lemma_script_parts(operation);
            assert(seq![decompressing] + script =~= operation.script());
        } else {
            assert(fed.rest =~= rest);
            lemma_script_parts(operation);
            assert(counting =~= operation.script());
        }
    }
}

/// The script of a feeding, in its parts.
proof fn lemma_script_parts(operation: Operation)
    requires
        feeds(operation),
    ensures
        operation matches Operation::Feed { service, hash, chunk, is_state, host }
            && operation.script() == only_if(
            operation.fed().wanted(),
            seq![
                ActionView::Decompress(chunk),
                if is_state {
                    ActionView::FeedState(operation.data())
                } else {
                    ActionView::FeedBlocks(operation.data())
                },
            ] + only_if(
                operation.fed().rest.writer,
                seq![
                    if is_state {
                        ActionView::WriteStateChunk(hash, chunk)
                    } else {
                        ActionView::WriteBlockChunk(hash, chunk)
                    },
                ],
            ),
        ) + counting_script(operation),
{
    let fed = operation.fed();
    let service = operation->Feed_service;
    let host = operation->Feed_host;
    let finishing = seq![
        ActionView::StateRoot,
        ActionView::CheckMissing,
        ActionView::FinalizeBlocks(fed.rest.canonical_hashes),
    ] + only_if(fed.rest.writer, seq![ActionView::FinishWriter(fed.rest.manifest)]) + seq![
        ActionView::Discard(None),
        ActionView::ReplaceClientDb(database_in(service.root)),
    ] + only_if(
        fed.rest.writer,
        swap_script(recovered_in(service.root), current_in(service.root), host),
    ) + seq![ActionView::RemoveDirAll(restoration_in(service.root))];
    assert(finishing =~= finishing_script(operation));
    let processing = operation.script().take(
        operation.script().len() - counting_script(operation).len(),
    );
    assert(operation.script() =~= processing + counting_script(operation));
}

// ---------------------------------------------------------------------------------------------
// Creating a service
// ---------------------------------------------------------------------------------------------

/// The error in the reply to a removal. A directory that is not there needs no removing.
pub open spec fn removal_refusal(reply: ReplyView) -> Option<Error> {
    match reply {
        ReplyView::Io(Err(e)) if e.kind != IoErrorKind::NotFound => Some(Error::StdIo(e)),
        _ => None,
    }
}

/// The error in the reply to the creation of the root. A root that is there already will do.
pub open spec fn creation_refusal(reply: ReplyView) -> Option<Error> {
    match reply {
        ReplyView::Io(Err(e)) if e.kind != IoErrorKind::AlreadyExists => Some(Error::StdIo(e)),
        _ => None,
    }
}

/// `Service::new`, in full. It has the root created, what earlier services left of a restoration and
/// of a snapshot removed, and the current snapshot opened, and it gives up at the first of these that
/// is refused, but for the last. The service that comes into being has the genesis block, the pruning
/// and the root that it was given, the snapshot that was found, and nothing else.
pub proof fn law_new_in_full(genesis_block: Seq<u8>, pruning: Algorithm, root: PathView, host: Host)
    requires
        proper(host),
    ensures
        ({
            let run = startup_run(
                StartupView::at(
                    StartupStage::CreatingRoot,
                    ServiceView::fresh(genesis_block, pruning, root),
                ),
                host,
            );
            let creating = ActionView::CreateDirAll(root);
            let removing = ActionView::RemoveDirAll(restoration_in(root));
            let clearing = ActionView::RemoveDirAll(in_progress_in(root));
            let reading = ActionView::OpenReader(current_in(root));
            if let Some(error) = creation_refusal(host(creating)) {
                run.0 == Err::<ServiceView, Error>(error) && run.1 == seq![creating]
            } else if let Some(error) = removal_refusal(host(removing)) {
                run.0 == Err::<ServiceView, Error>(error) && run.1 == seq![creating, removing]
            } else if let Some(error) = removal_refusal(host(clearing)) {
                run.0 == Err::<ServiceView, Error>(error) && run.1 == seq![
                    creating,
                    removing,
                    clearing,
                ]
            } else {
                &&& run.1 == seq![creating, removing, clearing, reading]
                &&& run.0 matches Ok(service) && {
                    &&& service.genesis_block == genesis_block
                    &&& service.pruning == pruning
                    &&& service.root == root
                    &&& service.restoration is None
                    &&& service.status is Inactive
                    &&& service.state_chunks == 0
                    &&& service.block_chunks == 0
                    &&& !service.taking_snapshot
                    &&& !service.restoring_snapshot
                    &&& !service.held
                    &&& !service.swapping
                    &&& service.reader == match host(reading) {
                        ReplyView::Reader(Ok(manifest)) => Some(
                            ReaderView { dir: current_in(root), manifest },
                        ),
                        _ => None,
                    }
                }
            }
        }),
{
    law_proper_hosts_answer(host);
    lemma_dirs(ServiceView::fresh(genesis_block, pruning, root));
    reveal_with_fuel(startup_run, 5);
    let run = startup_run(
        StartupView::at(
            StartupStage::CreatingRoot,
            ServiceView::fresh(genesis_block, pruning, root),
        ),
        host,
    );
    assert(fits(ActionView::CreateDirAll(root), host(ActionView::CreateDirAll(root))));
}

} // verus!
