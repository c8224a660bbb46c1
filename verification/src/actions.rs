//! Laws of operations that succeed: the actions that they ask for, one by one.

use vstd::prelude::*;

use crate::feed::{close, FeedTaskView};
use crate::hash::H256;
use crate::host::{ActionView, ReplyView, StepView};
use crate::manifest::ManifestView;
use crate::outcomes::{law_feed_outcome, law_init_outcome, law_take_outcome, placing_error};
use crate::path::PathView;
use crate::restoration::RestorationView;
use crate::restore::RestoreTaskView;
use crate::runs::{
    answers, feed_next, feed_run, in_range, restore_run, snapshot_run, startup_run, Asked, Host, Run,
};
use crate::service::ServiceView;
use crate::startup::{StartupStage, StartupView};
use crate::status::Algorithm;

verus! {

impl Run {
    /// The actions that the operation asked for, in their order.
    pub open spec fn actions(self) -> Seq<ActionView> {
        self.trace.map_values(|asked: Asked| asked.action)
    }
}

/// No action at all.
pub open spec fn nothing() -> Seq<ActionView> {
    Seq::empty()
}

/// How the snapshot in `from` takes the place of the one in `to`.
pub open spec fn placing_actions(from: PathView, to: PathView, host: Host) -> Seq<ActionView> {
    let removing = if host(ActionView::Exists(to)) == ReplyView::Flag(true) {
        seq![ActionView::RemoveDirAll(to)]
    } else {
        nothing()
    };
    seq![ActionView::HoldReader, ActionView::Exists(to)] + removing + seq![
        ActionView::Rename { from, to },
        ActionView::OpenReader(to),
    ]
}

/// How a restoration processes a chunk: not at all, if it does not want it.
pub open spec fn processing_actions(
    rest: RestorationView,
    hash: H256,
    chunk: Seq<u8>,
    is_state: bool,
    host: Host,
) -> Seq<ActionView> {
    if rest.wants(hash, is_state) {
        let data = host(ActionView::Decompress(chunk))->Bytes_0->Ok_0;
        let feeding = if is_state {
            ActionView::FeedState(data)
        } else {
            ActionView::FeedBlocks(data)
        };
        let writing = if !rest.writer {
            nothing()
        } else if is_state {
            seq![ActionView::WriteStateChunk(hash, chunk)]
        } else {
            seq![ActionView::WriteBlockChunk(hash, chunk)]
        };
        seq![ActionView::Decompress(chunk), feeding] + writing
    } else {
        nothing()
    }
}

impl ServiceView {
    /// How the results of a restoration are put in place.
    pub open spec fn replacing_actions(self, recover: bool, host: Host) -> Seq<ActionView> {
        let placing = if recover {
            placing_actions(self.temp_recovery_dir(), self.snapshot_dir(), host)
        } else {
            nothing()
        };
        seq![ActionView::ReplaceClientDb(self.restoration_db())] + placing + seq![
            ActionView::RemoveDirAll(self.restoration_dir()),
        ]
    }

    /// How a restoration of which all is fed is verified, let go, and put in place.
    pub open spec fn finishing_actions(self, rest: RestorationView, host: Host) -> Seq<ActionView> {
        let finishing = if rest.writer {
            seq![ActionView::FinishWriter(rest.manifest)]
        } else {
            nothing()
        };
        seq![
            ActionView::StateRoot,
            ActionView::CheckMissing,
            ActionView::FinalizeBlocks(rest.canonical_hashes),
        ] + finishing + seq![ActionView::Discard(None)] + self.replacing_actions(rest.writer, host)
    }

    /// How a chunk is counted: the database is flushed, and then, if no other chunk is left to be
    /// fed, the restoration is finished.
    pub open spec fn counting_actions(self, rest: RestorationView, host: Host) -> Seq<ActionView> {
        seq![ActionView::FlushDatabase] + if rest.done() {
            self.finishing_actions(rest, host)
        } else {
            nothing()
        }
    }
}

/// A service that comes into being has had its root created, what earlier services left of a
/// restoration and of a snapshot removed, and the current snapshot opened.
pub proof fn law_new_actions(genesis_block: Seq<u8>, pruning: Algorithm, root: PathView, host: Host)
    requires
        answers(host),
    ensures
        ({
            let service = ServiceView::fresh(genesis_block, pruning, root);
            let run = startup_run(StartupView::at(StartupStage::CreatingRoot, service), host);
            run.0 is Ok ==> run.1 == seq![
                ActionView::CreateDirAll(root),
                ActionView::RemoveDirAll(service.restoration_dir()),
                ActionView::RemoveDirAll(service.temp_snapshot_dir()),
                ActionView::OpenReader(service.snapshot_dir()),
            ]
        }),
{
    reveal_with_fuel(startup_run, 5);
}

/// A restoration that has begun has had the old one discarded, if there was one, its directory made
/// anew, the writer opened, if there is one, the database opened and the rebuilders set up.
pub proof fn law_init_actions(service: ServiceView, manifest: ManifestView, recover: bool, host: Host)
    requires
        answers(host),
        service.idle(),
        service.init_restore_run(manifest, recover, host).result is Ok,
    ensures
        ({
            let dir = service.restoration_dir();
            let discarding = match service.restoration {
                Some(rest) => seq![ActionView::Discard(rest.leftover)],
                None => nothing(),
            };
            let writing = if recover {
                seq![ActionView::OpenWriter(service.temp_recovery_dir())]
            } else {
                nothing()
            };
            service.init_restore_run(manifest, recover, host).actions() == discarding + seq![
                ActionView::RemoveDirAll(dir),
                ActionView::CreateDirAll(dir),
            ] + writing + seq![
                ActionView::OpenDatabase(service.restoration_db()),
                ActionView::StartRebuild {
                    genesis: service.genesis_block,
                    pruning: service.pruning,
                    manifest,
                },
            ]
        }),
{
    law_init_outcome(service, manifest, recover, host);
    let dir = service.restoration_dir();
    let cleared = ServiceView {
        restoration: None,
        state_chunks: 0,
        block_chunks: 0,
        held: true,
        ..service
    };
    let removing = ActionView::RemoveDirAll(dir);
    let clearing = restore_run((cleared, cleared.clear_restoration(manifest, recover)), host);
    lemma_clear_actions(cleared, manifest, recover, host);
    if let Some(rest) = service.restoration {
        let discarding = ActionView::Discard(rest.leftover);
        lemma_restore_step_actions(
            cleared,
            discarding,
            RestoreTaskView::TearingDown { manifest, recover },
            host,
        );
        assert(seq![discarding] + clearing.actions() =~= service.init_restore_run(
            manifest,
            recover,
            host,
        ).actions());
    }
    let writing = if recover {
        seq![ActionView::OpenWriter(service.temp_recovery_dir())]
    } else {
        nothing()
    };
    let discarding = match service.restoration {
        Some(rest) => seq![ActionView::Discard(rest.leftover)],
        None => nothing(),
    };
    let making = seq![removing, ActionView::CreateDirAll(dir)];
    let opening = seq![
        ActionView::OpenDatabase(service.restoration_db()),
        ActionView::StartRebuild {
            genesis: service.genesis_block,
            pruning: service.pruning,
            manifest,
        },
    ];
    assert(discarding + (making + writing + opening) =~= discarding + making + writing + opening);
}

/// One step of the beginning of a restoration.
proof fn lemma_restore_step_actions(
    service: ServiceView,
    action: ActionView,
    task: RestoreTaskView,
    host: Host,
)
    requires
        host(action).kind() == task.awaits(),
    ensures
        restore_run((service, StepView::Do(action, task)), host).actions() == seq![action]
            + restore_run(service.resume_restore(task, host(action)), host).actions(),
{
    let next = restore_run(service.resume_restore(task, host(action)), host);
    assert(next.after(service, action).actions() =~= seq![action] + next.actions());
}

/// What is asked for once the restoration directory can be cleared.
proof fn lemma_clear_actions(
    service: ServiceView,
    manifest: ManifestView,
    recover: bool,
    host: Host,
)
    requires
        answers(host),
        service.init_error(manifest, recover, host) is None,
    ensures
        restore_run((service, service.clear_restoration(manifest, recover)), host).actions()
            == seq![
            ActionView::RemoveDirAll(service.restoration_dir()),
            ActionView::CreateDirAll(service.restoration_dir()),
        ] + (if recover {
            seq![ActionView::OpenWriter(service.temp_recovery_dir())]
        } else {
            nothing()
        }) + seq![
            ActionView::OpenDatabase(service.restoration_db()),
            ActionView::StartRebuild {
                genesis: service.genesis_block,
                pruning: service.pruning,
                manifest,
            },
        ],
{
    let dir = service.restoration_dir();
    let leftover = Some(dir);
    let removing = ActionView::RemoveDirAll(dir);
    let creating = ActionView::CreateDirAll(dir);
    let writing = ActionView::OpenWriter(service.temp_recovery_dir());
    let opening = ActionView::OpenDatabase(service.restoration_db());
    let rebuilding = ActionView::StartRebuild {
        genesis: service.genesis_block,
        pruning: service.pruning,
        manifest,
    };
    let begun = service.begun(manifest, recover, leftover);
    assert(Run::at_once(begun, Ok(())).actions() =~= nothing());
    lemma_restore_step_actions(
        service,
        rebuilding,
        RestoreTaskView::Rebuilding { manifest, writer: recover, leftover },
        host,
    );
    lemma_restore_step_actions(
        service,
        opening,
        RestoreTaskView::OpeningDatabase { manifest, writer: recover, leftover },
        host,
    );
    if recover {
        lemma_restore_step_actions(
            service,
            writing,
            RestoreTaskView::OpeningWriter { manifest },
            host,
        );
    }
    lemma_restore_step_actions(
        service,
        creating,
        RestoreTaskView::Creating { manifest, recover },
        host,
    );
    lemma_restore_step_actions(
        service,
        removing,
        RestoreTaskView::Removing { manifest, recover },
        host,
    );
}

/// A snapshot that becomes the current one has had the progress set back, what an earlier one left
/// removed, its writer opened, and has been written by the client and put in its place.
pub proof fn law_take_actions(service: ServiceView, num: u64, host: Host)
    requires
        answers(host),
        in_range(host, num),
        !service.swapping,
        !service.taking_snapshot,
        host(ActionView::TakeSnapshot(num)).error() is None,
        service.take_snapshot_run(num, host).result is Ok,
    ensures
        service.take_snapshot_run(num, host).actions() == seq![
            ActionView::ResetProgress,
            ActionView::RemoveDirAll(service.temp_snapshot_dir()),
            ActionView::OpenWriter(service.temp_snapshot_dir()),
            ActionView::TakeSnapshot(num),
        ] + placing_actions(service.temp_snapshot_dir(), service.snapshot_dir(), host),
{
    law_take_outcome(service, num, host);
    reveal_with_fuel(snapshot_run, 11);
}

/// One step of a feeding.
pub(crate) proof fn lemma_step_actions(
    service: ServiceView,
    action: ActionView,
    task: FeedTaskView,
    host: Host,
)
    requires
        service.feed_may_resume(task, host(action)),
    ensures
        feed_run((service, StepView::Do(action, task)), host).actions() == seq![action] + feed_run(
            service.resume_feed(task, host(action)),
            host,
        ).actions(),
{
    reveal(feed_next);
    let next = feed_run(service.resume_feed(task, host(action)), host);
    assert(next.after(service, action).actions() =~= seq![action] + next.actions());
}

proof fn lemma_return_actions(service: ServiceView, host: Host)
    ensures
        feed_run((service, StepView::Return(Ok(()))), host).actions() == nothing(),
{
    assert(Run::at_once(service, Ok(())).actions() =~= nothing());
}

proof fn lemma_place_actions(service: ServiceView, host: Host)
    requires
        answers(host),
        !service.swapping,
        placing_error(service.temp_recovery_dir(), service.snapshot_dir(), host) is None,
    ensures
        feed_run(
            (service, StepView::Do(ActionView::HoldReader, FeedTaskView::Holding)),
            host,
        ).actions() == placing_actions(service.temp_recovery_dir(), service.snapshot_dir(), host)
            + seq![ActionView::RemoveDirAll(service.restoration_dir())],
{
    let from = service.temp_recovery_dir();
    let to = service.snapshot_dir();
    let removing = ActionView::RemoveDirAll(service.restoration_dir());
    let renaming = ActionView::Rename { from, to };
    let reading = ActionView::OpenReader(to);
    let checking = ActionView::Exists(to);
    let closed = ServiceView { reader: None, swapping: true, ..service };
    let opened = closed.resume_feed(FeedTaskView::Reopening, host(reading)).0;
    let ended = opened.resume_feed(FeedTaskView::Ending, host(removing)).0;
    lemma_step_actions(service, ActionView::HoldReader, FeedTaskView::Holding, host);
    lemma_step_actions(closed, checking, FeedTaskView::Checking, host);
    if host(checking) == ReplyView::Flag(true) {
        lemma_step_actions(closed, ActionView::RemoveDirAll(to), FeedTaskView::Removing, host);
    }
    lemma_step_actions(closed, renaming, FeedTaskView::Renaming, host);
    lemma_step_actions(closed, reading, FeedTaskView::Reopening, host);
    lemma_step_actions(opened, removing, FeedTaskView::Ending, host);
    lemma_return_actions(ended, host);
    assert(feed_run((opened, StepView::Do(removing, FeedTaskView::Ending)), host).actions()
        =~= seq![removing]);
    assert(feed_run((closed, StepView::Do(renaming, FeedTaskView::Renaming)), host).actions()
        =~= seq![renaming, reading, removing]);
    assert(feed_run(
        (service, StepView::Do(ActionView::HoldReader, FeedTaskView::Holding)),
        host,
    ).actions() =~= placing_actions(from, to, host) + seq![removing]);
}

proof fn lemma_replace_actions(service: ServiceView, recover: bool, host: Host)
    requires
        answers(host),
        !service.swapping,
        service.replace_outcome(recover, host).1 is Ok,
    ensures
        feed_run((service, service.replace_db(recover)), host).actions()
            == service.replacing_actions(recover, host),
{
    let replacing = ActionView::ReplaceClientDb(service.restoration_db());
    let removing = ActionView::RemoveDirAll(service.restoration_dir());
    lemma_step_actions(service, replacing, FeedTaskView::Replacing { recover }, host);
    if recover {
        lemma_place_actions(service, host);
    } else {
        let ended = service.resume_feed(FeedTaskView::Ending, host(removing)).0;
        lemma_step_actions(service, removing, FeedTaskView::Ending, host);
        lemma_return_actions(ended, host);
    }
    assert(feed_run((service, service.replace_db(recover)), host).actions()
        =~= service.replacing_actions(recover, host));
}

proof fn lemma_finish_actions(service: ServiceView, rest: RestorationView, host: Host)
    requires
        answers(host),
        !service.swapping,
        rest.done(),
        service.finish_outcome(rest, host).1 is Ok,
    ensures
        feed_run((service, rest.finalize()), host).actions() == service.finishing_actions(
            rest,
            host,
        ),
{
    let blocks = FeedTaskView::FinalizingBlocks {
        manifest: rest.manifest,
        writer: rest.writer,
        leftover: rest.leftover,
    };
    let discarding = ActionView::Discard(None);
    lemma_step_actions(service, ActionView::StateRoot, FeedTaskView::CheckingRoot { rest }, host);
    lemma_step_actions(
        service,
        ActionView::CheckMissing,
        FeedTaskView::CheckingMissing { rest },
        host,
    );
    lemma_step_actions(service, ActionView::FinalizeBlocks(rest.canonical_hashes), blocks, host);
    if rest.writer {
        lemma_step_actions(
            service,
            ActionView::FinishWriter(rest.manifest),
            FeedTaskView::FinishingWriter { leftover: rest.leftover },
            host,
        );
    }
    lemma_step_actions(
        service,
        discarding,
        FeedTaskView::Closing { recover: rest.writer },
        host,
    );
    lemma_replace_actions(service, rest.writer, host);
    assert(feed_run((service, close(None, rest.writer)), host).actions() =~= seq![discarding]
        + service.replacing_actions(rest.writer, host));
    assert(feed_run((service, rest.finalize()), host).actions() =~= service.finishing_actions(
        rest,
        host,
    ));
}

proof fn lemma_count_actions(service: ServiceView, rest: RestorationView, is_state: bool, host: Host)
    requires
        answers(host),
        !service.swapping,
        service.restoration is None,
        host(ActionView::FlushDatabase).error() is None,
        rest.done() ==> service.with_counted(is_state).finish_outcome(rest, host).1 is Ok,
    ensures
        feed_run(service.count_chunk(rest, is_state), host).actions()
            == service.counting_actions(rest, host),
{
    let next = service.with_counted(is_state);
    if rest.done() {
        lemma_step_actions(
            next,
            ActionView::FlushDatabase,
            FeedTaskView::FlushingLast { rest },
            host,
        );
        lemma_finish_actions(next, rest, host);
    } else {
        let kept = ServiceView { restoration: Some(rest), held: false, ..next };
        lemma_step_actions(kept, ActionView::FlushDatabase, FeedTaskView::Flushing, host);
        lemma_return_actions(kept, host);
    }
}

/// What a feeding asks for that processes a chunk comes before what it asks for to count it.
proof fn lemma_process_actions(
    service: ServiceView,
    rest: RestorationView,
    hash: H256,
    chunk: Seq<u8>,
    is_state: bool,
    host: Host,
)
    requires
        answers(host),
        service.status is Ongoing,
        service.restoration == Some(rest),
        rest.wants(hash, is_state),
        ServiceView::processing_error(rest, hash, chunk, is_state, host) is None,
    ensures
        service.feed_chunk_run(hash, chunk, is_state, host).actions() == processing_actions(
            rest,
            hash,
            chunk,
            is_state,
            host,
        ) + feed_run(
            (ServiceView { restoration: None, held: true, ..service }).count_chunk(
                rest.without(hash, is_state),
                is_state,
            ),
            host,
        ).actions(),
{
    let left = rest.without(hash, is_state);
    let held = ServiceView { restoration: None, held: true, ..service };
    let decompressing = ActionView::Decompress(chunk);
    let data = host(decompressing)->Bytes_0->Ok_0;
    let feeding = if is_state {
        ActionView::FeedState(data)
    } else {
        ActionView::FeedBlocks(data)
    };
    let writing = if is_state {
        ActionView::WriteStateChunk(hash, chunk)
    } else {
        ActionView::WriteBlockChunk(hash, chunk)
    };
    lemma_step_actions(
        held,
        decompressing,
        FeedTaskView::Decompressing { rest: left, hash, chunk, is_state },
        host,
    );
    lemma_step_actions(
        held,
        feeding,
        FeedTaskView::Feeding { rest: left, hash, chunk, is_state },
        host,
    );
    let counting = feed_run(held.count_chunk(left, is_state), host).actions();
    if rest.writer {
        lemma_step_actions(held, writing, FeedTaskView::Writing { rest: left, is_state }, host);
        assert(seq![decompressing] + (seq![feeding] + (seq![writing] + counting)) =~= seq![
            decompressing,
            feeding,
        ] + seq![writing] + counting);
    } else {
        assert(seq![decompressing] + (seq![feeding] + counting) =~= seq![decompressing, feeding]
            + nothing() + counting);
    }
}

/// A chunk that is fed without an error has been processed, if it was wanted, and the database has
/// been flushed. If no other is left to be fed, the restoration has then been verified and let go,
/// and its results have been put in place: the client's database is replaced, the recovered
/// snapshot, if there is one, is the current one, and the restoration directory is removed.
pub proof fn law_feed_actions(
    service: ServiceView,
    hash: H256,
    chunk: Seq<u8>,
    is_state: bool,
    host: Host,
)
    requires
        answers(host),
        service.idle(),
        service.status is Ongoing,
        service.restoration is Some,
        service.feed_chunk_run(hash, chunk, is_state, host).result is Ok,
    ensures
        service.feed_chunk_run(hash, chunk, is_state, host).actions() == processing_actions(
            service.restoration->0,
            hash,
            chunk,
            is_state,
            host,
        ) + service.counting_actions(service.restoration->0.without(hash, is_state), host),
{
    law_feed_outcome(service, hash, chunk, is_state, host);
    let rest = service.restoration->0;
    let left = rest.without(hash, is_state);
    let held = ServiceView { restoration: None, held: true, ..service };
    lemma_count_actions(held, left, is_state, host);
    assert(held.counting_actions(left, host) == service.counting_actions(left, host));
    if rest.wants(hash, is_state) {
        lemma_process_actions(service, rest, hash, chunk, is_state, host);
    } else {
        assert(left =~= rest);
        assert(nothing() + held.counting_actions(left, host) =~= held.counting_actions(left, host));
    }
}

} // verus!
