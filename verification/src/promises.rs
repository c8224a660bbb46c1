//! What a user of the service may count on: what a refusal leads to, and when success is owed.

use vstd::prelude::*;

use crate::error::Error;
use crate::hash::H256;
use crate::host::{ActionView, ReplyView};
use crate::manifest::ManifestView;
use crate::path::PathView;
use crate::runs::{startup_run, Host};
use crate::scripts::{
    current_in, database_in, fits, in_progress_in, law_feeding_plays_its_script,
    law_init_plays_its_script, law_new_in_full, law_take_plays_its_script, played, proper,
    recovered_in, refusal, restoration_in, Operation, Played,
};
use crate::service::{ReaderView, ServiceView};
use crate::startup::{StartupStage, StartupView};
use crate::status::{Algorithm, RestorationStatus};

verus! {

// ---------------------------------------------------------------------------------------------
// Scripts that are played
// ---------------------------------------------------------------------------------------------

/// The first refusal is the last action that is played of a script.
pub(crate) proof fn lemma_played(operation: Operation, script: Seq<ActionView>)
    ensures
        ({
            let played = played(operation, script);
            &&& played.actions.len() <= script.len()
            &&& forall|i: int|
                0 <= i < played.actions.len() ==> {
                    &&& (#[trigger] played.actions[i]) == script[i]
                    &&& operation.refused(script[i]) is Some ==> {
                        &&& played.refused == Some(script[i])
                        &&& i == played.actions.len() - 1
                    }
                }
            &&& played.refused matches Some(action) ==> {
                &&& played.actions.len() > 0
                &&& played.actions.last() == action
                &&& operation.refused(action) is Some
            }
            &&& played.refused is None ==> played.actions == script
        }),
    decreases script.len(),
{
    if script.len() > 0 && operation.refused(script[0]) is None {
        let rest = script.drop_first();
        let after = played(operation, rest);
        lemma_played(operation, rest);
        let whole = played(operation, script);
        assert forall|i: int| 0 <= i < whole.actions.len() implies {
            &&& (#[trigger] whole.actions[i]) == script[i]
            &&& operation.refused(script[i]) is Some ==> {
                &&& whole.refused == Some(script[i])
                &&& i == whole.actions.len() - 1
            }
        } by {
            if i > 0 {
                assert(whole.actions[i] == after.actions[i - 1]);
                assert(rest[i - 1] == script[i]);
            }
        }
        if after.refused is None {
            assert(whole.actions =~= script);
        }
        if after.refused is Some {
            assert(whole.actions.last() == after.actions.last());
        }
    } else if script.len() == 0 {
        assert(played(operation, script).actions =~= script);
    }
}

/// A script of which nothing is refused is played to its end.
proof fn lemma_unrefused(operation: Operation, script: Seq<ActionView>)
    requires
        forall|i: int| 0 <= i < script.len() ==> operation.refused(#[trigger] script[i]) is None,
    ensures
        played(operation, script) == (Played { actions: script, refused: None }),
{
    lemma_played(operation, script);
    let played = played(operation, script);
    if played.refused is Some {
        let last = played.actions.len() - 1;
        assert(played.actions[last] == script[last]);
    }
}

// ---------------------------------------------------------------------------------------------
// What a refusal leads to
// ---------------------------------------------------------------------------------------------

/// A feeding that returns without an error has been refused nothing, but for the removal of the
/// restoration directory when all is done.
pub proof fn law_ok_feeding_was_refused_nothing(
    service: ServiceView,
    hash: H256,
    chunk: Seq<u8>,
    is_state: bool,
    host: Host,
)
    requires
        proper(host),
        !service.held,
        !service.swapping,
        service.feed_chunk_run(hash, chunk, is_state, host).result is Ok,
    ensures
        ({
            let trace = service.feed_chunk_run(hash, chunk, is_state, host).trace;
            forall|i: int|
                0 <= i < trace.len() ==> refusal(host((#[trigger] trace[i]).action)) is None
                    || trace[i].action == ActionView::RemoveDirAll(restoration_in(service.root))
        }),
{
    let run = service.feed_chunk_run(hash, chunk, is_state, host);
    law_feeding_plays_its_script(service, hash, chunk, is_state, host);
    if service.status is Ongoing && service.restoration is Some {
        let operation = Operation::Feed { service, hash, chunk, is_state, host };
        let script = operation.script();
        let played = played(operation, script);
        lemma_played(operation, script);
        assert forall|i: int| 0 <= i < run.trace.len() implies refusal(
            host((#[trigger] run.trace[i]).action),
        ) is None || run.trace[i].action == ActionView::RemoveDirAll(
            restoration_in(service.root),
        ) by {
            assert(run.actions()[i] == run.trace[i].action);
            assert(run.actions().len() == run.trace.len());
            assert(run.actions() =~= played.actions);
            assert(played.actions[i] == script[i]);
        }
    }
}

/// Whatever action of a feeding is refused, but for the removal of the restoration directory: the
/// feeding ends in that error, there is no restoration any more, and the status is failed.
pub proof fn law_refused_feeding_fails(
    service: ServiceView,
    hash: H256,
    chunk: Seq<u8>,
    is_state: bool,
    host: Host,
    i: int,
    error: Error,
)
    requires
        proper(host),
        !service.held,
        !service.swapping,
        ({
            let trace = service.feed_chunk_run(hash, chunk, is_state, host).trace;
            &&& 0 <= i < trace.len()
            &&& refusal(host(trace[i].action)) == Some(error)
            &&& trace[i].action != ActionView::RemoveDirAll(restoration_in(service.root))
        }),
    ensures
        ({
            let run = service.feed_chunk_run(hash, chunk, is_state, host);
            &&& run.result == Err::<(), Error>(error)
            &&& run.service.status == RestorationStatus::Failed
            &&& run.service.restoration is None
            &&& run.trace.last().action == ActionView::RemoveDirAll(restoration_in(service.root))
        }),
{
    let run = service.feed_chunk_run(hash, chunk, is_state, host);
    law_feeding_plays_its_script(service, hash, chunk, is_state, host);
    if service.status is Ongoing && service.restoration is Some {
        let operation = Operation::Feed { service, hash, chunk, is_state, host };
        let played = played(operation, operation.script());
        lemma_played(operation, operation.script());
        assert(run.actions().len() == run.trace.len());
        assert(run.actions()[i] == run.trace[i].action);
        let n = played.actions.len();
        if i >= n {
            let cleanup = operation.cleanup(played.refused->0);
            assert(run.actions()[i] == cleanup[i - n]);
            assert(fits(
                ActionView::Discard(operation.fed().rest.leftover),
                host(ActionView::Discard(operation.fed().rest.leftover)),
            ));
        } else {
            assert(played.actions[i] == run.actions()[i]);
            assert(fits(ActionView::StateRoot, host(ActionView::StateRoot)));
            let cleanup = operation.cleanup(played.refused->0);
            assert(run.actions().last() == cleanup.last());
            assert(run.actions().last() == run.trace.last().action);
        }
    }
}

/// A feeding whose request to replace the client's database is refused ends in that error, whether or
/// not a snapshot is recovered.
pub proof fn law_unreplaced_database_fails_restoration(
    service: ServiceView,
    hash: H256,
    chunk: Seq<u8>,
    is_state: bool,
    host: Host,
    i: int,
    error: Error,
)
    requires
        proper(host),
        !service.held,
        !service.swapping,
        ({
            let trace = service.feed_chunk_run(hash, chunk, is_state, host).trace;
            0 <= i < trace.len() && trace[i].action is ReplaceClientDb && host(trace[i].action)
                == ReplyView::Done(Err(error))
        }),
    ensures
        ({
            let run = service.feed_chunk_run(hash, chunk, is_state, host);
            &&& run.trace[i].action == ActionView::ReplaceClientDb(database_in(service.root))
            &&& run.result == Err::<(), Error>(error)
            &&& run.service.status == RestorationStatus::Failed
            &&& run.service.restoration is None
            &&& run.service.reader == service.reader
        }),
{
    let run = service.feed_chunk_run(hash, chunk, is_state, host);
    law_refused_feeding_fails(service, hash, chunk, is_state, host, i, error);
    law_feeding_plays_its_script(service, hash, chunk, is_state, host);
    let operation = Operation::Feed { service, hash, chunk, is_state, host };
    let played = played(operation, operation.script());
    lemma_played(operation, operation.script());
    assert(run.actions()[i] == run.trace[i].action);
    assert(run.actions().len() == run.trace.len());
    let n = played.actions.len();
    if i >= n {
        assert(run.actions()[i] == operation.cleanup(played.refused->0)[i - n]);
    } else {
        assert(played.actions[i] == run.actions()[i]);
        assert(operation.script()[i] is ReplaceClientDb);
    }
}

/// A chunk that cannot be decompressed fails the restoration with that error: it is fed to no
/// rebuilder, and not counted.
pub proof fn law_broken_chunk_fails_restoration(
    service: ServiceView,
    hash: H256,
    chunk: Seq<u8>,
    is_state: bool,
    host: Host,
    error: Error,
)
    requires
        proper(host),
        !service.held,
        !service.swapping,
        service.status is Ongoing,
        service.restoration is Some,
        is_state ==> service.restoration->0.state_chunks_left.contains(hash),
        !is_state ==> service.restoration->0.block_chunks_left.contains(hash),
        host(ActionView::Decompress(chunk)) == ReplyView::Bytes(Err(error)),
    ensures
        ({
            let run = service.feed_chunk_run(hash, chunk, is_state, host);
            &&& run.result == Err::<(), Error>(error)
            &&& run.service.status == RestorationStatus::Failed
            &&& run.service.restoration is None
            &&& run.service.state_chunks == service.state_chunks
            &&& run.service.block_chunks == service.block_chunks
            &&& run.actions() == seq![
                ActionView::Decompress(chunk),
                ActionView::Discard(service.restoration->0.leftover),
                ActionView::RemoveDirAll(restoration_in(service.root)),
            ]
        }),
{
    law_feeding_plays_its_script(service, hash, chunk, is_state, host);
    let operation = Operation::Feed { service, hash, chunk, is_state, host };
    assert(operation.script()[0] == ActionView::Decompress(chunk));
    reveal_with_fuel(played, 2);
    let run = service.feed_chunk_run(hash, chunk, is_state, host);
    assert(run.actions() =~= seq![
        ActionView::Decompress(chunk),
        ActionView::Discard(service.restoration->0.leftover),
        ActionView::RemoveDirAll(restoration_in(service.root)),
    ]);
}

/// A chunk that its rebuilder refuses fails the restoration with the rebuilder's error, whether or not
/// a snapshot is recovered: it is neither written nor counted, and nothing is flushed.
pub proof fn law_refused_chunk_fails_restoration(
    service: ServiceView,
    hash: H256,
    chunk: Seq<u8>,
    is_state: bool,
    data: Seq<u8>,
    host: Host,
    error: Error,
)
    requires
        proper(host),
        !service.held,
        !service.swapping,
        service.status is Ongoing,
        service.restoration is Some,
        is_state ==> service.restoration->0.state_chunks_left.contains(hash),
        !is_state ==> service.restoration->0.block_chunks_left.contains(hash),
        host(ActionView::Decompress(chunk)) == ReplyView::Bytes(Ok(data)),
        is_state ==> host(ActionView::FeedState(data)) == ReplyView::Done(Err(error)),
        !is_state ==> host(ActionView::FeedBlocks(data)) == ReplyView::Done(Err(error)),
    ensures
        ({
            let run = service.feed_chunk_run(hash, chunk, is_state, host);
            &&& run.result == Err::<(), Error>(error)
            &&& run.service.status == RestorationStatus::Failed
            &&& run.service.restoration is None
            &&& run.service.state_chunks == service.state_chunks
            &&& run.service.block_chunks == service.block_chunks
            &&& run.actions() == seq![
                ActionView::Decompress(chunk),
                if is_state {
                    ActionView::FeedState(data)
                } else {
                    ActionView::FeedBlocks(data)
                },
                ActionView::Discard(service.restoration->0.leftover),
                ActionView::RemoveDirAll(restoration_in(service.root)),
            ]
        }),
{
    law_feeding_plays_its_script(service, hash, chunk, is_state, host);
    let operation = Operation::Feed { service, hash, chunk, is_state, host };
    let feeding = if is_state {
        ActionView::FeedState(data)
    } else {
        ActionView::FeedBlocks(data)
    };
    let script = operation.script();
    assert(script[0] == ActionView::Decompress(chunk));
    assert(script[1] == feeding);
    assert(script.drop_first()[0] == feeding);
    reveal_with_fuel(played, 3);
    let run = service.feed_chunk_run(hash, chunk, is_state, host);
    assert(run.actions() =~= seq![
        ActionView::Decompress(chunk),
        feeding,
        ActionView::Discard(service.restoration->0.leftover),
        ActionView::RemoveDirAll(restoration_in(service.root)),
    ]);
}

/// A beginning or a snapshot that returns without an error has been refused nothing that matters: a
/// beginning nothing but the removal of a directory that is not there; a snapshot nothing but the
/// removal of what an earlier one left, unless the client failed to write it.
#[verifier::rlimit(40)]
pub proof fn law_ok_means_nothing_refused(
    service: ServiceView,
    manifest: ManifestView,
    recover: bool,
    num: u64,
    host: Host,
)
    requires
        proper(host),
        !service.held,
        !service.swapping,
        num + host(ActionView::ChainInfo)->pruning_history <= u64::MAX,
    ensures
        ({
            let run = service.init_restore_run(manifest, recover, host);
            run.result is Ok ==> forall|i: int|
                0 <= i < run.trace.len() ==> refusal(host((#[trigger] run.trace[i]).action)) is None
                    || run.trace[i].action == ActionView::RemoveDirAll(
                    restoration_in(service.root),
                )
        }),
        ({
            let run = service.take_snapshot_run(num, host);
            run.result is Ok && refusal(host(ActionView::TakeSnapshot(num))) is None ==> forall|
                i: int,
            |
                0 <= i < run.trace.len() ==> refusal(host((#[trigger] run.trace[i]).action)) is None
                    || run.trace[i].action == ActionView::RemoveDirAll(
                    in_progress_in(service.root),
                )
        }),
{
    law_init_plays_its_script(service, manifest, recover, host);
    law_take_plays_its_script(service, num, host);
    let run = service.init_restore_run(manifest, recover, host);
    if run.result is Ok {
        let operation = Operation::Init { service, manifest, recover, host };
        let played = played(operation, operation.script());
        lemma_played(operation, operation.script());
        assert forall|i: int| 0 <= i < run.trace.len() implies refusal(
            host((#[trigger] run.trace[i]).action),
        ) is None || run.trace[i].action == ActionView::RemoveDirAll(
            restoration_in(service.root),
        ) by {
            assert(run.actions()[i] == run.trace[i].action);
            assert(run.actions() =~= played.actions);
            assert(played.actions[i] == operation.script()[i]);
        }
    }
    let run = service.take_snapshot_run(num, host);
    if run.result is Ok && refusal(host(ActionView::TakeSnapshot(num))) is None
        && !service.taking_snapshot {
        let operation = Operation::Take { service, num, host };
        let played = played(operation, operation.script());
        lemma_played(operation, operation.script());
        assert forall|i: int| 0 <= i < run.trace.len() implies refusal(
            host((#[trigger] run.trace[i]).action),
        ) is None || run.trace[i].action == ActionView::RemoveDirAll(
            in_progress_in(service.root),
        ) by {
            assert(run.actions()[i] == run.trace[i].action);
            if played.refused is Some {
                let last = played.actions.len() - 1;
                assert(played.actions[last] == operation.script()[last]);
            }
            assert(run.actions() =~= played.actions);
            assert(played.actions[i] == operation.script()[i]);
        }
    }
}

// ---------------------------------------------------------------------------------------------
// When success is owed
// ---------------------------------------------------------------------------------------------

/// A snapshot of which nothing is refused is taken, and becomes the current one: its manifest is the
/// one that was found where it was put.
pub proof fn law_unrefused_snapshot_succeeds(
    service: ServiceView,
    num: u64,
    manifest: ManifestView,
    host: Host,
)
    requires
        proper(host),
        !service.swapping,
        !service.taking_snapshot,
        num + host(ActionView::ChainInfo)->pruning_history <= u64::MAX,
        ({
            let temp = in_progress_in(service.root);
            let current = current_in(service.root);
            &&& host(ActionView::OpenWriter(temp)) == ReplyView::Done(Ok(()))
            &&& host(ActionView::TakeSnapshot(num)) == ReplyView::Done(Ok(()))
            &&& host(ActionView::Exists(current)) == ReplyView::Flag(true) ==> host(
                ActionView::RemoveDirAll(current),
            ) == ReplyView::Io(Ok(()))
            &&& host(ActionView::Rename { from: temp, to: current }) == ReplyView::Io(Ok(()))
            &&& host(ActionView::OpenReader(current)) == ReplyView::Reader(Ok(manifest))
        }),
    ensures
        ({
            let run = service.take_snapshot_run(num, host);
            &&& run.result == Ok::<(), Error>(())
            &&& run.service.reader == Some(
                ReaderView { dir: current_in(service.root), manifest },
            )
            &&& run.service.manifest() == Some(manifest)
            &&& !run.service.taking_snapshot
            &&& run.service.restoration == service.restoration
            &&& run.service.status == service.status
        }),
{
    law_take_plays_its_script(service, num, host);
    let operation = Operation::Take { service, num, host };
    let script = operation.script();
    assert forall|i: int| 0 <= i < script.len() implies operation.refused(
        #[trigger] script[i],
    ) is None by {
        assert(fits(script[i], host(script[i])));
    }
    lemma_unrefused(operation, script);
}

/// A restoration of which nothing is refused begins.
pub proof fn law_unrefused_restoration_begins(
    service: ServiceView,
    manifest: ManifestView,
    recover: bool,
    host: Host,
)
    requires
        proper(host),
        !service.held,
        !service.swapping,
        ({
            let dir = restoration_in(service.root);
            &&& refusal(host(ActionView::RemoveDirAll(dir))) is None
            &&& host(ActionView::CreateDirAll(dir)) == ReplyView::Io(Ok(()))
            &&& recover ==> host(ActionView::OpenWriter(recovered_in(service.root)))
                == ReplyView::Done(Ok(()))
            &&& host(ActionView::OpenDatabase(database_in(service.root))) == ReplyView::Database(
                Ok(()),
            )
            &&& host(
                ActionView::StartRebuild {
                    genesis: service.genesis_block,
                    pruning: service.pruning,
                    manifest,
                },
            ) == ReplyView::Done(Ok(()))
        }),
    ensures
        ({
            let run = service.init_restore_run(manifest, recover, host);
            &&& run.result == Ok::<(), Error>(())
            &&& run.service.status == (RestorationStatus::Ongoing {
                state_chunks: manifest.state_hashes.len() as u32,
                block_chunks: manifest.block_hashes.len() as u32,
                state_chunks_done: 0,
                block_chunks_done: 0,
            })
            &&& run.service.restoration matches Some(rest) && {
                &&& rest.manifest == manifest
                &&& rest.writer == recover
                &&& rest.final_state_root == manifest.state_root
                &&& rest.leftover == Some(restoration_in(service.root))
                &&& rest.canonical_hashes == Map::<u64, H256>::empty()
                &&& forall|hash: H256| #[trigger]
                    rest.state_chunks_left.contains(hash) <==> manifest.state_hashes.contains(hash)
                &&& forall|hash: H256| #[trigger]
                    rest.block_chunks_left.contains(hash) <==> manifest.block_hashes.contains(hash)
            }
        }),
{
    law_init_plays_its_script(service, manifest, recover, host);
    let operation = Operation::Init { service, manifest, recover, host };
    let script = operation.script();
    assert forall|i: int| 0 <= i < script.len() implies operation.refused(
        #[trigger] script[i],
    ) is None by {
        assert(fits(script[i], host(script[i])));
    }
    lemma_unrefused(operation, script);
}

/// A feeding of which nothing is refused, and which finds the state root that the restoration is to
/// have, returns without an error. If it fed the last chunk the restoration is over, and what was
/// recovered is the current snapshot; otherwise the restoration goes on without the chunk.
pub proof fn law_unrefused_feeding_succeeds(
    service: ServiceView,
    hash: H256,
    chunk: Seq<u8>,
    is_state: bool,
    host: Host,
)
    requires
        proper(host),
        !service.held,
        !service.swapping,
        service.status is Ongoing,
        service.restoration is Some,
        forall|action: ActionView|
            action == ActionView::RemoveDirAll(restoration_in(service.root)) || refusal(
                #[trigger] host(action),
            ) is None,
        host(ActionView::StateRoot) == ReplyView::Root(service.restoration->0.final_state_root),
    ensures
        ({
            let run = service.feed_chunk_run(hash, chunk, is_state, host);
            let rest = service.restoration->0;
            let states = if is_state {
                rest.state_chunks_left.remove(hash)
            } else {
                rest.state_chunks_left
            };
            let blocks = if is_state {
                rest.block_chunks_left
            } else {
                rest.block_chunks_left.remove(hash)
            };
            &&& run.result == Ok::<(), Error>(())
            &&& if states == Set::<H256>::empty() && blocks == Set::<H256>::empty() {
                &&& run.service.restoration is None
                &&& run.service.status == RestorationStatus::Inactive
                &&& !rest.writer ==> run.service.reader == service.reader
                &&& rest.writer ==> (run.service.reader matches Some(reader) && {
                    &&& reader.dir == current_in(service.root)
                    &&& host(ActionView::OpenReader(reader.dir)) == ReplyView::Reader(
                        Ok(reader.manifest),
                    )
                })
            } else {
                &&& run.service.status == service.status
                &&& run.service.reader == service.reader
                &&& run.service.restoration matches Some(left) && {
                    &&& left.state_chunks_left == states
                    &&& left.block_chunks_left == blocks
                    &&& left.manifest == rest.manifest
                    &&& left.writer == rest.writer
                    &&& left.final_state_root == rest.final_state_root
                    &&& left.leftover == rest.leftover
                    &&& left.canonical_hashes == rest.canonical_hashes
                }
            }
        }),
{
    law_feeding_plays_its_script(service, hash, chunk, is_state, host);
    let operation = Operation::Feed { service, hash, chunk, is_state, host };
    let script = operation.script();
    assert forall|i: int| 0 <= i < script.len() implies operation.refused(
        #[trigger] script[i],
    ) is None by {
        assert(fits(script[i], host(script[i])));
    }
    lemma_unrefused(operation, script);
    let reading = ActionView::OpenReader(current_in(service.root));
    assert(fits(reading, host(reading)));
    assert(refusal(host(reading)) is None);
}

// ---------------------------------------------------------------------------------------------
// From the creation of a service on
// ---------------------------------------------------------------------------------------------

/// A service keeps the genesis block, the pruning and the root that it was created with, and its
/// restorations are set up with them.
pub proof fn law_restoration_has_the_parameters(
    genesis_block: Seq<u8>,
    pruning: Algorithm,
    root: PathView,
    host: Host,
    manifest: ManifestView,
    recover: bool,
    restorer: Host,
)
    requires
        proper(host),
        proper(restorer),
        startup_run(
            StartupView::at(
                StartupStage::CreatingRoot,
                ServiceView::fresh(genesis_block, pruning, root),
            ),
            host,
        ).0 is Ok,
    ensures
        ({
            let service = startup_run(
                StartupView::at(
                    StartupStage::CreatingRoot,
                    ServiceView::fresh(genesis_block, pruning, root),
                ),
                host,
            ).0->Ok_0;
            let run = service.init_restore_run(manifest, recover, restorer);
            &&& service.genesis_block == genesis_block
            &&& service.pruning == pruning
            &&& service.root == root
            &&& run.service.genesis_block == genesis_block
            &&& run.service.pruning == pruning
            &&& run.service.root == root
            &&& run.result is Ok ==> run.actions().last() == (ActionView::StartRebuild {
                genesis: genesis_block,
                pruning,
                manifest,
            })
        }),
{
    law_new_in_full(genesis_block, pruning, root, host);
    let service = startup_run(
        StartupView::at(
            StartupStage::CreatingRoot,
            ServiceView::fresh(genesis_block, pruning, root),
        ),
        host,
    ).0->Ok_0;
    law_init_plays_its_script(service, manifest, recover, restorer);
    let operation = Operation::Init { service, manifest, recover, host: restorer };
    lemma_played(operation, operation.script());
    let run = service.init_restore_run(manifest, recover, restorer);
    if run.result is Ok {
        assert(run.actions() =~= operation.script());
    }
}

/// A service that comes into being serves the snapshot that was found in its root, as it was found;
/// and none, if none could be opened there.
pub proof fn law_new_service_serves_what_was_found(
    genesis_block: Seq<u8>,
    pruning: Algorithm,
    root: PathView,
    host: Host,
    hash: H256,
)
    requires
        proper(host),
        startup_run(
            StartupView::at(
                StartupStage::CreatingRoot,
                ServiceView::fresh(genesis_block, pruning, root),
            ),
            host,
        ).0 is Ok,
    ensures
        ({
            let service = startup_run(
                StartupView::at(
                    StartupStage::CreatingRoot,
                    ServiceView::fresh(genesis_block, pruning, root),
                ),
                host,
            ).0->Ok_0;
            match host(ActionView::OpenReader(current_in(root))) {
                ReplyView::Reader(Ok(manifest)) => {
                    &&& service.manifest() == Some(manifest)
                    &&& service.chunk(hash) matches Some(read) && read.dir == current_in(root)
                        && read.hash == hash
                },
                _ => service.manifest() is None && service.chunk(hash) is None,
            }
        }),
{
    law_new_in_full(genesis_block, pruning, root, host);
}

} // verus!
