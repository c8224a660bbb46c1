//! Each operation in full: what it asks for, returns and leaves, by the first of its actions that the
//! host refuses.

use vstd::prelude::*;

use crate::error::{Error, IoErrorKind};
use crate::hash::H256;
use crate::host::{ActionView, ReplyView};
use crate::manifest::ManifestView;
use crate::path::PathView;
use crate::promises::lemma_played;
use crate::restoration::RestorationView;
use crate::runs::{startup_run, Asked, Host};
use crate::scripts::{
    current_in, database_in, dir_in, fits, in_progress_in, law_feeding_plays_its_script,
    law_init_plays_its_script, law_new_in_full, law_take_plays_its_script, none, one_more, only_if,
    played, proper, recovered_in, refusal, restoration_in, Fed, Operation, Played,
};
use crate::service::{ReaderView, ServiceView};
use crate::startup::{StartupStage, StartupView};
use crate::status::{Algorithm, RestorationStatus};

verus! {

/// What the words of these laws mean: a refusal is the error in a reply, that of the file system
/// wrapped, and that of the database as a message; a directory in another has one more name; and a
/// count that is at its end goes back to zero.
pub proof fn law_words(reply: ReplyView, dir: PathView, name: Seq<char>, count: usize)
    ensures
        reply matches ReplyView::Io(Ok(())) ==> refusal(reply) is None,
        reply matches ReplyView::Io(Err(e)) ==> refusal(reply) == Some(Error::StdIo(e)),
        reply matches ReplyView::Done(Ok(())) ==> refusal(reply) is None,
        reply matches ReplyView::Done(Err(e)) ==> refusal(reply) == Some(e),
        reply matches ReplyView::Database(Ok(())) ==> refusal(reply) is None,
        reply matches ReplyView::Database(Err(m)) ==> refusal(reply) == Some(Error::Util(m)),
        reply matches ReplyView::Bytes(Ok(_)) ==> refusal(reply) is None,
        reply matches ReplyView::Bytes(Err(e)) ==> refusal(reply) == Some(e),
        reply matches ReplyView::Reader(Ok(_)) ==> refusal(reply) is None,
        reply matches ReplyView::Reader(Err(e)) ==> refusal(reply) == Some(e),
        reply is Unit || reply is Flag || reply is Root || reply is Chain ==> refusal(reply)
            is None,
        dir_in(dir, name).root == dir.root,
        dir_in(dir, name).separator == dir.separator,
        dir_in(dir, name).names == dir.names.push(name),
        current_in(dir) == dir_in(dir, "current"@),
        in_progress_in(dir) == dir_in(dir, "in_progress"@),
        restoration_in(dir) == dir_in(dir, "restoration"@),
        database_in(dir) == dir_in(dir_in(dir, "restoration"@), "db"@),
        recovered_in(dir) == dir_in(dir_in(dir, "restoration"@), "temp"@),
        count < usize::MAX ==> one_more(count) == count + 1,
        one_more(usize::MAX) == 0,
        none() == Seq::<ActionView>::empty(),
        only_if(true, seq![ActionView::StateRoot]) == seq![ActionView::StateRoot],
        only_if(false, seq![ActionView::StateRoot]) == Seq::<ActionView>::empty(),
{
}

/// A script of which the action at `i` is the first that is refused, as far as it is played.
proof fn lemma_played_to(operation: Operation, script: Seq<ActionView>, i: int)
    requires
        0 <= i <= script.len(),
        forall|j: int| 0 <= j < i ==> operation.refused(#[trigger] script[j]) is None,
        i < script.len() ==> operation.refused(script[i]) is Some,
    ensures
        i < script.len() ==> played(operation, script) == (Played {
            actions: script.take(i + 1),
            refused: Some(script[i]),
        }),
        i == script.len() ==> played(operation, script) == (Played {
            actions: script,
            refused: None,
        }),
{
    lemma_played(operation, script);
    let played = played(operation, script);
    if played.refused is Some {
        let last = played.actions.len() - 1;
        assert(played.actions[last] == script[last]);
        if i < last {
            assert(played.actions[i] == script[i]);
        }
        assert(i == last);
        assert(played.actions =~= script.take(i + 1));
    } else if i < script.len() {
        assert(played.actions[i] == script[i]);
    }
}

/// `init_restore`: it asks for the actions of its script up to the first that is refused. The removal
/// of a directory that is not there counts as done. If none is refused the restoration has begun.
/// Otherwise what was refused is the error, there is no restoration, and the guarded directory goes if
/// it was there already.
pub proof fn law_beginning_in_full(
    service: ServiceView,
    manifest: ManifestView,
    recover: bool,
    host: Host,
    script: Seq<ActionView>,
    i: int,
)
    requires
        proper(host),
        !service.held,
        !service.swapping,
        script == only_if(
            service.restoration is Some,
            seq![ActionView::Discard(service.restoration->0.leftover)],
        ) + seq![
            ActionView::RemoveDirAll(restoration_in(service.root)),
            ActionView::CreateDirAll(restoration_in(service.root)),
        ] + only_if(recover, seq![ActionView::OpenWriter(recovered_in(service.root))]) + seq![
            ActionView::OpenDatabase(database_in(service.root)),
            ActionView::StartRebuild {
                genesis: service.genesis_block,
                pruning: service.pruning,
                manifest,
            },
        ],
        0 <= i <= script.len(),
        forall|j: int|
            0 <= j < i ==> match host(#[trigger] script[j]) {
                ReplyView::Io(Err(e)) => script[j] is RemoveDirAll && e.kind
                    == IoErrorKind::NotFound,
                reply => refusal(reply) is None,
            },
        i < script.len() ==> match host(script[i]) {
            ReplyView::Io(Err(e)) => script[i] is RemoveDirAll ==> e.kind != IoErrorKind::NotFound,
            reply => refusal(reply) is Some,
        },
    ensures
        ({
            let run = service.init_restore_run(manifest, recover, host);
            if i == script.len() {
                &&& run.actions() == script
                &&& run.result == Ok::<(), Error>(())
                &&& run.service == (ServiceView {
                    restoration: Some(
                        RestorationView {
                            manifest,
                            state_chunks_left: manifest.state_hashes.to_set(),
                            block_chunks_left: manifest.block_hashes.to_set(),
                            writer: recover,
                            final_state_root: manifest.state_root,
                            leftover: Some(restoration_in(service.root)),
                            canonical_hashes: Map::empty(),
                        },
                    ),
                    status: RestorationStatus::Ongoing {
                        state_chunks: manifest.state_hashes.len() as u32,
                        block_chunks: manifest.block_hashes.len() as u32,
                        state_chunks_done: 0,
                        block_chunks_done: 0,
                    },
                    state_chunks: 0,
                    block_chunks: 0,
                    restoring_snapshot: true,
                    ..service
                })
            } else {
                &&& run.actions() == script.take(i + 1) + only_if(
                    script[i] is OpenDatabase || script[i] is StartRebuild,
                    seq![ActionView::Discard(Some(restoration_in(service.root)))],
                )
                &&& run.result == Err::<(), Error>(refusal(host(script[i]))->0)
                &&& run.service == (ServiceView {
                    restoration: None,
                    state_chunks: 0,
                    block_chunks: 0,
                    ..service
                })
            }
        }),
{
    law_init_plays_its_script(service, manifest, recover, host);
    let operation = Operation::Init { service, manifest, recover, host };
    assert(script =~= operation.script());
    lemma_played_to(operation, script, i);
    let run = service.init_restore_run(manifest, recover, host);
    assert(i == script.len() ==> run.actions() =~= script);
}

/// `take_snapshot`, while no other is being taken: it asks for the actions of its script up to the
/// first that is refused. Whatever an earlier snapshot left may fail to go. If none is refused the
/// snapshot is the current one. If the client fails to write it, that is no error if the chain has left
/// the block behind. Otherwise what was refused is the error; and the unfinished snapshot goes, unless
/// its writer could not be opened, in which case the service stays at taking it.
pub proof fn law_snapshot_in_full(
    service: ServiceView,
    num: u64,
    host: Host,
    script: Seq<ActionView>,
    i: int,
)
    requires
        proper(host),
        num + host(ActionView::ChainInfo)->pruning_history <= u64::MAX,
        !service.swapping,
        !service.taking_snapshot,
        ({
            let temp = in_progress_in(service.root);
            let current = current_in(service.root);
            &&& script == seq![
                ActionView::ResetProgress,
                ActionView::RemoveDirAll(temp),
                ActionView::OpenWriter(temp),
                ActionView::TakeSnapshot(num),
                ActionView::HoldReader,
                ActionView::Exists(current),
            ] + only_if(
                host(ActionView::Exists(current)) == ReplyView::Flag(true),
                seq![ActionView::RemoveDirAll(current)],
            ) + seq![
                ActionView::Rename { from: temp, to: current },
                ActionView::OpenReader(current),
            ]
            &&& 0 <= i <= script.len()
            &&& forall|j: int|
                0 <= j < i ==> refusal(host(#[trigger] script[j])) is None || script[j]
                    == ActionView::RemoveDirAll(temp)
            &&& i < script.len() ==> refusal(host(script[i])) is Some && script[i]
                != ActionView::RemoveDirAll(temp)
        }),
    ensures
        ({
            let run = service.take_snapshot_run(num, host);
            if i == script.len() {
                &&& run.actions() == script
                &&& run.result == Ok::<(), Error>(())
                &&& host(ActionView::OpenReader(current_in(service.root))) matches ReplyView::Reader(
                    Ok(manifest),
                ) && run.service == (ServiceView {
                    reader: Some(ReaderView { dir: current_in(service.root), manifest }),
                    ..service
                })
            } else {
                let late = host(ActionView::ChainInfo)->best_block_number >= num + host(
                    ActionView::ChainInfo,
                )->pruning_history;
                &&& run.actions() == script.take(i + 1) + only_if(
                    script[i] is TakeSnapshot,
                    seq![ActionView::ChainInfo],
                ) + only_if(
                    script[i] !is OpenWriter,
                    seq![ActionView::RemoveDirAll(in_progress_in(service.root))],
                )
                &&& run.result == if script[i] is TakeSnapshot && late {
                    Ok::<(), Error>(())
                } else {
                    Err::<(), Error>(refusal(host(script[i]))->0)
                }
                &&& run.service == (ServiceView {
                    taking_snapshot: script[i] is OpenWriter,
                    reader: if script[i] is OpenWriter || script[i] is TakeSnapshot {
                        service.reader
                    } else {
                        None
                    },
                    ..service
                })
            }
        }),
{
    law_take_plays_its_script(service, num, host);
    let operation = Operation::Take { service, num, host };
    assert(script =~= operation.script());
    lemma_played_to(operation, script, i);
    let run = service.take_snapshot_run(num, host);
    assert(fits(ActionView::ChainInfo, host(ActionView::ChainInfo)));
    let reading = ActionView::OpenReader(current_in(service.root));
    assert(fits(reading, host(reading)));
    assert(script.last() == reading);
    if i < script.len() {
        assert(fits(script[i], host(script[i])));
        assert(run.actions() =~= script.take(i + 1) + only_if(
            script[i] is TakeSnapshot,
            seq![ActionView::ChainInfo],
        ) + only_if(
            script[i] !is OpenWriter,
            seq![ActionView::RemoveDirAll(in_progress_in(service.root))],
        ));
    } else {
        assert(run.actions() =~= script);
        assert(script[script.len() - 1] == reading);
    }
}

/// `take_snapshot` while another is being taken, and a feeding while no restoration goes on: nothing is
/// asked for, nothing changes, and there is no error.
pub proof fn law_nothing_to_do(
    service: ServiceView,
    hash: H256,
    chunk: Seq<u8>,
    is_state: bool,
    num: u64,
    host: Host,
)
    requires
        proper(host),
        num + host(ActionView::ChainInfo)->pruning_history <= u64::MAX,
        !service.held,
        !service.swapping,
    ensures
        service.taking_snapshot ==> ({
            let run = service.take_snapshot_run(num, host);
            &&& run.trace == Seq::<Asked>::empty()
            &&& run.result == Ok::<(), Error>(())
            &&& run.service == service
        }),
        service.status !is Ongoing || service.restoration is None ==> ({
            let run = service.feed_chunk_run(hash, chunk, is_state, host);
            &&& run.trace == Seq::<Asked>::empty()
            &&& run.result == Ok::<(), Error>(())
            &&& run.service == service
        }),
{
    law_take_plays_its_script(service, num, host);
    law_feeding_plays_its_script(service, hash, chunk, is_state, host);
}

/// The last chunk is the one after which none is left.
proof fn lemma_last(fed: Fed)
    ensures
        fed.last() <==> (forall|h: H256|
            #[trigger]
            fed.rest.state_chunks_left.contains(h) ==> fed.is_state && h == fed.hash) && (forall|
            h: H256,
        |
            #[trigger]
            fed.rest.block_chunks_left.contains(h) ==> !fed.is_state && h == fed.hash),
{
    if fed.last() {
        assert forall|h: H256| #[trigger]
            fed.rest.state_chunks_left.contains(h) implies fed.is_state && h == fed.hash by {
            assert(!fed.states().contains(h));
        }
        assert forall|h: H256| #[trigger]
            fed.rest.block_chunks_left.contains(h) implies !fed.is_state && h == fed.hash by {
            assert(!fed.blocks().contains(h));
        }
    } else if (forall|h: H256|
        #[trigger]
        fed.rest.state_chunks_left.contains(h) ==> fed.is_state && h == fed.hash) && (forall|
        h: H256,
    |
        #[trigger]
        fed.rest.block_chunks_left.contains(h) ==> !fed.is_state && h == fed.hash) {
        assert(fed.states() =~= Set::empty());
        assert(fed.blocks() =~= Set::empty());
    }
}

/// The script of a feeding, piece by piece.
proof fn lemma_feeding_script(operation: Operation, data: Seq<u8>, script: Seq<ActionView>)
    requires
        operation is Feed,
        ({
            let service = operation->Feed_service;
            let hash = operation->Feed_hash;
            let chunk = operation->Feed_chunk;
            let host = operation->Feed_host;
            let is_state = operation->Feed_is_state;
            let rest = operation.fed().rest;
            let wanted = operation.fed().wanted();
            let last = operation.fed().last();
            let current = current_in(service.root);
            script == only_if(
                wanted && is_state,
                seq![ActionView::Decompress(chunk), ActionView::FeedState(data)],
            ) + only_if(
                wanted && !is_state,
                seq![ActionView::Decompress(chunk), ActionView::FeedBlocks(data)],
            ) + only_if(
                wanted && rest.writer && is_state,
                seq![ActionView::WriteStateChunk(hash, chunk)],
            ) + only_if(
                wanted && rest.writer && !is_state,
                seq![ActionView::WriteBlockChunk(hash, chunk)],
            ) + seq![ActionView::FlushDatabase] + only_if(
                last,
                seq![
                    ActionView::StateRoot,
                    ActionView::CheckMissing,
                    ActionView::FinalizeBlocks(rest.canonical_hashes),
                ],
            ) + only_if(
                last && rest.writer,
                seq![ActionView::FinishWriter(rest.manifest)],
            ) + only_if(
                last,
                seq![
                    ActionView::Discard(None),
                    ActionView::ReplaceClientDb(database_in(service.root)),
                ],
            ) + only_if(
                last && rest.writer,
                seq![ActionView::HoldReader, ActionView::Exists(current)],
            ) + only_if(
                last && rest.writer && host(ActionView::Exists(current)) == ReplyView::Flag(true),
                seq![ActionView::RemoveDirAll(current)],
            ) + only_if(
                last && rest.writer,
                seq![
                    ActionView::Rename { from: recovered_in(service.root), to: current },
                    ActionView::OpenReader(current),
                ],
            ) + only_if(last, seq![ActionView::RemoveDirAll(restoration_in(service.root))])
        }),
    ensures
        operation.fed().wanted() ==> script.len() > 0 && operation.script().len() > 0 && script[0]
            == operation.script()[0] && script[0] == ActionView::Decompress(
            operation->Feed_chunk,
        ),
        !operation.fed().wanted() || data == operation.data() ==> script == operation.script(),
{
    let fed = operation.fed();
    if fed.wanted() {
        assert(script[0] == ActionView::Decompress(operation->Feed_chunk));
        assert(operation.script()[0] == ActionView::Decompress(operation->Feed_chunk));
    }
    if !fed.wanted() || data == operation.data() {
        if fed.last() {
            if fed.rest.writer {
                assert(script =~= operation.script());
            } else {
                assert(script =~= operation.script());
            }
        } else {
            assert(script =~= operation.script());
        }
    }
}

/// `feed_state_chunk` and `feed_block_chunk`, while a restoration goes on: they ask for the actions of
/// their script up to the first that is refused. A state root other than the manifest's counts as
/// refused; the restoration directory may fail to go at the end. If none is refused, the restoration
/// goes on without the chunk, or is over if nothing is left to be fed. Otherwise what was refused is
/// the error, there is no restoration, and the status is failed. The chunk is counted if it was
/// processed.
#[verifier::rlimit(40)]
pub proof fn law_feeding_in_full(
    service: ServiceView,
    hash: H256,
    chunk: Seq<u8>,
    is_state: bool,
    host: Host,
    rest: RestorationView,
    data: Seq<u8>,
    script: Seq<ActionView>,
    i: int,
)
    requires
        proper(host),
        !service.held,
        !service.swapping,
        service.status is Ongoing,
        service.restoration == Some(rest),
        host(ActionView::Decompress(chunk)) matches ReplyView::Bytes(Ok(d)) ==> d == data,
        ({
            let current = current_in(service.root);
            let wanted = (is_state && rest.state_chunks_left.contains(hash)) || (!is_state
                && rest.block_chunks_left.contains(hash));
            let last = (forall|h: H256|
                #[trigger]
                rest.state_chunks_left.contains(h) ==> is_state && h == hash) && (forall|h: H256|
                #[trigger]
                rest.block_chunks_left.contains(h) ==> !is_state && h == hash);
            &&& script == only_if(
                wanted && is_state,
                seq![ActionView::Decompress(chunk), ActionView::FeedState(data)],
            ) + only_if(
                wanted && !is_state,
                seq![ActionView::Decompress(chunk), ActionView::FeedBlocks(data)],
            ) + only_if(
                wanted && rest.writer && is_state,
                seq![ActionView::WriteStateChunk(hash, chunk)],
            ) + only_if(
                wanted && rest.writer && !is_state,
                seq![ActionView::WriteBlockChunk(hash, chunk)],
            ) + seq![ActionView::FlushDatabase] + only_if(
                last,
                seq![
                    ActionView::StateRoot,
                    ActionView::CheckMissing,
                    ActionView::FinalizeBlocks(rest.canonical_hashes),
                ],
            ) + only_if(
                last && rest.writer,
                seq![ActionView::FinishWriter(rest.manifest)],
            ) + only_if(
                last,
                seq![
                    ActionView::Discard(None),
                    ActionView::ReplaceClientDb(database_in(service.root)),
                ],
            ) + only_if(
                last && rest.writer,
                seq![ActionView::HoldReader, ActionView::Exists(current)],
            ) + only_if(
                last && rest.writer && host(ActionView::Exists(current)) == ReplyView::Flag(true),
                seq![ActionView::RemoveDirAll(current)],
            ) + only_if(
                last && rest.writer,
                seq![
                    ActionView::Rename { from: recovered_in(service.root), to: current },
                    ActionView::OpenReader(current),
                ],
            ) + only_if(last, seq![ActionView::RemoveDirAll(restoration_in(service.root))])
            &&& 0 <= i <= script.len()
            &&& forall|j: int|
                0 <= j < i ==> match host(#[trigger] script[j]) {
                    ReplyView::Root(root) => root == rest.final_state_root,
                    reply => refusal(reply) is None || script[j] == ActionView::RemoveDirAll(
                        restoration_in(service.root),
                    ),
                }
            &&& i < script.len() ==> match host(script[i]) {
                ReplyView::Root(root) => root != rest.final_state_root,
                reply => refusal(reply) is Some && script[i] != ActionView::RemoveDirAll(
                    restoration_in(service.root),
                ),
            }
        }),
    ensures
        ({
            let run = service.feed_chunk_run(hash, chunk, is_state, host);
            let last = (forall|h: H256|
                #[trigger]
                rest.state_chunks_left.contains(h) ==> is_state && h == hash) && (forall|h: H256|
                #[trigger]
                rest.block_chunks_left.contains(h) ==> !is_state && h == hash);
            let placing = i < script.len() && (script[i] is RemoveDirAll || script[i] is Rename
                || script[i] is OpenReader);
            let processed = i == script.len() || !(script[i] is Decompress || script[i] is FeedState
                || script[i] is FeedBlocks || script[i] is WriteStateChunk || script[i]
                is WriteBlockChunk);
            &&& run.actions() == script.take(
                if i < script.len() {
                    i + 1
                } else {
                    i
                },
            ) + only_if(
                i < script.len() && !placing && script[i] !is ReplaceClientDb,
                seq![ActionView::Discard(rest.leftover)],
            ) + only_if(
                i < script.len(),
                seq![ActionView::RemoveDirAll(restoration_in(service.root))],
            )
            &&& run.result == if i == script.len() {
                Ok::<(), Error>(())
            } else {
                Err(
                    match host(script[i]) {
                        ReplyView::Root(root) => Error::InvalidStateRoot(root),
                        reply => refusal(reply)->0,
                    },
                )
            }
            &&& if i == script.len() && !last {
                &&& run.service.restoration matches Some(left) && {
                    &&& left == (RestorationView {
                        state_chunks_left: left.state_chunks_left,
                        block_chunks_left: left.block_chunks_left,
                        ..rest
                    })
                    &&& forall|h: H256| #[trigger]
                        left.state_chunks_left.contains(h) <==> rest.state_chunks_left.contains(h)
                            && !(is_state && h == hash)
                    &&& forall|h: H256| #[trigger]
                        left.block_chunks_left.contains(h) <==> rest.block_chunks_left.contains(h)
                            && (is_state || h != hash)
                }
                &&& run.service.status == service.status
                &&& run.service.reader == service.reader
            } else if i == script.len() {
                &&& run.service.restoration is None
                &&& run.service.status == RestorationStatus::Inactive
                &&& !rest.writer ==> run.service.reader == service.reader
                &&& rest.writer ==> (host(
                    ActionView::OpenReader(current_in(service.root)),
                ) matches ReplyView::Reader(Ok(manifest)) && run.service.reader == Some(
                    ReaderView { dir: current_in(service.root), manifest },
                ))
            } else {
                &&& run.service.restoration is None
                &&& run.service.status == RestorationStatus::Failed
                &&& run.service.reader == if placing {
                    None
                } else {
                    service.reader
                }
            }
            &&& run.service.state_chunks == if processed && is_state {
                one_more(service.state_chunks)
            } else {
                service.state_chunks
            }
            &&& run.service.block_chunks == if processed && !is_state {
                one_more(service.block_chunks)
            } else {
                service.block_chunks
            }
            &&& run.service == (ServiceView {
                restoration: run.service.restoration,
                status: run.service.status,
                reader: run.service.reader,
                state_chunks: run.service.state_chunks,
                block_chunks: run.service.block_chunks,
                ..service
            })
        }),
{
    law_feeding_plays_its_script(service, hash, chunk, is_state, host);
    let operation = Operation::Feed { service, hash, chunk, is_state, host };
    let fed = operation.fed();
    let run = service.feed_chunk_run(hash, chunk, is_state, host);
    lemma_last(fed);
    lemma_feeding_script(operation, data, script);
    let decompressing = ActionView::Decompress(chunk);
    assert(fits(decompressing, host(decompressing)));
    let reading = ActionView::OpenReader(current_in(service.root));
    assert(fits(reading, host(reading)));
    if fed.wanted() && refusal(host(decompressing)) is Some {
        assert(script[0] == decompressing);
        assert(i == 0);
        lemma_played_to(operation, operation.script(), 0);
        assert(operation.script().take(1) =~= script.take(1));
    } else {
        assert forall|j: int| 0 <= j < i implies operation.refused(
            #[trigger] script[j],
        ) is None by {
            assert(fits(script[j], host(script[j])));
        }
        if i < script.len() {
            assert(fits(script[i], host(script[i])));
        }
        lemma_played_to(operation, script, i);
        if i == script.len() {
            assert(script.take(i) =~= script);
            if fed.last() && fed.rest.writer {
                assert(script[script.len() - 2] == reading);
            }
        }
    }
    let end = if i < script.len() {
        i + 1
    } else {
        i
    };
    let placing = i < script.len() && (script[i] is RemoveDirAll || script[i] is Rename
        || script[i] is OpenReader);
    assert(run.actions() =~= script.take(end) + only_if(
        i < script.len() && !placing && script[i] !is ReplaceClientDb,
        seq![ActionView::Discard(rest.leftover)],
    ) + only_if(
        i < script.len(),
        seq![ActionView::RemoveDirAll(restoration_in(service.root))],
    ));
}

/// `Service::new`: the root is created, unless it is there already; what earlier services left of a
/// restoration and of a snapshot is removed, unless it is not there; and the current snapshot is opened,
/// if it can be. The first refusal but the last is the error. The service that comes into being has
/// what it was given and the snapshot that was found, and has done nothing yet.
pub proof fn law_creation_in_full(
    genesis_block: Seq<u8>,
    pruning: Algorithm,
    root: PathView,
    host: Host,
)
    requires
        proper(host),
    ensures
        ({
            let fresh = ServiceView::fresh(genesis_block, pruning, root);
            let run = startup_run(StartupView::at(StartupStage::CreatingRoot, fresh), host);
            let creating = ActionView::CreateDirAll(root);
            let removing = ActionView::RemoveDirAll(restoration_in(root));
            let clearing = ActionView::RemoveDirAll(in_progress_in(root));
            let reading = ActionView::OpenReader(current_in(root));
            match (host(creating), host(removing), host(clearing)) {
                (ReplyView::Io(Err(e)), _, _) if e.kind != IoErrorKind::AlreadyExists => {
                    &&& run.0 == Err::<ServiceView, Error>(Error::StdIo(e))
                    &&& run.1 == seq![creating]
                },
                (_, ReplyView::Io(Err(e)), _) if e.kind != IoErrorKind::NotFound => {
                    &&& run.0 == Err::<ServiceView, Error>(Error::StdIo(e))
                    &&& run.1 == seq![creating, removing]
                },
                (_, _, ReplyView::Io(Err(e))) if e.kind != IoErrorKind::NotFound => {
                    &&& run.0 == Err::<ServiceView, Error>(Error::StdIo(e))
                    &&& run.1 == seq![creating, removing, clearing]
                },
                _ => {
                    &&& run.0 == Ok::<ServiceView, Error>(
                        ServiceView {
                            restoration: None,
                            root,
                            pruning,
                            status: RestorationStatus::Inactive,
                            reader: match host(reading) {
                                ReplyView::Reader(Ok(manifest)) => Some(
                                    ReaderView { dir: current_in(root), manifest },
                                ),
                                _ => None,
                            },
                            genesis_block,
                            state_chunks: 0,
                            block_chunks: 0,
                            taking_snapshot: false,
                            restoring_snapshot: false,
                            held: false,
                            swapping: false,
                        },
                    )
                    &&& run.1 == seq![creating, removing, clearing, reading]
                },
            }
        }),
{
    law_new_in_full(genesis_block, pruning, root, host);
}

} // verus!
