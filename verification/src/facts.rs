//! What the values of the service stand for, and what the calls on it give that need no host.

use vstd::prelude::*;

use crate::guard::Guard;
use crate::hash::H256;
use crate::host::{Action, ActionView, Reply, ReplyView, Step, StepView};
use crate::laws::law_last_hash_stands;
use crate::manifest::{ManifestData, ManifestView};
use crate::path::{PathView, Separator};
use crate::restoration::{Restoration, RestorationView};
use crate::scripts::{dir_in, lemma_dirs};
use crate::service::{ChunkRead, LooseReader, Service, ServiceView};
use crate::startup::{StartupStep, StartupStepView};
use crate::status::RestorationStatus;

verus! {

// ---------------------------------------------------------------------------------------------
// Paths
// ---------------------------------------------------------------------------------------------

/// The service keeps its files below its root: the current snapshot in `current`, an unfinished one in
/// `in_progress`, and a restoration in `restoration`, with its database in `db` and what it recovers
/// in `temp`.
pub proof fn law_directories_by_name(service: ServiceView, name: Seq<char>)
    ensures
        service.snapshot_dir() == dir_in(service.root, "current"@),
        service.temp_snapshot_dir() == dir_in(service.root, "in_progress"@),
        service.restoration_dir() == dir_in(service.root, "restoration"@),
        service.restoration_db() == dir_in(dir_in(service.root, "restoration"@), "db"@),
        service.temp_recovery_dir() == dir_in(dir_in(service.root, "restoration"@), "temp"@),
        service.root.child(name) == dir_in(service.root, name),
{
    lemma_dirs(service);
}

/// The text of a path: that of its root, and then each name after the text before it. Between them goes
/// one separator of the platform, unless the text before is empty or ends in a slash or, on a
/// platform with drives, in a backslash or is but a letter and a colon.
pub proof fn law_path_text(path: PathView, name: Seq<char>)
    ensures
        path.names.len() == 0 ==> path.text() == path.root,
        ({
            let base = path.text();
            let letter = ('a' <= base[0] && base[0] <= 'z') || ('A' <= base[0] && base[0] <= 'Z');
            let drive = base.len() == 2 && base[1] == ':' && letter;
            let joined_on = base.len() == 0 || base.last() == '/' || (path.separator
                == Separator::Backslash && (base.last() == '\\' || drive));
            dir_in(path, name).text() == if joined_on {
                base + name
            } else if path.separator == Separator::Slash {
                base + seq!['/'] + name
            } else {
                base + seq!['\\'] + name
            }
        }),
{
    let child = dir_in(path, name);
    assert(child.names.drop_last() =~= path.names);
    assert(child.names.last() == name);
    let base = path.text();
    assert(base.push('/') =~= base + seq!['/']);
    assert(base.push('\\') =~= base + seq!['\\']);
}

// ---------------------------------------------------------------------------------------------
// Calls that need no host
// ---------------------------------------------------------------------------------------------

/// The status that the service tells: an inactive or a failed one as it is; for one that goes on, the
/// numbers of chunks in the manifest as they were when it began, and the numbers of chunks counted.
pub proof fn law_status_told(service: ServiceView)
    ensures
        match service.status {
            RestorationStatus::Inactive => service.reported_status()
                == RestorationStatus::Inactive,
            RestorationStatus::Failed => service.reported_status() == RestorationStatus::Failed,
            RestorationStatus::Ongoing { state_chunks, block_chunks, .. } =>
                service.reported_status() == (RestorationStatus::Ongoing {
                    state_chunks,
                    block_chunks,
                    state_chunks_done: service.state_chunks as u32,
                    block_chunks_done: service.block_chunks as u32,
                }),
        },
{
}

/// The manifest and the chunks that the service serves are those of its reader, and there are none
/// without one.
pub proof fn law_served_by_the_reader(service: ServiceView, hash: H256)
    ensures
        match service.reader {
            Some(reader) => {
                &&& service.manifest() == Some(reader.manifest)
                &&& service.chunk(hash) matches Some(read) && read.dir == reader.dir && read.hash
                    == hash
            },
            None => service.manifest() is None && service.chunk(hash) is None,
        },
{
}

/// Canonical hashes that are provided go to the restoration, if there is one: for each number the last
/// hash that was given stands, and a number that none was given for keeps what it had. Nothing else
/// changes.
pub proof fn law_hashes_provided(
    service: ServiceView,
    canonical: Seq<(u64, H256)>,
    number: u64,
    i: int,
)
    ensures
        service.restoration is None ==> service.provided(canonical) == service,
        service.restoration matches Some(rest) ==> ({
            let after = service.provided(canonical);
            let known = after.restoration->0.canonical_hashes;
            &&& after.restoration is Some
            &&& after == (ServiceView { restoration: after.restoration, ..service })
            &&& after.restoration->0 == (RestorationView { canonical_hashes: known, ..rest })
            &&& 0 <= i < canonical.len() && canonical[i].0 == number && (forall|j: int|
                i < j < canonical.len() ==> (#[trigger] canonical[j]).0 != number)
                ==> known.dom().contains(number) && known[number] == canonical[i].1
            &&& (forall|j: int|
                0 <= j < canonical.len() ==> (#[trigger] canonical[j]).0 != number) ==> {
                &&& known.dom().contains(number) <==> rest.canonical_hashes.dom().contains(number)
                &&& known.dom().contains(number) ==> known[number] == rest.canonical_hashes[number]
            }
        }),
{
    if let Some(rest) = service.restoration {
        law_last_hash_stands(rest.canonical_hashes, canonical, number);
    }
}

/// A restoration wants what it has left to be fed of a kind; handing a chunk in takes it out of what
/// is left of its kind, and nothing else; and all is done when nothing of either kind is left.
pub proof fn law_chunks_left(rest: RestorationView, hash: H256)
    ensures
        rest.wants(hash, true) <==> rest.state_chunks_left.contains(hash),
        rest.wants(hash, false) <==> rest.block_chunks_left.contains(hash),
        rest.without(hash, true) == (RestorationView {
            state_chunks_left: rest.state_chunks_left.remove(hash),
            ..rest
        }),
        rest.without(hash, false) == (RestorationView {
            block_chunks_left: rest.block_chunks_left.remove(hash),
            ..rest
        }),
        rest.done() <==> rest.state_chunks_left == Set::<H256>::empty() && rest.block_chunks_left
            == Set::<H256>::empty(),
{
    if rest.done() {
        assert(rest.state_chunks_left =~= Set::empty());
        assert(rest.block_chunks_left =~= Set::empty());
    }
}

/// A restoration that begins has all chunks of its manifest left to be fed, no others, and no canonical
/// hashes; the state that it rebuilds is to have the root that the manifest names.
pub proof fn law_fresh_restoration(
    manifest: ManifestView,
    writer: bool,
    leftover: Option<PathView>,
    hash: H256,
)
    ensures
        ({
            let rest = RestorationView::fresh(manifest, writer, leftover);
            &&& rest.manifest == manifest
            &&& rest.state_chunks_left.contains(hash) <==> manifest.state_hashes.contains(hash)
            &&& rest.block_chunks_left.contains(hash) <==> manifest.block_hashes.contains(hash)
            &&& rest.writer == writer
            &&& rest.final_state_root == manifest.state_root
            &&& rest.leftover == leftover
            &&& rest.canonical_hashes == Map::<u64, H256>::empty()
        }),
{
}

// ---------------------------------------------------------------------------------------------
// Values
// ---------------------------------------------------------------------------------------------

/// The value of a manifest has all that the manifest has.
pub proof fn law_manifest_value(manifest: ManifestData)
    ensures
        manifest@.state_hashes == manifest.state_hashes@,
        manifest@.block_hashes == manifest.block_hashes@,
        manifest@.state_root == manifest.state_root,
        manifest@.block_number == manifest.block_number,
        manifest@.block_hash == manifest.block_hash,
{
}

/// The value of a reader, and of a read, has all that it has.
pub proof fn law_reader_value(reader: LooseReader, read: ChunkRead)
    ensures
        reader@.dir == reader.dir@,
        reader@.manifest == reader.manifest@,
        read@.dir == read.dir@,
        read@.hash == read.hash,
{
}

/// The value of a service has all that the service has.
pub(crate) proof fn law_service_value(service: Service)
    ensures
        match service.restoration {
            Some(rest) => service@.restoration == Some(rest@),
            None => service@.restoration is None,
        },
        match service.reader {
            Some(reader) => service@.reader == Some(reader@),
            None => service@.reader is None,
        },
        service@.root == service.snapshot_root@,
        service@.pruning == service.pruning,
        service@.status == service.status,
        service@.genesis_block == service.genesis_block@,
        service@.state_chunks == service.state_chunks,
        service@.block_chunks == service.block_chunks,
        service@.taking_snapshot == service.taking_snapshot,
        service@.restoring_snapshot == service.restoring_snapshot,
        service@.held == service.held,
        service@.swapping == service.swapping,
{
}

/// The value of a restoration has all that the restoration has, and the directory that its guard
/// would have removed.
pub(crate) proof fn law_restoration_value(rest: Restoration)
    ensures
        rest@.manifest == rest.manifest@,
        rest@.state_chunks_left == rest.state_chunks_left@,
        rest@.block_chunks_left == rest.block_chunks_left@,
        rest@.writer == rest.writer,
        rest@.final_state_root == rest.final_state_root,
        rest@.canonical_hashes == rest.canonical_hashes@,
        rest@.leftover == if rest.guard.armed() {
            Some(rest.guard.path())
        } else {
            None
        },
{
}

/// The value of an action is the action, with the values of what it names.
pub proof fn law_action_value<'a>(action: Action<'a>)
    ensures
        match action {
            Action::RemoveDirAll(dir) => action@ == ActionView::RemoveDirAll(dir@),
            Action::CreateDirAll(dir) => action@ == ActionView::CreateDirAll(dir@),
            Action::Rename { from, to } => action@ == (ActionView::Rename { from: from@, to: to@ }),
            Action::HoldReader => action@ == ActionView::HoldReader,
            Action::Exists(dir) => action@ == ActionView::Exists(dir@),
            Action::OpenReader(dir) => action@ == ActionView::OpenReader(dir@),
            Action::OpenWriter(dir) => action@ == ActionView::OpenWriter(dir@),
            Action::ResetProgress => action@ == ActionView::ResetProgress,
            Action::TakeSnapshot(num) => action@ == ActionView::TakeSnapshot(num),
            Action::ChainInfo => action@ == ActionView::ChainInfo,
            Action::Discard(Some(dir)) => action@ == ActionView::Discard(Some(dir@)),
            Action::Discard(None) => action@ == ActionView::Discard(None),
            Action::OpenDatabase(dir) => action@ == ActionView::OpenDatabase(dir@),
            Action::StartRebuild { genesis, pruning, manifest } => action@ == (
            ActionView::StartRebuild { genesis: genesis@, pruning, manifest: manifest@ }),
            Action::Decompress(chunk) => action@ == ActionView::Decompress(chunk@),
            Action::FeedState(data) => action@ == ActionView::FeedState(data@),
            Action::FeedBlocks(data) => action@ == ActionView::FeedBlocks(data@),
            Action::WriteStateChunk(hash, chunk) => action@ == ActionView::WriteStateChunk(
                hash,
                chunk@,
            ),
            Action::WriteBlockChunk(hash, chunk) => action@ == ActionView::WriteBlockChunk(
                hash,
                chunk@,
            ),
            Action::FlushDatabase => action@ == ActionView::FlushDatabase,
            Action::StateRoot => action@ == ActionView::StateRoot,
            Action::CheckMissing => action@ == ActionView::CheckMissing,
            Action::FinalizeBlocks(hashes) => action@ == ActionView::FinalizeBlocks(hashes@),
            Action::FinishWriter(manifest) => action@ == ActionView::FinishWriter(manifest@),
            Action::ReplaceClientDb(db) => action@ == ActionView::ReplaceClientDb(db@),
        },
{
}

/// The value of a reply is the reply, with the values of what it holds.
pub proof fn law_reply_value(reply: Reply)
    ensures
        match reply {
            Reply::Unit => reply@ == ReplyView::Unit,
            Reply::Io(result) => reply@ == ReplyView::Io(result),
            Reply::Flag(flag) => reply@ == ReplyView::Flag(flag),
            Reply::Reader(Ok(manifest)) => reply@ == ReplyView::Reader(Ok(manifest@)),
            Reply::Reader(Err(e)) => reply@ == ReplyView::Reader(Err(e)),
            Reply::Done(result) => reply@ == ReplyView::Done(result),
            Reply::Database(result) => reply@ == ReplyView::Database(result),
            Reply::Bytes(Ok(data)) => reply@ == ReplyView::Bytes(Ok(data@)),
            Reply::Bytes(Err(e)) => reply@ == ReplyView::Bytes(Err(e)),
            Reply::Root(root) => reply@ == ReplyView::Root(root),
            Reply::Chain { best_block_number, pruning_history } => reply@ == (ReplyView::Chain {
                best_block_number,
                pruning_history,
            }),
        },
{
}

/// The value of a step is the step, with the values of its action and its task, or with what it returns.
pub proof fn law_step_value<'a, T: View>(step: Step<'a, T>)
    ensures
        match step {
            Step::Do(action, task) => step@ == StepView::<T::V>::Do(action@, task@),
            Step::Return(result) => step@ == StepView::<T::V>::Return(result),
        },
{
}

/// The value of a step of the creation of a service is the step, with the values of what it has.
pub proof fn law_startup_step_value(step: StartupStep)
    ensures
        match step {
            StartupStep::Do(action, startup) => step@ == StartupStepView::Do(action@, startup@),
            StartupStep::Ready(service) => step@ == StartupStepView::Ready(service@),
            StartupStep::Failed(error) => step@ == StartupStepView::Failed(error),
        },
{
}

/// A guard leaves its directory to be removed if it is armed, and none if it is not.
pub proof fn law_guard_leaves(guard: Guard)
    ensures
        guard.armed() ==> guard.leftover() == Some(guard.path()),
        !guard.armed() ==> guard.leftover() is None,
{
}

} // verus!
