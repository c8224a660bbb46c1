//! Laws of the snapshot service: what holds of whole operations, and across them.

use vstd::prelude::*;

use crate::error::Error;
use crate::hash::H256;
use crate::host::{ActionView, ReplyView};
use crate::manifest::ManifestView;
use crate::outcomes::{
    law_abort_outcome, law_feed_outcome, law_init_outcome, law_take_outcome, opened,
};
use crate::path::{is_within, needs_separator, PathView};
use crate::restoration::{noted, RestorationView};
use crate::runs::{answers, in_range, restore_run, Host, Run};
use crate::service::ServiceView;
use crate::status::RestorationStatus;

verus! {

// ---------------------------------------------------------------------------------------------
// Directories
// ---------------------------------------------------------------------------------------------

/// The names of the directories differ.
proof fn lemma_names()
    ensures
        "current"@ != "in_progress"@,
        "current"@ != "restoration"@,
        "in_progress"@ != "restoration"@,
        "db"@ != "temp"@,
{
    reveal_strlit("current");
    reveal_strlit("in_progress");
    reveal_strlit("restoration");
    reveal_strlit("db");
    reveal_strlit("temp");
    assert("current"@.len() == 7);
    assert("in_progress"@[0] == 'i');
    assert("restoration"@[0] == 'r');
    assert("db"@.len() == 2);
    assert("temp"@.len() == 4);
}

/// The current snapshot, the unfinished snapshot and the restoration are kept apart: none of their
/// directories lies within another, and none is the root. The restored database and the recovered
/// snapshot lie apart from each other within the restoration directory, so they go with it, and
/// nothing else does.
pub proof fn law_directories_apart(service: ServiceView)
    ensures
        !is_within(service.snapshot_dir(), service.restoration_dir()),
        !is_within(service.snapshot_dir(), service.temp_snapshot_dir()),
        !is_within(service.temp_snapshot_dir(), service.restoration_dir()),
        !is_within(service.temp_snapshot_dir(), service.snapshot_dir()),
        !is_within(service.restoration_dir(), service.snapshot_dir()),
        !is_within(service.restoration_dir(), service.temp_snapshot_dir()),
        !is_within(service.root, service.snapshot_dir()),
        !is_within(service.root, service.temp_snapshot_dir()),
        !is_within(service.root, service.restoration_dir()),
        is_within(service.restoration_db(), service.restoration_dir()),
        is_within(service.temp_recovery_dir(), service.restoration_dir()),
        !is_within(service.restoration_db(), service.temp_recovery_dir()),
        !is_within(service.temp_recovery_dir(), service.restoration_db()),
{
    lemma_names();
    let n = service.root.names.len() as int;
    let restoration = service.restoration_dir().names;
    assert(service.snapshot_dir().names[n] == "current"@);
    assert(service.temp_snapshot_dir().names[n] == "in_progress"@);
    assert(restoration[n] == "restoration"@);
    assert(service.restoration_db().names[n + 1] == "db"@);
    assert(service.temp_recovery_dir().names[n + 1] == "temp"@);
    assert(service.restoration_db().names.take(n + 1) =~= restoration);
    assert(service.temp_recovery_dir().names.take(n + 1) =~= restoration);
}

/// The text of the restored database's path, for a root that needs a separator after it: the names
/// follow it, each after one separator of the platform.
pub proof fn law_database_text(service: ServiceView)
    requires
        needs_separator(service.root.text(), service.root.separator),
    ensures
        ({
            let separator = seq![service.root.separator.char()];
            service.restoration_db().text() == service.root.text() + separator + "restoration"@
                + separator + "db"@
        }),
{
    reveal_strlit("restoration");
    let root = service.root;
    let dir = service.restoration_dir();
    let separator = seq![root.separator.char()];
    assert(dir.names.drop_last() =~= root.names);
    assert(service.restoration_db().names.drop_last() =~= dir.names);
    assert(dir.text() =~= root.text() + separator + "restoration"@);
    assert(dir.text().last() == 'n');
    assert(dir.text().len() > 2);
    assert(service.restoration_db().text() =~= dir.text() + separator + "db"@);
}

// ---------------------------------------------------------------------------------------------
// Canonical hashes
// ---------------------------------------------------------------------------------------------

/// The hash noted for a number is the last one that was given for it; a number that none was given
/// for keeps what it had.
pub proof fn law_last_hash_stands(known: Map<u64, H256>, pairs: Seq<(u64, H256)>, number: u64)
    ensures
        forall|i: int|
            0 <= i < pairs.len() && #[trigger] pairs[i].0 == number && (forall|j: int|
                i < j < pairs.len() ==> (#[trigger] pairs[j]).0 != number) ==> noted(
                known,
                pairs,
            ).contains_pair(number, pairs[i].1),
        (forall|i: int| 0 <= i < pairs.len() ==> (#[trigger] pairs[i]).0 != number) ==> {
            &&& noted(known, pairs).contains_key(number) == known.contains_key(number)
            &&& noted(known, pairs)[number] == known[number]
        },
    decreases pairs.len(),
{
    if pairs.len() > 0 {
        let front = pairs.drop_last();
        law_last_hash_stands(known, front, number);
        assert(forall|j: int| 0 <= j < front.len() ==> front[j] == pairs[j]);
        assert(pairs[pairs.len() - 1] == pairs.last());
    }
}

/// To provide hashes in two parts is to provide them at once.
pub proof fn law_hashes_in_parts(
    service: ServiceView,
    one: Seq<(u64, H256)>,
    two: Seq<(u64, H256)>,
)
    ensures
        service.provided(one).provided(two) == service.provided(one + two),
{
    if let Some(rest) = service.restoration {
        lemma_noted_in_parts(rest.canonical_hashes, one, two);
    }
}

pub(crate) proof fn lemma_noted_in_parts(
    known: Map<u64, H256>,
    one: Seq<(u64, H256)>,
    two: Seq<(u64, H256)>,
)
    ensures
        noted(noted(known, one), two) == noted(known, one + two),
    decreases two.len(),
{
    if two.len() == 0 {
        assert(one + two =~= one);
    } else {
        lemma_noted_in_parts(known, one, two.drop_last());
        assert((one + two).drop_last() =~= one + two.drop_last());
        assert((one + two).last() == two.last());
    }
}

// ---------------------------------------------------------------------------------------------
// Restorations
// ---------------------------------------------------------------------------------------------

/// Nothing happens when a chunk is fed while there is no restoration, or the status is wrong.
pub proof fn law_feeding_needs_restoration(
    service: ServiceView,
    hash: H256,
    chunk: Seq<u8>,
    is_state: bool,
    host: Host,
)
    requires
        service.restoration is None || service.reported_status() !is Ongoing,
    ensures
        service.feed_chunk_run(hash, chunk, is_state, host) == Run::at_once(service, Ok(())),
{
}

/// A restoration that has begun has all chunks of the manifest to be fed, and no others. The status
/// tells their numbers, and that none is done.
pub proof fn law_restoration_begins(
    service: ServiceView,
    manifest: ManifestView,
    recover: bool,
    host: Host,
)
    requires
        answers(host),
        service.idle(),
        service.init_restore_run(manifest, recover, host).result is Ok,
    ensures
        ({
            let after = service.init_restore_run(manifest, recover, host).service;
            &&& after.restoration == Some(
                RestorationView::fresh(manifest, recover, Some(service.restoration_dir())),
            )
            &&& after.reported_status() == (RestorationStatus::Ongoing {
                state_chunks: manifest.state_hashes.len() as u32,
                block_chunks: manifest.block_hashes.len() as u32,
                state_chunks_done: 0,
                block_chunks_done: 0,
            })
            &&& after.restoring_snapshot
        }),
{
    law_init_outcome(service, manifest, recover, host);
}

/// The old restoration is gone when a new one begins, even if the new one does not come to be.
pub proof fn law_old_restoration_goes(
    service: ServiceView,
    manifest: ManifestView,
    recover: bool,
    host: Host,
)
    requires
        answers(host),
        service.idle(),
    ensures
        ({
            let run = service.init_restore_run(manifest, recover, host);
            &&& run.result is Err ==> run.service.restoration is None
            &&& run.result is Err ==> run.service.status == service.status
            &&& service.restoration matches Some(rest) ==> run.trace.len() > 0
                && run.trace[0].action == ActionView::Discard(rest.leftover)
        }),
{
    law_init_outcome(service, manifest, recover, host);
    reveal_with_fuel(restore_run, 2);
}

/// Once a restoration is called off, feeding a chunk does nothing.
pub proof fn law_nothing_fed_after_abort(
    service: ServiceView,
    hash: H256,
    chunk: Seq<u8>,
    is_state: bool,
    host: Host,
    later_host: Host,
)
    requires
        answers(host),
        service.idle(),
    ensures
        ({
            let after = service.abort_restore_run(host).service;
            &&& after.reported_status() == RestorationStatus::Inactive
            &&& !after.restoring_snapshot
            &&& after.feed_chunk_run(hash, chunk, is_state, later_host) == Run::at_once(
                after,
                Ok(()),
            )
        }),
{
    law_abort_outcome(service, host);
}

/// A feeding that ends in an error leaves the status at failed and no restoration, so that no other
/// chunk is fed.
pub proof fn law_error_fails_restoration(
    service: ServiceView,
    hash: H256,
    chunk: Seq<u8>,
    is_state: bool,
    host: Host,
)
    requires
        answers(host),
        service.idle(),
        service.feed_chunk_run(hash, chunk, is_state, host).result is Err,
    ensures
        ({
            let after = service.feed_chunk_run(hash, chunk, is_state, host).service;
            &&& after.reported_status() == RestorationStatus::Failed
            &&& after.restoration is None
        }),
{
    law_feed_outcome(service, hash, chunk, is_state, host);
}

/// A chunk that was fed is not wanted a second time.
pub proof fn law_chunk_wanted_once(
    service: ServiceView,
    hash: H256,
    chunk: Seq<u8>,
    is_state: bool,
    host: Host,
)
    requires
        answers(host),
        service.idle(),
        service.status is Ongoing,
    ensures
        service.feed_chunk_run(hash, chunk, is_state, host).service.restoration matches Some(rest)
            ==> !rest.wants(hash, is_state),
{
    law_feed_outcome(service, hash, chunk, is_state, host);
}

/// Where the rebuilt state has not the root that the manifest names, the last chunk fails the
/// restoration with that root as the error.
pub proof fn law_wrong_root_is_error(
    service: ServiceView,
    hash: H256,
    chunk: Seq<u8>,
    is_state: bool,
    root: H256,
    host: Host,
)
    requires
        answers(host),
        service.idle(),
        service.status is Ongoing,
        service.restoration is Some,
        service.restoration->0.without(hash, is_state).done(),
        ServiceView::processing_error(service.restoration->0, hash, chunk, is_state, host) is None,
        host(ActionView::FlushDatabase).error() is None,
        host(ActionView::StateRoot) == ReplyView::Root(root),
        root != service.restoration->0.final_state_root,
    ensures
        ({
            let run = service.feed_chunk_run(hash, chunk, is_state, host);
            &&& run.result == Err::<(), Error>(Error::InvalidStateRoot(root))
            &&& run.service.reported_status() == RestorationStatus::Failed
        }),
{
    law_feed_outcome(service, hash, chunk, is_state, host);
}

/// A restoration that is not to be recovered leaves the reader of the current snapshot alone; one
/// that is recovered and finished leaves the reader of the recovered snapshot, in the place of the
/// current one.
pub proof fn law_recovered_snapshot_is_current(
    service: ServiceView,
    hash: H256,
    chunk: Seq<u8>,
    is_state: bool,
    host: Host,
)
    requires
        answers(host),
        service.idle(),
        service.status is Ongoing,
        service.restoration is Some,
    ensures
        ({
            let rest = service.restoration->0;
            let run = service.feed_chunk_run(hash, chunk, is_state, host);
            &&& !rest.writer ==> run.service.reader == service.reader
            &&& rest.writer && run.service.status is Inactive ==> run.service.reader is Some
                && run.service.reader == opened(service.snapshot_dir(), host)
        }),
{
    law_feed_outcome(service, hash, chunk, is_state, host);
}

/// A host that refuses nothing, and rebuilds a state with this root. A directory that is not there
/// may be found missing when it is to be removed.
pub open spec fn obliging(host: Host, root: H256) -> bool {
    &&& answers(host)
    &&& host(ActionView::StateRoot) == ReplyView::Root(root)
    &&& forall|action: ActionView|
        (#[trigger] host(action)).error() is Some ==> action is RemoveDirAll
    &&& forall|dir: PathView|
        (#[trigger] host(ActionView::RemoveDirAll(dir))).removal_error() is None
    &&& forall|dir: PathView|
        host(ActionView::Exists(dir)) == ReplyView::Flag(true) ==> (#[trigger] host(
            ActionView::RemoveDirAll(dir),
        )).error() is None
}

/// With a host that refuses nothing a restoration begins. If the host rebuilds the state that the
/// manifest names, no feeding ends in an error.
pub proof fn law_no_error_without_refusal(
    service: ServiceView,
    manifest: ManifestView,
    recover: bool,
    hash: H256,
    chunk: Seq<u8>,
    is_state: bool,
    root: H256,
    host: Host,
)
    requires
        obliging(host, root),
        service.idle(),
    ensures
        service.init_restore_run(manifest, recover, host).result is Ok,
        (service.restoration matches Some(rest) ==> rest.final_state_root == root)
            ==> service.feed_chunk_run(hash, chunk, is_state, host).result is Ok,
{
    law_init_outcome(service, manifest, recover, host);
    law_feed_outcome(service, hash, chunk, is_state, host);
    let removing = host(ActionView::RemoveDirAll(service.restoration_dir()));
    let replacing = host(ActionView::RemoveDirAll(service.snapshot_dir()));
    assert(removing.removal_error() is None);
    assert(replacing.removal_error() is None);
    assert(service.init_error(manifest, recover, host) is None);
}

// ---------------------------------------------------------------------------------------------
// Snapshots
// ---------------------------------------------------------------------------------------------

/// A snapshot is skipped, without an error, while another one is being taken.
pub proof fn law_one_snapshot_at_a_time(service: ServiceView, num: u64, host: Host)
    requires
        service.taking_snapshot,
    ensures
        service.take_snapshot_run(num, host) == Run::at_once(service, Ok(())),
{
}

/// A snapshot that is taken becomes the current one.
pub proof fn law_snapshot_becomes_current(service: ServiceView, num: u64, host: Host)
    requires
        answers(host),
        !service.swapping,
        in_range(host, num),
        !service.taking_snapshot,
        host(ActionView::TakeSnapshot(num)).error() is None,
        service.take_snapshot_run(num, host).result is Ok,
    ensures
        ({
            let after = service.take_snapshot_run(num, host).service;
            &&& after.reader is Some
            &&& after.reader == opened(service.snapshot_dir(), host)
            &&& !after.taking_snapshot
        }),
{
    law_take_outcome(service, num, host);
}

/// A snapshot that the client fails to write leaves the service as it was. That is an error, the one
/// of the client, unless the chain has gone on so far that the state is pruned.
pub proof fn law_pruned_snapshot_is_no_error(
    service: ServiceView,
    num: u64,
    best_block_number: u64,
    pruning_history: u64,
    error: Error,
    host: Host,
)
    requires
        answers(host),
        !service.swapping,
        num + pruning_history <= u64::MAX,
        !service.taking_snapshot,
        host(ActionView::OpenWriter(service.temp_snapshot_dir())).error() is None,
        host(ActionView::TakeSnapshot(num)) == ReplyView::Done(Err(error)),
        host(ActionView::ChainInfo) == (ReplyView::Chain { best_block_number, pruning_history }),
    ensures
        ({
            let run = service.take_snapshot_run(num, host);
            &&& run.service == service
            &&& best_block_number >= num + pruning_history ==> run.result == Ok::<(), Error>(())
            &&& best_block_number < num + pruning_history ==> run.result == Err::<(), Error>(error)
        }),
{
    law_take_outcome(service, num, host);
}

/// A snapshot that cannot open its writer leaves the service at taking a snapshot: every later one
/// is skipped. After any other snapshot the next one can be taken.
pub proof fn law_failed_writer_blocks_snapshots(
    service: ServiceView,
    num: u64,
    later: u64,
    host: Host,
    later_host: Host,
)
    requires
        answers(host),
        in_range(host, num),
        !service.swapping,
        !service.taking_snapshot,
    ensures
        ({
            let run = service.take_snapshot_run(num, host);
            let opening = host(ActionView::OpenWriter(service.temp_snapshot_dir()));
            if opening.error() is Some {
                &&& run.result is Err
                &&& run.service.take_snapshot_run(later, later_host) == Run::at_once(
                    run.service,
                    Ok(()),
                )
            } else {
                !run.service.taking_snapshot
            }
        }),
{
    law_take_outcome(service, num, host);
}

/// Taking a snapshot leaves the restoration alone.
pub proof fn law_snapshot_leaves_restoration(service: ServiceView, num: u64, host: Host)
    requires
        answers(host),
        !service.swapping,
        in_range(host, num),
    ensures
        ({
            let after = service.take_snapshot_run(num, host).service;
            &&& after.restoration == service.restoration
            &&& after.reported_status() == service.reported_status()
            &&& after.restoring_snapshot == service.restoring_snapshot
        }),
{
    law_take_outcome(service, num, host);
}

/// Restoring leaves alone whether a snapshot is being taken.
pub proof fn law_restoration_leaves_snapshot(
    service: ServiceView,
    manifest: ManifestView,
    recover: bool,
    hash: H256,
    chunk: Seq<u8>,
    is_state: bool,
    host: Host,
)
    requires
        answers(host),
        service.idle(),
    ensures
        service.init_restore_run(manifest, recover, host).service.taking_snapshot
            == service.taking_snapshot,
        service.abort_restore_run(host).service.taking_snapshot == service.taking_snapshot,
        service.feed_chunk_run(hash, chunk, is_state, host).service.taking_snapshot
            == service.taking_snapshot,
{
    law_init_outcome(service, manifest, recover, host);
    law_abort_outcome(service, host);
    law_feed_outcome(service, hash, chunk, is_state, host);
}

/// Of a snapshot that is taken and one that is recovered by a restoration, the one to be finished
/// last overwrites the other: both have the same place, and the reader is that of the later one.
pub proof fn law_last_snapshot_stands(
    service: ServiceView,
    num: u64,
    hash: H256,
    chunk: Seq<u8>,
    is_state: bool,
    taker: Host,
    restorer: Host,
)
    requires
        answers(taker),
        service.idle(),
        answers(restorer),
        in_range(taker, num),
        !service.taking_snapshot,
        taker(ActionView::TakeSnapshot(num)).error() is None,
        service.status is Ongoing,
        service.restoration is Some,
        service.restoration->0.writer,
    ensures
        ({
            let restored = service.feed_chunk_run(hash, chunk, is_state, restorer);
            let taken = restored.service.take_snapshot_run(num, taker);
            restored.service.status is Inactive && taken.result is Ok ==> taken.service.reader
                == opened(service.snapshot_dir(), taker)
        }),
        ({
            let taken = service.take_snapshot_run(num, taker);
            let restored = taken.service.feed_chunk_run(hash, chunk, is_state, restorer);
            taken.result is Ok && restored.service.status is Inactive ==> restored.service.reader
                == opened(service.snapshot_dir(), restorer)
        }),
{
    law_feed_outcome(service, hash, chunk, is_state, restorer);
    law_take_outcome(service, num, taker);
    law_take_outcome(
        service.feed_chunk_run(hash, chunk, is_state, restorer).service,
        num,
        taker,
    );
    law_feed_outcome(
        service.take_snapshot_run(num, taker).service,
        hash,
        chunk,
        is_state,
        restorer,
    );
}

// ---------------------------------------------------------------------------------------------
// What every operation keeps
// ---------------------------------------------------------------------------------------------

impl RestorationView {
    /// Whether a restoration is as one is that began from its manifest: nothing is left to be fed
    /// that is not in the manifest, the state is to have the manifest's root, and the directory
    /// `dir` goes when the restoration does.
    pub open spec fn well_formed(self, dir: PathView) -> bool {
        &&& self.state_chunks_left.subset_of(self.manifest.state_hashes.to_set())
        &&& self.block_chunks_left.subset_of(self.manifest.block_hashes.to_set())
        &&& self.final_state_root == self.manifest.state_root
        &&& self.leftover == Some(dir)
    }
}

impl ServiceView {
    /// Whether a service is in a state between operations: nothing is held, a restoration that is
    /// there is going on and guards the restoration directory, and a reader that is open reads the
    /// current snapshot.
    pub open spec fn well_formed(self) -> bool {
        &&& self.idle()
        &&& self.restoration matches Some(rest) ==> self.status is Ongoing && rest.well_formed(
            self.restoration_dir(),
        )
        &&& self.reader matches Some(reader) ==> reader.dir == self.snapshot_dir()
    }
}

/// Every operation leaves a service well-formed that was, and a service that comes into being is.
#[verifier::rlimit(30)]
pub proof fn law_operations_keep_well_formed(
    service: ServiceView,
    manifest: ManifestView,
    recover: bool,
    canonical: Seq<(u64, H256)>,
    hash: H256,
    chunk: Seq<u8>,
    is_state: bool,
    num: u64,
    host: Host,
)
    requires
        answers(host),
        in_range(host, num),
        service.well_formed(),
    ensures
        service.init_restore_run(manifest, recover, host).service.well_formed(),
        service.abort_restore_run(host).service.well_formed(),
        service.provided(canonical).well_formed(),
        service.feed_chunk_run(hash, chunk, is_state, host).service.well_formed(),
        service.take_snapshot_run(num, host).service.well_formed(),
        ServiceView::new_outcome(service.genesis_block, service.pruning, service.root, host)
            matches Ok(fresh) ==> fresh.well_formed(),
{
    law_init_outcome(service, manifest, recover, host);
    law_abort_outcome(service, host);
    law_feed_outcome(service, hash, chunk, is_state, host);
    law_take_outcome(service, num, host);
}

/// No operation changes where the service keeps its files, its genesis block or its pruning.
pub proof fn law_parameters_stay(
    service: ServiceView,
    manifest: ManifestView,
    recover: bool,
    hash: H256,
    chunk: Seq<u8>,
    is_state: bool,
    num: u64,
    host: Host,
)
    requires
        answers(host),
        service.idle(),
        in_range(host, num),
    ensures
        forall|after: ServiceView|
            #![trigger after.root]
            after == service.init_restore_run(manifest, recover, host).service || after
                == service.abort_restore_run(host).service || after == service.feed_chunk_run(
                hash,
                chunk,
                is_state,
                host,
            ).service || after == service.take_snapshot_run(num, host).service ==> after.root
                == service.root && after.genesis_block == service.genesis_block && after.pruning
                == service.pruning,
{
    law_init_outcome(service, manifest, recover, host);
    law_abort_outcome(service, host);
    law_feed_outcome(service, hash, chunk, is_state, host);
    law_take_outcome(service, num, host);
}

} // verus!
