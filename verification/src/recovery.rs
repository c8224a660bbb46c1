//! Laws of recovered snapshots: what is written while a restoration is fed, and what is read back
//! when it is finished.

use vstd::prelude::*;

use crate::actions::{law_feed_actions, law_init_actions, nothing, processing_actions};
use crate::calls::{
    after_calls, all_fed, all_go_well, is_fed, just_begun, lemma_all_fed_stays,
    lemma_finishing, lemma_is_fed_push, lemma_other_call, lemma_reader, lemma_stands, no_snapshot, remaining, Call,
};
use crate::hash::H256;
use crate::host::{ActionView, ReplyView};
use crate::laws::law_directories_apart;
use crate::manifest::ManifestView;
use crate::outcomes::law_init_outcome;
use crate::path::{is_within, PathView};
use crate::restoration::RestorationView;
use crate::runs::{answers, Host};
use crate::service::{ChunkReadView, ReaderView, ServiceView};

verus! {

// ---------------------------------------------------------------------------------------------
// What is asked for
// ---------------------------------------------------------------------------------------------

/// All that a number of calls ask for, in its order.
pub open spec fn asked_by(service: ServiceView, calls: Seq<Call>) -> Seq<ActionView>
    decreases calls.len(),
{
    if calls.len() == 0 {
        nothing()
    } else {
        asked_by(service, calls.drop_last()) + after_calls(service, calls.drop_last()).called(
            calls.last(),
        ).actions()
    }
}

/// The data that is written for the chunk of the given hash and kind, in its order.
pub open spec fn writes(actions: Seq<ActionView>, hash: H256, is_state: bool) -> Seq<Seq<u8>>
    decreases actions.len(),
{
    if actions.len() == 0 {
        Seq::empty()
    } else {
        writes(actions.drop_last(), hash, is_state) + match actions.last() {
            ActionView::WriteStateChunk(h, chunk) if h == hash && is_state => seq![chunk],
            ActionView::WriteBlockChunk(h, chunk) if h == hash && !is_state => seq![chunk],
            _ => Seq::empty(),
        }
    }
}

/// The chunk that was first fed under the given hash as one of the given kind.
pub open spec fn first_fed(calls: Seq<Call>, hash: H256, is_state: bool) -> Seq<u8>
    decreases calls.len(),
{
    if calls.len() == 0 {
        Seq::empty()
    } else if is_fed(calls.drop_last(), hash, is_state) {
        first_fed(calls.drop_last(), hash, is_state)
    } else {
        calls.last()->chunk
    }
}

// ---------------------------------------------------------------------------------------------
// Snapshots on the disk
// ---------------------------------------------------------------------------------------------

/// What lies in the directory of a snapshot.
pub struct Files {
    pub chunks: Map<H256, Seq<u8>>,
    pub manifest: Option<ManifestView>,
}

/// The snapshots on a disk, by their directories, and the directory that the writer writes to.
pub struct Disk {
    pub snapshots: Map<PathView, Files>,
    pub writer: Option<PathView>,
}

impl Disk {
    /// The disk without a directory and all that is in it.
    pub open spec fn without(self, dir: PathView) -> Self {
        Disk {
            snapshots: Map::new(
                |d: PathView| self.snapshots.dom().contains(d) && !is_within(d, dir),
                |d: PathView| self.snapshots[d],
            ),
            ..self
        }
    }

    /// The disk once the writer has written a chunk.
    pub open spec fn with_chunk(self, hash: H256, chunk: Seq<u8>) -> Self {
        match self.writer {
            Some(dir) => {
                let files = self.snapshots[dir];
                Disk {
                    snapshots: self.snapshots.insert(
                        dir,
                        Files { chunks: files.chunks.insert(hash, chunk), ..files },
                    ),
                    ..self
                }
            },
            None => self,
        }
    }

    /// The disk once an action has been performed.
    pub open spec fn performed(self, action: ActionView) -> Self {
        match action {
            ActionView::OpenWriter(dir) => Disk {
                snapshots: self.snapshots.insert(
                    dir,
                    Files { chunks: Map::empty(), manifest: None },
                ),
                writer: Some(dir),
            },
            ActionView::WriteStateChunk(hash, chunk) => self.with_chunk(hash, chunk),
            ActionView::WriteBlockChunk(hash, chunk) => self.with_chunk(hash, chunk),
            ActionView::FinishWriter(manifest) => match self.writer {
                Some(dir) => Disk {
                    snapshots: self.snapshots.insert(
                        dir,
                        Files { manifest: Some(manifest), ..self.snapshots[dir] },
                    ),
                    ..self
                },
                None => self,
            },
            ActionView::Rename { from, to } => Disk {
                snapshots: self.snapshots.remove(from).insert(to, self.snapshots[from]),
                ..self
            },
            ActionView::RemoveDirAll(dir) => self.without(dir),
            ActionView::Discard(Some(dir)) => Disk { writer: None, ..self.without(dir) },
            ActionView::Discard(None) => Disk { writer: None, ..self },
            _ => self,
        }
    }

    /// The disk once actions have been performed, one after the other.
    pub open spec fn after(self, actions: Seq<ActionView>) -> Self
        decreases actions.len(),
    {
        if actions.len() == 0 {
            self
        } else {
            self.after(actions.drop_last()).performed(actions.last())
        }
    }

    /// What reading a chunk gives.
    pub open spec fn read(self, read: ChunkReadView) -> Option<Seq<u8>> {
        if self.snapshots.dom().contains(read.dir) && self.snapshots[read.dir].chunks.dom().contains(
            read.hash,
        ) {
            Some(self.snapshots[read.dir].chunks[read.hash])
        } else {
            None
        }
    }

    /// Whether a host that performs these actions on this disk reads back the manifests that its
    /// writer wrote.
    pub open spec fn reads_back(self, actions: Seq<ActionView>, host: Host) -> bool {
        forall|k: int|
            0 <= k < actions.len() ==> ((#[trigger] actions[k]) matches ActionView::OpenReader(dir)
                ==> {
                let disk = self.after(actions.take(k));
                disk.snapshots.dom().contains(dir) ==> (disk.snapshots[dir].manifest matches Some(
                    manifest,
                ) ==> host(actions[k]) == ReplyView::Reader(Ok(manifest)))
            })
    }
}

// ---------------------------------------------------------------------------------------------
// Sequences of actions
// ---------------------------------------------------------------------------------------------

proof fn lemma_after_parts(disk: Disk, one: Seq<ActionView>, two: Seq<ActionView>)
    ensures
        disk.after(one + two) == disk.after(one).after(two),
    decreases two.len(),
{
    if two.len() == 0 {
        assert(one + two =~= one);
    } else {
        lemma_after_parts(disk, one, two.drop_last());
        assert((one + two).drop_last() =~= one + two.drop_last());
    }
}

proof fn lemma_writes_parts(
    one: Seq<ActionView>,
    two: Seq<ActionView>,
    hash: H256,
    is_state: bool,
)
    ensures
        writes(one + two, hash, is_state) == writes(one, hash, is_state) + writes(
            two,
            hash,
            is_state,
        ),
    decreases two.len(),
{
    if two.len() == 0 {
        assert(one + two =~= one);
        assert(writes(one, hash, is_state) + writes(two, hash, is_state) =~= writes(
            one,
            hash,
            is_state,
        ));
    } else {
        lemma_writes_parts(one, two.drop_last(), hash, is_state);
        assert((one + two).drop_last() =~= one + two.drop_last());
        assert(writes(one + two, hash, is_state) =~= writes(one, hash, is_state) + writes(
            two,
            hash,
            is_state,
        ));
    }
}

/// Whether an action writes no chunk.
spec fn writes_nothing(action: ActionView) -> bool {
    action !is WriteStateChunk && action !is WriteBlockChunk
}

proof fn lemma_no_writes(actions: Seq<ActionView>, hash: H256, is_state: bool)
    requires
        forall|i: int| 0 <= i < actions.len() ==> writes_nothing(#[trigger] actions[i]),
    ensures
        writes(actions, hash, is_state) == Seq::<Seq<u8>>::empty(),
    decreases actions.len(),
{
    if actions.len() > 0 {
        let front = actions.drop_last();
        assert(writes_nothing(actions[actions.len() - 1]));
        assert forall|i: int| 0 <= i < front.len() implies writes_nothing(#[trigger] front[i]) by {
            assert(front[i] == actions[i]);
        }
        lemma_no_writes(front, hash, is_state);
    }
}

/// What a call of a feeding that goes well asks for, when the restoration has a writer.
spec fn fed_actions(
    before: ServiceView,
    hash: H256,
    chunk: Seq<u8>,
    is_state: bool,
    host: Host,
) -> Seq<ActionView> {
    let rest = before.restoration->0;
    processing_actions(rest, hash, chunk, is_state, host) + before.counting_actions(
        rest.without(hash, is_state),
        host,
    )
}

/// The writes of a feeding: the chunk, if it is wanted.
proof fn lemma_fed_writes(
    before: ServiceView,
    hash: H256,
    chunk: Seq<u8>,
    is_state: bool,
    host: Host,
    h: H256,
    s: bool,
)
    requires
        before.restoration is Some,
        before.restoration->0.writer,
    ensures
        writes(fed_actions(before, hash, chunk, is_state, host), h, s) == if h == hash && s
            == is_state && before.restoration->0.wants(hash, is_state) {
            seq![chunk]
        } else {
            Seq::empty()
        },
{
    let rest = before.restoration->0;
    let processing = processing_actions(rest, hash, chunk, is_state, host);
    let counting = before.counting_actions(rest.without(hash, is_state), host);
    lemma_writes_parts(processing, counting, h, s);
    assert forall|i: int| 0 <= i < counting.len() implies writes_nothing(
        #[trigger] counting[i],
    ) by {}
    lemma_no_writes(counting, h, s);
    if rest.wants(hash, is_state) {
        let reading = processing.drop_last();
        assert forall|i: int| 0 <= i < reading.len() implies writes_nothing(
            #[trigger] reading[i],
        ) by {}
        lemma_no_writes(reading, h, s);
    } else {
        lemma_no_writes(processing, h, s);
    }
    assert(writes(processing, h, s) + writes(counting, h, s) =~= writes(processing, h, s));
    assert(Seq::<Seq<u8>>::empty() + seq![chunk] =~= seq![chunk]);
    assert(Seq::<Seq<u8>>::empty() + Seq::<Seq<u8>>::empty() =~= Seq::<Seq<u8>>::empty());
}

// ---------------------------------------------------------------------------------------------
// What is written
// ---------------------------------------------------------------------------------------------

/// Whether a chunk of the given hash is in the manifest as one of the given kind.
pub open spec fn is_listed(manifest: ManifestView, hash: H256, is_state: bool) -> bool {
    if is_state {
        manifest.state_hashes.to_set().contains(hash)
    } else {
        manifest.block_hashes.to_set().contains(hash)
    }
}

/// What a call asks for, on a restoration with a writer.
proof fn lemma_call_actions(
    begun: ServiceView,
    manifest: ManifestView,
    leftover: Option<PathView>,
    calls: Seq<Call>,
)
    requires
        just_begun(begun, manifest, true, leftover),
        all_go_well(begun, calls),
        calls.len() > 0,
        calls.last() !is Take,
    ensures
        ({
            let front = calls.drop_last();
            let before = after_calls(begun, front);
            before.called(calls.last()).actions() == match calls.last() {
                Call::Feed { hash, chunk, is_state, host } if !all_fed(front, manifest) =>
                    fed_actions(before, hash, chunk, is_state, host),
                _ => nothing(),
            }
        }),
{
    let front = calls.drop_last();
    let before = after_calls(begun, front);
    lemma_stands(begun, manifest, true, leftover, front);
    match calls.last() {
        Call::Feed { hash, chunk, is_state, host } => {
            if all_fed(front, manifest) {
                assert(before.called(calls.last()).actions() =~= nothing());
            } else {
                law_feed_actions(before, hash, chunk, is_state, host);
            }
        },
        _ => {
            assert(before.called(calls.last()).actions() =~= nothing());
        },
    }
}

proof fn lemma_no_snapshot_front(calls: Seq<Call>)
    requires
        no_snapshot(calls),
        calls.len() > 0,
    ensures
        no_snapshot(calls.drop_last()),
        calls.last() !is Take,
{
    let front = calls.drop_last();
    assert(calls[calls.len() - 1] !is Take);
    assert forall|i: int| 0 <= i < front.len() implies (#[trigger] front[i]) !is Take by {
        assert(front[i] == calls[i]);
    }
}

/// What is left to be fed wants a chunk exactly if it is listed and has not been fed.
proof fn lemma_wants(
    manifest: ManifestView,
    leftover: Option<PathView>,
    calls: Seq<Call>,
    hash: H256,
    is_state: bool,
)
    ensures
        remaining(manifest, true, leftover, calls).wants(hash, is_state) <==> is_listed(
            manifest,
            hash,
            is_state,
        ) && !is_fed(calls, hash, is_state),
{
}

proof fn lemma_writes(
    begun: ServiceView,
    manifest: ManifestView,
    leftover: Option<PathView>,
    calls: Seq<Call>,
    hash: H256,
    is_state: bool,
)
    requires
        just_begun(begun, manifest, true, leftover),
        all_go_well(begun, calls),
        no_snapshot(calls),
    ensures
        writes(asked_by(begun, calls), hash, is_state) == if is_listed(manifest, hash, is_state)
            && is_fed(calls, hash, is_state) {
            seq![first_fed(calls, hash, is_state)]
        } else {
            Seq::empty()
        },
    decreases calls.len(),
{
    if calls.len() > 0 {
        let front = calls.drop_last();
        let before = after_calls(begun, front);
        let actions = before.called(calls.last()).actions();
        let empty = Seq::<Seq<u8>>::empty();
        lemma_no_snapshot_front(calls);
        lemma_writes(begun, manifest, leftover, front, hash, is_state);
        lemma_writes_parts(asked_by(begun, front), actions, hash, is_state);
        lemma_call_actions(begun, manifest, leftover, calls);
        lemma_is_fed_push(calls);
        lemma_stands(begun, manifest, true, leftover, front);
        lemma_wants(manifest, leftover, front, hash, is_state);
        if let Call::Feed { hash: h, chunk, is_state: s, host } = calls.last() {
            if !all_fed(front, manifest) {
                lemma_fed_writes(before, h, chunk, s, host, hash, is_state);
            }
        }
        assert(writes(asked_by(begun, front), hash, is_state) + empty =~= writes(
            asked_by(begun, front),
            hash,
            is_state,
        ));
        assert(forall|data: Seq<u8>| #[trigger] (empty + seq![data]) =~= seq![data]);
    }
}

/// While a snapshot is recovered, each chunk of the manifest is written once, as it came when it was
/// first fed; and no other chunk is written.
pub proof fn law_each_chunk_written_once(
    service: ServiceView,
    manifest: ManifestView,
    calls: Seq<Call>,
    hash: H256,
    is_state: bool,
    host: Host,
)
    requires
        answers(host),
        service.idle(),
        service.init_restore_run(manifest, true, host).result is Ok,
        all_go_well(service.init_restore_run(manifest, true, host).service, calls),
        no_snapshot(calls),
    ensures
        ({
            let init = service.init_restore_run(manifest, true, host);
            writes(init.actions() + asked_by(init.service, calls), hash, is_state) == if is_listed(
                manifest,
                hash,
                is_state,
            ) && is_fed(calls, hash, is_state) {
                seq![first_fed(calls, hash, is_state)]
            } else {
                Seq::empty()
            }
        }),
{
    let init = service.init_restore_run(manifest, true, host);
    law_init_outcome(service, manifest, true, host);
    law_init_actions(service, manifest, true, host);
    lemma_writes(
        init.service,
        manifest,
        Some(service.restoration_dir()),
        calls,
        hash,
        is_state,
    );
    let beginning = init.actions();
    assert forall|i: int| 0 <= i < beginning.len() implies writes_nothing(
        #[trigger] beginning[i],
    ) by {}
    lemma_no_writes(beginning, hash, is_state);
    let asked = asked_by(init.service, calls);
    lemma_writes_parts(beginning, asked, hash, is_state);
    assert(Seq::<Seq<u8>>::empty() + writes(asked, hash, is_state) =~= writes(
        asked,
        hash,
        is_state,
    ));
}

// ---------------------------------------------------------------------------------------------
// What is read back
// ---------------------------------------------------------------------------------------------

/// What processing a chunk does to the disk: it is written, if it is wanted.
proof fn lemma_processing_disk(
    disk: Disk,
    before: ServiceView,
    hash: H256,
    chunk: Seq<u8>,
    is_state: bool,
    host: Host,
)
    requires
        before.restoration is Some,
        before.restoration->0.writer,
    ensures
        disk.after(
            processing_actions(before.restoration->0, hash, chunk, is_state, host),
        ) == if before.restoration->0.wants(hash, is_state) {
            disk.with_chunk(hash, chunk)
        } else {
            disk
        },
{
    let processing = processing_actions(before.restoration->0, hash, chunk, is_state, host);
    if before.restoration->0.wants(hash, is_state) {
        let reading = processing.drop_last();
        assert(reading.drop_last().drop_last() =~= nothing());
        reveal_with_fuel(Disk::after, 4);
    }
}

/// Whether the chunks that were fed so far lie in `dir`.
#[verifier::opaque]
spec fn holds_fed(disk: Disk, dir: PathView, manifest: ManifestView, calls: Seq<Call>) -> bool {
    &&& disk.snapshots.dom().contains(dir)
    &&& forall|hash: H256, is_state: bool| #[trigger]
        is_fed(calls, hash, is_state) && is_listed(manifest, hash, is_state) && !is_listed(
            manifest,
            hash,
            !is_state,
        ) ==> {
            &&& disk.snapshots[dir].chunks.dom().contains(hash)
            &&& disk.snapshots[dir].chunks[hash] == first_fed(calls, hash, is_state)
        }
}

/// Processing a chunk keeps what was fed so far on the disk, and adds the chunk.
proof fn lemma_chunk_held(
    disk: Disk,
    dir: PathView,
    manifest: ManifestView,
    leftover: Option<PathView>,
    calls: Seq<Call>,
)
    requires
        calls.len() > 0,
        calls.last() is Feed,
        disk.writer == Some(dir),
        holds_fed(disk, dir, manifest, calls.drop_last()),
    ensures
        ({
            let hash = calls.last()->Feed_hash;
            let rest = remaining(manifest, true, leftover, calls.drop_last());
            let next = if rest.wants(hash, calls.last()->is_state) {
                disk.with_chunk(hash, calls.last()->chunk)
            } else {
                disk
            };
            next.writer == Some(dir) && holds_fed(next, dir, manifest, calls)
        }),
{
    reveal(holds_fed);
    let front = calls.drop_last();
    let hash = calls.last()->Feed_hash;
    let is_state = calls.last()->is_state;
    let rest = remaining(manifest, true, leftover, front);
    lemma_wants(manifest, leftover, front, hash, is_state);
    let next = if rest.wants(hash, is_state) {
        disk.with_chunk(hash, calls.last()->chunk)
    } else {
        disk
    };
    assert forall|h: H256, s: bool| #[trigger]
        is_fed(calls, h, s) && is_listed(manifest, h, s) && !is_listed(manifest, h, !s) implies {
        &&& next.snapshots[dir].chunks.dom().contains(h)
        &&& next.snapshots[dir].chunks[h] == first_fed(calls, h, s)
    } by {
        lemma_is_fed_push(calls);
        if is_fed(front, h, s) {
            assert(first_fed(calls, h, s) == first_fed(front, h, s));
        }
    }
}

/// What lies in `dir`, lies in another directory that has the same chunks.
proof fn lemma_moved(
    disk: Disk,
    dir: PathView,
    moved: Disk,
    to: PathView,
    manifest: ManifestView,
    calls: Seq<Call>,
)
    requires
        holds_fed(disk, dir, manifest, calls),
        moved.snapshots.dom().contains(to),
        moved.snapshots[to].chunks == disk.snapshots[dir].chunks,
    ensures
        disk.snapshots.dom().contains(dir),
        holds_fed(moved, to, manifest, calls),
{
    reveal(holds_fed);
}

proof fn lemma_lies(disk: Disk, dir: PathView, manifest: ManifestView, calls: Seq<Call>)
    requires
        holds_fed(disk, dir, manifest, calls),
    ensures
        disk.snapshots.dom().contains(dir),
{
    reveal(holds_fed);
}

/// A chunk that lies in a directory can be read there.
proof fn lemma_read_held(
    disk: Disk,
    dir: PathView,
    manifest: ManifestView,
    calls: Seq<Call>,
    hash: H256,
    is_state: bool,
)
    requires
        holds_fed(disk, dir, manifest, calls),
        all_fed(calls, manifest),
        is_listed(manifest, hash, is_state),
        !is_listed(manifest, hash, !is_state),
    ensures
        disk.read(ChunkReadView { dir, hash }) == Some(first_fed(calls, hash, is_state)),
{
    reveal(holds_fed);
    assert(is_fed(calls, hash, is_state));
}

/// A call that asks for nothing and feeds nothing new keeps what is on the disk.
proof fn lemma_held_on(
    disk: Disk,
    dir: PathView,
    manifest: ManifestView,
    calls: Seq<Call>,
)
    requires
        calls.len() > 0,
        holds_fed(disk, dir, manifest, calls.drop_last()),
        calls.last() is Feed ==> all_fed(calls.drop_last(), manifest),
    ensures
        holds_fed(disk, dir, manifest, calls),
{
    reveal(holds_fed);
    let front = calls.drop_last();
    assert forall|h: H256, s: bool| #[trigger]
        is_fed(calls, h, s) && is_listed(manifest, h, s) && !is_listed(manifest, h, !s) implies {
        &&& disk.snapshots[dir].chunks.dom().contains(h)
        &&& disk.snapshots[dir].chunks[h] == first_fed(calls, h, s)
    } by {
        lemma_is_fed_push(calls);
        assert(is_fed(front, h, s));
        assert(first_fed(calls, h, s) == first_fed(front, h, s));
    }
}

proof fn lemma_after_one(disk: Disk, action: ActionView)
    ensures
        disk.after(seq![action]) == disk.performed(action),
{
    reveal_with_fuel(Disk::after, 2);
    assert(seq![action].drop_last() =~= nothing());
}

/// Whether an action leaves the snapshots on a disk and the writer alone.
spec fn leaves_disk(action: ActionView) -> bool {
    match action {
        ActionView::OpenWriter(_) => false,
        ActionView::WriteStateChunk(_, _) => false,
        ActionView::WriteBlockChunk(_, _) => false,
        ActionView::FinishWriter(_) => false,
        ActionView::Rename { .. } => false,
        ActionView::RemoveDirAll(_) => false,
        ActionView::Discard(_) => false,
        _ => true,
    }
}

proof fn lemma_disk_left(disk: Disk, actions: Seq<ActionView>)
    requires
        forall|i: int| 0 <= i < actions.len() ==> leaves_disk(#[trigger] actions[i]),
    ensures
        disk.after(actions) == disk,
    decreases actions.len(),
{
    if actions.len() > 0 {
        let front = actions.drop_last();
        assert(leaves_disk(actions[actions.len() - 1]));
        assert forall|i: int| 0 <= i < front.len() implies leaves_disk(#[trigger] front[i]) by {
            assert(front[i] == actions[i]);
        }
        lemma_disk_left(disk, front);
    }
}

/// What a feeding that finishes a restoration asks for, from the flush up to the swap.
spec fn before_swap(service: ServiceView, rest: RestorationView) -> Seq<ActionView> {
    seq![
        ActionView::FlushDatabase,
        ActionView::StateRoot,
        ActionView::CheckMissing,
        ActionView::FinalizeBlocks(rest.canonical_hashes),
    ] + seq![ActionView::FinishWriter(rest.manifest)] + seq![ActionView::Discard(None)] + seq![
        ActionView::ReplaceClientDb(service.restoration_db()),
        ActionView::HoldReader,
        ActionView::Exists(service.snapshot_dir()),
    ]
}

/// What becomes of the disk up to the swap: the recovered snapshot gets its manifest.
proof fn lemma_before_swap(disk: Disk, service: ServiceView, rest: RestorationView)
    requires
        disk.writer == Some(service.temp_recovery_dir()),
    ensures
        disk.after(before_swap(service, rest)) == (Disk {
            snapshots: disk.snapshots.insert(
                service.temp_recovery_dir(),
                Files {
                    manifest: Some(rest.manifest),
                    ..disk.snapshots[service.temp_recovery_dir()]
                },
            ),
            writer: None,
        }),
{
    let one = seq![
        ActionView::FlushDatabase,
        ActionView::StateRoot,
        ActionView::CheckMissing,
        ActionView::FinalizeBlocks(rest.canonical_hashes),
    ];
    let two = seq![ActionView::FinishWriter(rest.manifest)];
    let three = seq![ActionView::Discard(None)];
    let four = seq![
        ActionView::ReplaceClientDb(service.restoration_db()),
        ActionView::HoldReader,
        ActionView::Exists(service.snapshot_dir()),
    ];
    let finished = disk.performed(two[0]);
    let closed = finished.performed(three[0]);
    assert forall|i: int| 0 <= i < one.len() implies leaves_disk(#[trigger] one[i]) by {}
    assert forall|i: int| 0 <= i < four.len() implies leaves_disk(#[trigger] four[i]) by {}
    lemma_disk_left(disk, one);
    lemma_after_one(disk, two[0]);
    lemma_after_one(finished, three[0]);
    lemma_disk_left(closed, four);
    lemma_after_parts(disk, one, two);
    lemma_after_parts(disk, one + two, three);
    lemma_after_parts(disk, one + two + three, four);
}

/// What becomes of the disk with the swap: what was recovered lies where the current snapshot does.
proof fn lemma_swap(disk: Disk, service: ServiceView, host: Host)
    requires
        disk.snapshots.dom().contains(service.temp_recovery_dir()),
    ensures
        ({
            let from = service.temp_recovery_dir();
            let to = service.snapshot_dir();
            let swapped = disk.after(swap(service, host));
            &&& swapped.snapshots.dom().contains(to)
            &&& swapped.snapshots[to] == disk.snapshots[from]
        }),
{
    let from = service.temp_recovery_dir();
    let to = service.snapshot_dir();
    let removing = if host(ActionView::Exists(to)) == ReplyView::Flag(true) {
        seq![ActionView::RemoveDirAll(to)]
    } else {
        nothing()
    };
    let renaming = ActionView::Rename { from, to };
    lemma_temp_apart(service);
    lemma_after_one(disk, ActionView::RemoveDirAll(to));
    let cleared = disk.after(removing);
    assert(cleared.snapshots.dom().contains(from) && cleared.snapshots[from]
        == disk.snapshots[from]);
    lemma_after_parts(disk, removing, seq![renaming]);
    lemma_after_one(cleared, renaming);
}

/// What a feeding asks for to put the recovered snapshot in its place.
spec fn swap(service: ServiceView, host: Host) -> Seq<ActionView> {
    (if host(ActionView::Exists(service.snapshot_dir())) == ReplyView::Flag(true) {
        seq![ActionView::RemoveDirAll(service.snapshot_dir())]
    } else {
        nothing()
    }) + seq![
        ActionView::Rename { from: service.temp_recovery_dir(), to: service.snapshot_dir() },
    ]
}

/// What a feeding asks for at the very end.
spec fn after_swap(service: ServiceView) -> Seq<ActionView> {
    seq![
        ActionView::OpenReader(service.snapshot_dir()),
        ActionView::RemoveDirAll(service.restoration_dir()),
    ]
}

proof fn lemma_counting_parts(service: ServiceView, rest: RestorationView, host: Host)
    requires
        rest.done(),
        rest.writer,
    ensures
        service.counting_actions(rest, host) == before_swap(service, rest) + swap(service, host)
            + after_swap(service),
{
    assert(service.counting_actions(rest, host) =~= before_swap(service, rest) + swap(service, host)
        + after_swap(service));
}

/// What finishing the restoration does to the disk, up to the opening of the recovered snapshot and
/// up to the end.
proof fn lemma_counting_disk(disk: Disk, service: ServiceView, rest: RestorationView, host: Host)
    requires
        disk.writer == Some(service.temp_recovery_dir()),
        disk.snapshots.dom().contains(service.temp_recovery_dir()),
        rest.done(),
        rest.writer,
    ensures
        ({
            let counting = service.counting_actions(rest, host);
            let current = service.snapshot_dir();
            let moved = Files {
                manifest: Some(rest.manifest),
                ..disk.snapshots[service.temp_recovery_dir()]
            };
            let k = counting.len() - 2;
            &&& 0 <= k
            &&& counting[k] == ActionView::OpenReader(current)
            &&& disk.after(counting.take(k)).snapshots.dom().contains(current)
            &&& disk.after(counting.take(k)).snapshots[current] == moved
            &&& disk.after(counting).snapshots.dom().contains(current)
            &&& disk.after(counting).snapshots[current] == moved
        }),
{
    let counting = service.counting_actions(rest, host);
    let first = before_swap(service, rest);
    let second = swap(service, host);
    let third = after_swap(service);
    let k = counting.len() - 2;
    lemma_counting_parts(service, rest, host);
    assert(counting.take(k) =~= first + second);
    lemma_before_swap(disk, service, rest);
    lemma_swap(disk.after(first), service, host);
    lemma_after_parts(disk, first, second);
    lemma_after_parts(disk, first + second, third);
    let swapped = disk.after(first + second);
    assert(third =~= seq![third[0]] + seq![third[1]]);
    lemma_after_one(swapped, third[0]);
    lemma_after_one(swapped, third[1]);
    lemma_after_parts(swapped, seq![third[0]], seq![third[1]]);
    law_directories_apart(service);
}

/// What a feeding that is not the last does to the disk beyond processing its chunk: nothing.
proof fn lemma_flush_disk(disk: Disk, service: ServiceView, rest: RestorationView, host: Host)
    requires
        !rest.done(),
    ensures
        disk.after(service.counting_actions(rest, host)) == disk,
{
    let counting = service.counting_actions(rest, host);
    assert forall|i: int| 0 <= i < counting.len() implies leaves_disk(#[trigger] counting[i]) by {}
    lemma_disk_left(disk, counting);
}

/// The recovered snapshot lies apart from the current one.
proof fn lemma_temp_apart(service: ServiceView)
    ensures
        !is_within(service.temp_recovery_dir(), service.snapshot_dir()),
{
    law_directories_apart(service);
    let n = service.root.names.len() as int;
    let temp = service.temp_recovery_dir().names;
    let current = service.snapshot_dir().names;
    let restoration = service.restoration_dir().names;
    assert(temp.take(n + 1) =~= restoration);
    if is_within(service.temp_recovery_dir(), service.snapshot_dir()) {
        assert(current =~= temp.subrange(0, n + 1));
        assert(restoration =~= current);
    }
}

/// Where the disk stands while a snapshot is recovered.
proof fn lemma_recovering(
    start: Disk,
    begun: ServiceView,
    manifest: ManifestView,
    leftover: Option<PathView>,
    calls: Seq<Call>,
)
    requires
        just_begun(begun, manifest, true, leftover),
        all_go_well(begun, calls),
        no_snapshot(calls),
        start.writer == Some(begun.temp_recovery_dir()),
        start.snapshots.dom().contains(begun.temp_recovery_dir()),
        !all_fed(calls, manifest),
    ensures
        ({
            let disk = start.after(asked_by(begun, calls));
            &&& disk.writer == Some(begun.temp_recovery_dir())
            &&& holds_fed(disk, begun.temp_recovery_dir(), manifest, calls)
        }),
    decreases calls.len(),
{
    let temp = begun.temp_recovery_dir();
    if calls.len() > 0 {
        let front = calls.drop_last();
        let last = calls.len() - 1;
        let before = after_calls(begun, front);
        let disk = start.after(asked_by(begun, front));
        let actions = before.called(calls.last()).actions();
        assert(calls.take(last) =~= front);
        assert(calls.take(last + 1) =~= calls);
        lemma_no_snapshot_front(calls);
        if all_fed(front, manifest) {
            lemma_stands(begun, manifest, true, leftover, front);
            lemma_all_fed_stays(calls, manifest);
        }
        lemma_recovering(start, begun, manifest, leftover, front);
        lemma_call_actions(begun, manifest, leftover, calls);
        lemma_after_parts(start, asked_by(begun, front), actions);
        lemma_stands(begun, manifest, true, leftover, front);
        if let Call::Feed { hash, chunk, is_state, host } = calls.last() {
            let rest = before.restoration->0;
            let left = rest.without(hash, is_state);
            let processing = processing_actions(rest, hash, chunk, is_state, host);
            lemma_finishing(manifest, true, leftover, calls, last);
            lemma_after_parts(disk, processing, before.counting_actions(left, host));
            lemma_processing_disk(disk, before, hash, chunk, is_state, host);
            lemma_flush_disk(disk.after(processing), before, left, host);
            lemma_chunk_held(disk, temp, manifest, leftover, calls);
        } else {
            lemma_held_on(disk, temp, manifest, calls);
        }
    } else {
        reveal(holds_fed);
        assert forall|hash: H256, is_state: bool| !#[trigger] is_fed(calls, hash, is_state) by {}
    }
}

/// Whether the hosts of these calls read back the manifests that the writer wrote, from this disk
/// on.
#[verifier::opaque]
pub open spec fn all_read_back(start: Disk, service: ServiceView, calls: Seq<Call>) -> bool {
    forall|i: int|
        0 <= i < calls.len() ==> ((#[trigger] calls[i]) matches Call::Feed { host, .. }
            ==> start.after(asked_by(service, calls.take(i))).reads_back(
            after_calls(service, calls.take(i)).called(calls[i]).actions(),
            host,
        ))
}

proof fn lemma_read_back_last(start: Disk, begun: ServiceView, calls: Seq<Call>)
    requires
        all_read_back(start, begun, calls),
        calls.len() > 0,
    ensures
        all_read_back(start, begun, calls.drop_last()),
        calls.last() matches Call::Feed { host, .. } ==> start.after(
            asked_by(begun, calls.drop_last()),
        ).reads_back(after_calls(begun, calls.drop_last()).called(calls.last()).actions(), host),
{
    reveal(all_read_back);
    let front = calls.drop_last();
    let last = calls.len() - 1;
    assert(calls.take(last) =~= front);
    assert(calls[last] == calls.last());
    assert forall|i: int| 0 <= i < front.len() implies ((#[trigger] front[i]) matches Call::Feed {
        host,
        ..
    } ==> start.after(asked_by(begun, front.take(i))).reads_back(
        after_calls(begun, front.take(i)).called(front[i]).actions(),
        host,
    )) by {
        assert(front[i] == calls[i]);
        assert(front.take(i) =~= calls.take(i));
    }
}

/// The opening of a snapshot whose manifest was written gives that manifest.
proof fn lemma_opened(
    disk: Disk,
    actions: Seq<ActionView>,
    host: Host,
    k: int,
    dir: PathView,
    manifest: ManifestView,
)
    requires
        disk.reads_back(actions, host),
        0 <= k < actions.len(),
        actions[k] == ActionView::OpenReader(dir),
        disk.after(actions.take(k)).snapshots.dom().contains(dir),
        disk.after(actions.take(k)).snapshots[dir].manifest == Some(manifest),
    ensures
        host(ActionView::OpenReader(dir)) == ReplyView::Reader(Ok(manifest)),
{
}

/// What the feeding that finishes a restoration does to the disk, and what it opens.
proof fn lemma_finishing_disk(
    disk: Disk,
    before: ServiceView,
    hash: H256,
    chunk: Seq<u8>,
    is_state: bool,
    host: Host,
)
    requires
        before.restoration is Some,
        before.restoration->0.writer,
        before.restoration->0.without(hash, is_state).done(),
        disk.writer == Some(before.temp_recovery_dir()),
        disk.snapshots.dom().contains(before.temp_recovery_dir()),
        disk.reads_back(fed_actions(before, hash, chunk, is_state, host), host),
    ensures
        ({
            let rest = before.restoration->0;
            let written = if rest.wants(hash, is_state) {
                disk.with_chunk(hash, chunk)
            } else {
                disk
            };
            let end = disk.after(fed_actions(before, hash, chunk, is_state, host));
            let current = before.snapshot_dir();
            &&& end.snapshots.dom().contains(current)
            &&& end.snapshots[current].chunks
                == written.snapshots[before.temp_recovery_dir()].chunks
            &&& host(ActionView::OpenReader(current)) == ReplyView::Reader(Ok(rest.manifest))
        }),
{
    let rest = before.restoration->0;
    let left = rest.without(hash, is_state);
    let processing = processing_actions(rest, hash, chunk, is_state, host);
    let counting = before.counting_actions(left, host);
    let actions = fed_actions(before, hash, chunk, is_state, host);
    let k = counting.len() - 2;
    let at = processing.len() + k;
    lemma_after_parts(disk, processing, counting);
    lemma_processing_disk(disk, before, hash, chunk, is_state, host);
    lemma_counting_disk(disk.after(processing), before, left, host);
    assert(actions.take(at) =~= processing + counting.take(k));
    lemma_after_parts(disk, processing, counting.take(k));
    assert(actions[at] == counting[k]);
    lemma_opened(disk, actions, host, at, before.snapshot_dir(), rest.manifest);
}

/// The feeding that finishes a restoration opens what was recovered, with the manifest that the
/// restoration began from.
proof fn lemma_recovered_now(
    start: Disk,
    begun: ServiceView,
    manifest: ManifestView,
    leftover: Option<PathView>,
    calls: Seq<Call>,
)
    requires
        just_begun(begun, manifest, true, leftover),
        all_go_well(begun, calls),
        no_snapshot(calls),
        start.writer == Some(begun.temp_recovery_dir()),
        start.snapshots.dom().contains(begun.temp_recovery_dir()),
        all_read_back(start, begun, calls),
        calls.len() > 0,
        calls.last() is Feed,
        !all_fed(calls.drop_last(), manifest),
        all_fed(calls, manifest),
    ensures
        after_calls(begun, calls).reader == Some(
            ReaderView { dir: begun.snapshot_dir(), manifest },
        ),
        holds_fed(start.after(asked_by(begun, calls)), begun.snapshot_dir(), manifest, calls),
{
    let temp = begun.temp_recovery_dir();
    let current = begun.snapshot_dir();
    let front = calls.drop_last();
    let last = calls.len() - 1;
    let before = after_calls(begun, front);
    let disk = start.after(asked_by(begun, front));
    assert(calls.take(last) =~= front);
    assert(calls.take(last + 1) =~= calls);
    lemma_no_snapshot_front(calls);
    lemma_recovering(start, begun, manifest, leftover, front);
    lemma_lies(disk, temp, manifest, front);
    lemma_call_actions(begun, manifest, leftover, calls);
    lemma_read_back_last(start, begun, calls);
    lemma_after_parts(
        start,
        asked_by(begun, front),
        before.called(calls.last()).actions(),
    );
    lemma_stands(begun, manifest, true, leftover, front);
    lemma_reader(begun, manifest, true, leftover, calls, last);
    if let Call::Feed { hash, chunk, is_state, host } = calls.last() {
        lemma_finishing(manifest, true, leftover, calls, last);
        lemma_finishing_disk(disk, before, hash, chunk, is_state, host);
        lemma_chunk_held(disk, temp, manifest, leftover, calls);
        let written = if before.restoration->0.wants(hash, is_state) {
            disk.with_chunk(hash, chunk)
        } else {
            disk
        };
        let end = disk.after(fed_actions(before, hash, chunk, is_state, host));
        lemma_moved(written, temp, end, current, manifest, calls);
    }
}

proof fn lemma_recovered(
    start: Disk,
    begun: ServiceView,
    manifest: ManifestView,
    leftover: Option<PathView>,
    calls: Seq<Call>,
)
    requires
        just_begun(begun, manifest, true, leftover),
        all_go_well(begun, calls),
        no_snapshot(calls),
        start.writer == Some(begun.temp_recovery_dir()),
        start.snapshots.dom().contains(begun.temp_recovery_dir()),
        all_read_back(start, begun, calls),
        all_fed(calls, manifest),
    ensures
        after_calls(begun, calls).reader == Some(
            ReaderView { dir: begun.snapshot_dir(), manifest },
        ),
        holds_fed(start.after(asked_by(begun, calls)), begun.snapshot_dir(), manifest, calls),
    decreases calls.len(),
{
    let front = calls.drop_last();
    let last = calls.len() - 1;
    let before = after_calls(begun, front);
    assert(calls.take(last) =~= front);
    assert(calls.take(last + 1) =~= calls);
    lemma_no_snapshot_front(calls);
    if all_fed(front, manifest) {
        lemma_read_back_last(start, begun, calls);
        lemma_recovered(start, begun, manifest, leftover, front);
        lemma_call_actions(begun, manifest, leftover, calls);
        lemma_after_parts(
            start,
            asked_by(begun, front),
            before.called(calls.last()).actions(),
        );
        lemma_held_on(
            start.after(asked_by(begun, front)),
            begun.snapshot_dir(),
            manifest,
            calls,
        );
        if calls.last() is Feed {
            lemma_reader(begun, manifest, true, leftover, calls, last);
        }
    } else {
        lemma_is_fed_push(calls);
        if calls.last() !is Feed {
            lemma_other_call(calls, manifest);
        }
        lemma_recovered_now(start, begun, manifest, leftover, calls);
    }
}

/// Where the disk stands when a restoration has begun that recovers its snapshot.
proof fn lemma_writer_opened(disk: Disk, service: ServiceView, manifest: ManifestView, host: Host)
    requires
        answers(host),
        service.idle(),
        service.init_restore_run(manifest, true, host).result is Ok,
    ensures
        ({
            let start = disk.after(service.init_restore_run(manifest, true, host).actions());
            &&& start.writer == Some(service.temp_recovery_dir())
            &&& start.snapshots.dom().contains(service.temp_recovery_dir())
        }),
{
    law_init_actions(service, manifest, true, host);
    let actions = service.init_restore_run(manifest, true, host).actions();
    let n = actions.len() - 3;
    let opening = ActionView::OpenWriter(service.temp_recovery_dir());
    let rest = seq![
        ActionView::OpenDatabase(service.restoration_db()),
        ActionView::StartRebuild {
            genesis: service.genesis_block,
            pruning: service.pruning,
            manifest,
        },
    ];
    assert(actions =~= actions.take(n) + seq![opening] + rest);
    let cleared = disk.after(actions.take(n));
    lemma_after_parts(disk, actions.take(n), seq![opening]);
    lemma_after_parts(disk, actions.take(n) + seq![opening], rest);
    lemma_after_one(cleared, opening);
    assert forall|i: int| 0 <= i < rest.len() implies leaves_disk(#[trigger] rest[i]) by {}
    lemma_disk_left(cleared.performed(opening), rest);
}

/// A recovered snapshot gives back what was fed. With hosts that read back the manifest that their
/// writer wrote, the manifest of the current snapshot is the one that the restoration began from.
/// Each chunk that this lists under one kind only is read as it came when it was first fed as one of
/// that kind.
pub proof fn law_recovered_snapshot_reads_back(
    disk: Disk,
    service: ServiceView,
    manifest: ManifestView,
    calls: Seq<Call>,
    host: Host,
)
    requires
        answers(host),
        service.idle(),
        service.init_restore_run(manifest, true, host).result is Ok,
        all_go_well(service.init_restore_run(manifest, true, host).service, calls),
        all_fed(calls, manifest),
        no_snapshot(calls),
        all_read_back(
            disk.after(service.init_restore_run(manifest, true, host).actions()),
            service.init_restore_run(manifest, true, host).service,
            calls,
        ),
    ensures
        ({
            let init = service.init_restore_run(manifest, true, host);
            let end = after_calls(init.service, calls);
            let after = disk.after(init.actions() + asked_by(init.service, calls));
            &&& end.manifest() == Some(manifest)
            &&& forall|hash: H256, is_state: bool|
                is_listed(manifest, hash, is_state) && !is_listed(manifest, hash, !is_state) ==> {
                    &&& (#[trigger] end.chunk(hash)) is Some
                    &&& after.read(end.chunk(hash)->0) == Some(
                        #[trigger] first_fed(calls, hash, is_state),
                    )
                }
        }),
{
    let init = service.init_restore_run(manifest, true, host);
    let start = disk.after(init.actions());
    law_init_outcome(service, manifest, true, host);
    lemma_writer_opened(disk, service, manifest, host);
    lemma_recovered(start, init.service, manifest, Some(service.restoration_dir()), calls);
    lemma_after_parts(disk, init.actions(), asked_by(init.service, calls));
    let end = after_calls(init.service, calls);
    let after = disk.after(init.actions() + asked_by(init.service, calls));
    assert forall|hash: H256, is_state: bool|
        is_listed(manifest, hash, is_state) && !is_listed(manifest, hash, !is_state) implies {
        &&& (#[trigger] end.chunk(hash)) is Some
        &&& after.read(end.chunk(hash)->0) == Some(#[trigger] first_fed(calls, hash, is_state))
    } by {
        lemma_read_held(after, init.service.snapshot_dir(), manifest, calls, hash, is_state);
    }
}

proof fn lemma_reader_stays(
    begun: ServiceView,
    manifest: ManifestView,
    leftover: Option<PathView>,
    calls: Seq<Call>,
)
    requires
        just_begun(begun, manifest, false, leftover),
        all_go_well(begun, calls),
        no_snapshot(calls),
    ensures
        after_calls(begun, calls).reader == begun.reader,
    decreases calls.len(),
{
    if calls.len() > 0 {
        let front = calls.drop_last();
        let last = calls.len() - 1;
        assert(calls.take(last) =~= front);
        assert(calls.take(last + 1) =~= calls);
        lemma_no_snapshot_front(calls);
        lemma_reader_stays(begun, manifest, leftover, front);
        if calls.last() is Feed {
            lemma_reader(begun, manifest, false, leftover, calls, last);
        }
    }
}

/// A restoration that is not to be recovered leaves the manifest and the chunks of the current
/// snapshot as they were before it began.
pub proof fn law_unrecovered_snapshot_stays(
    service: ServiceView,
    manifest: ManifestView,
    calls: Seq<Call>,
    hash: H256,
    host: Host,
)
    requires
        answers(host),
        service.idle(),
        service.init_restore_run(manifest, false, host).result is Ok,
        all_go_well(service.init_restore_run(manifest, false, host).service, calls),
        no_snapshot(calls),
    ensures
        ({
            let begun = service.init_restore_run(manifest, false, host).service;
            let end = after_calls(begun, calls);
            end.manifest() == service.manifest() && end.chunk(hash) == service.chunk(hash)
        }),
{
    law_init_outcome(service, manifest, false, host);
    let begun = service.init_restore_run(manifest, false, host).service;
    lemma_reader_stays(begun, manifest, Some(service.restoration_dir()), calls);
}

} // verus!
