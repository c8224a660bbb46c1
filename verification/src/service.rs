//! The snapshot service: its state, and the operations that need nothing of the host.

use vstd::prelude::*;

use crate::error::Error;
use crate::hash::H256;
use crate::host::DatabaseRestore;
use crate::manifest::{ManifestData, ManifestView};
use crate::path::{DirPath, PathView};
use crate::restoration::{noted, Restoration, RestorationView};
use crate::status::{Algorithm, Progress, RestorationStatus};

verus! {

/// Snapshot service parameters.
#[derive(Debug)]
pub struct ServiceParams {
    /// The chain's genesis block.
    pub genesis_block: Vec<u8>,
    /// State pruning algorithm.
    pub pruning: Algorithm,
    /// The directory to put snapshots in.
    /// Usually "<chain hash>/snapshot"
    pub snapshot_root: DirPath,
}

/// A snapshot that is open for reading.
#[derive(Debug)]
pub struct LooseReader {
    /// The directory that holds the snapshot.
    pub dir: DirPath,
    /// The manifest of the snapshot.
    pub manifest: ManifestData,
}

/// The value of an open snapshot.
#[verifier::ext_equal]
pub struct ReaderView {
    pub dir: PathView,
    pub manifest: ManifestView,
}

impl View for LooseReader {
    type V = ReaderView;

    open spec fn view(&self) -> ReaderView {
        ReaderView { dir: self.dir@, manifest: self.manifest@ }
    }
}

/// A chunk to be read from an open snapshot.
#[derive(Debug)]
pub struct ChunkRead {
    /// The directory that holds the snapshot.
    pub dir: DirPath,
    /// The hash of the chunk.
    pub hash: H256,
}

/// The value of such a read.
pub struct ChunkReadView {
    pub dir: PathView,
    pub hash: H256,
}

impl View for ChunkRead {
    type V = ChunkReadView;

    open spec fn view(&self) -> ChunkReadView {
        ChunkReadView { dir: self.dir@, hash: self.hash }
    }
}

/// A message that the service leaves for later, to be sent to the client's own queue.
#[derive(Debug)]
pub enum ClientIoMessage {
    /// Begin the restoration of the snapshot that this manifest describes.
    BeginRestoration(ManifestData),
    /// Feed a state chunk to the snapshot service.
    FeedStateChunk(H256, Vec<u8>),
    /// Feed a block chunk to the snapshot service.
    FeedBlockChunk(H256, Vec<u8>),
}

/// The snapshot service.
/// This controls taking snapshots and restoring from them.
#[derive(Debug)]
pub struct Service {
    pub(crate) restoration: Option<Restoration>,
    pub(crate) snapshot_root: DirPath,
    pub(crate) pruning: Algorithm,
    pub(crate) status: RestorationStatus,
    pub(crate) reader: Option<LooseReader>,
    pub(crate) genesis_block: Vec<u8>,
    pub(crate) state_chunks: usize,
    pub(crate) block_chunks: usize,
    pub(crate) taking_snapshot: bool,
    pub(crate) restoring_snapshot: bool,
    pub(crate) held: bool,
    pub(crate) swapping: bool,
}

/// The value of a snapshot service.
#[verifier::ext_equal]
pub struct ServiceView {
    /// The restoration, unless an operation holds it.
    pub restoration: Option<RestorationView>,
    pub root: PathView,
    pub pruning: Algorithm,
    /// The status as it was when it last changed its kind.
    pub status: RestorationStatus,
    pub reader: Option<ReaderView>,
    pub genesis_block: Seq<u8>,
    /// Number of state chunks fed since the restoration began.
    pub state_chunks: usize,
    /// Number of block chunks fed since the restoration began.
    pub block_chunks: usize,
    /// Whether the client is at a snapshot.
    pub taking_snapshot: bool,
    /// Whether a restoration may go on feeding.
    pub restoring_snapshot: bool,
    /// Whether an operation holds the restoration.
    pub held: bool,
    /// Whether an operation replaces the current snapshot.
    pub swapping: bool,
}

/// The value of an optional restoration.
pub open spec fn restoration_view(restoration: Option<Restoration>) -> Option<RestorationView> {
    match restoration {
        Some(restoration) => Some(restoration@),
        None => None,
    }
}

/// The value of an optional reader.
pub open spec fn reader_view(reader: Option<LooseReader>) -> Option<ReaderView> {
    match reader {
        Some(reader) => Some(reader@),
        None => None,
    }
}

impl View for Service {
    type V = ServiceView;

    open(crate) spec fn view(&self) -> ServiceView {
        ServiceView {
            restoration: restoration_view(self.restoration),
            root: self.snapshot_root@,
            pruning: self.pruning,
            status: self.status,
            reader: reader_view(self.reader),
            genesis_block: self.genesis_block@,
            state_chunks: self.state_chunks,
            block_chunks: self.block_chunks,
            taking_snapshot: self.taking_snapshot,
            restoring_snapshot: self.restoring_snapshot,
            held: self.held,
            swapping: self.swapping,
        }
    }
}

impl ServiceView {
    /// The directory of the current snapshot.
    pub open spec fn snapshot_dir(self) -> PathView {
        self.root.child("current"@)
    }

    /// The directory of the snapshot that is being taken.
    pub open spec fn temp_snapshot_dir(self) -> PathView {
        self.root.child("in_progress"@)
    }

    /// The directory of the restoration.
    pub open spec fn restoration_dir(self) -> PathView {
        self.root.child("restoration"@)
    }

    /// The path of the database that is being restored.
    pub open spec fn restoration_db(self) -> PathView {
        self.restoration_dir().child("db"@)
    }

    /// The directory of the snapshot that is being recovered.
    pub open spec fn temp_recovery_dir(self) -> PathView {
        self.restoration_dir().child("temp"@)
    }

    /// The status, with the chunks counted as far as they have been fed. The counts are cut to 32
    /// bits.
    pub open spec fn reported_status(self) -> RestorationStatus {
        match self.status {
            RestorationStatus::Ongoing { state_chunks, block_chunks, .. } =>
                RestorationStatus::Ongoing {
                    state_chunks,
                    block_chunks,
                    state_chunks_done: self.state_chunks as u32,
                    block_chunks_done: self.block_chunks as u32,
                },
            other => other,
        }
    }

    /// The manifest of the current snapshot, if there is one.
    pub open spec fn manifest(self) -> Option<ManifestView> {
        match self.reader {
            Some(reader) => Some(reader.manifest),
            None => None,
        }
    }

    /// The read that gets a chunk of the current snapshot, if there is a snapshot.
    pub open spec fn chunk(self, hash: H256) -> Option<ChunkReadView> {
        match self.reader {
            Some(reader) => Some(ChunkReadView { dir: reader.dir, hash }),
            None => None,
        }
    }

    /// Whether no operation holds the restoration, and none replaces the current snapshot.
    pub open spec fn idle(self) -> bool {
        !self.held && !self.swapping
    }

    /// The service once its restoration has been called off.
    pub open spec fn aborted(self) -> Self {
        ServiceView {
            restoration: None,
            status: RestorationStatus::Inactive,
            restoring_snapshot: false,
            held: false,
            ..self
        }
    }

    /// The service once canonical hashes have been provided: they go to the restoration, if there
    /// is one.
    pub open spec fn provided(self, canonical: Seq<(u64, H256)>) -> Self {
        match self.restoration {
            Some(rest) => ServiceView {
                restoration: Some(RestorationView {
                    canonical_hashes: noted(rest.canonical_hashes, canonical),
                    ..rest
                }),
                ..self
            },
            None => self,
        }
    }
}

impl Service {
    /// Get the current snapshot dir.
    pub fn snapshot_dir(&self) -> (dir: DirPath)
        ensures
            dir@ == self@.snapshot_dir(),
    {
        self.snapshot_root.child("current")
    }

    /// Get the temporary snapshot dir.
    pub fn temp_snapshot_dir(&self) -> (dir: DirPath)
        ensures
            dir@ == self@.temp_snapshot_dir(),
    {
        self.snapshot_root.child("in_progress")
    }

    /// Get the restoration directory.
    pub fn restoration_dir(&self) -> (dir: DirPath)
        ensures
            dir@ == self@.restoration_dir(),
    {
        self.snapshot_root.child("restoration")
    }

    /// Restoration db path.
    pub fn restoration_db(&self) -> (dir: DirPath)
        ensures
            dir@ == self@.restoration_db(),
    {
        self.restoration_dir().child("db")
    }

    /// Temporary snapshot recovery path.
    pub fn temp_recovery_dir(&self) -> (dir: DirPath)
        ensures
            dir@ == self@.temp_recovery_dir(),
    {
        self.restoration_dir().child("temp")
    }

    /// Replace the client's database with our own, on `Action::ReplaceClientDb`: hands the text of
    /// the database's path to the handler, and returns what the handler returned.
    pub fn replace_client_db<R: DatabaseRestore>(our_db: &DirPath, db_restore: &R) -> (result:
        Result<(), Error>)
        ensures
            exists|new_db: &str|
                #![trigger new_db@]
                new_db@ == our_db@.text() && call_ensures(
                    R::restore_db,
                    (db_restore, new_db),
                    result,
                ),
    {
        let text = our_db.to_text();
        let new_db = text.as_str();
        assert(new_db@ == our_db@.text());
        db_restore.restore_db(new_db)
    }

    /// Get a reference to the snapshot reader. Not while the current snapshot is being replaced.
    pub fn reader(&self) -> (reader: &Option<LooseReader>)
        requires
            !self@.swapping,
        ensures
            reader_view(*reader) == self@.reader,
    {
        &self.reader
    }

    /// Tick the snapshot service. This tells of any active snapshot being taken: the number of its
    /// accounts, blocks and bytes.
    pub fn tick(&self, progress: &Progress) -> (report: Option<(usize, usize, usize)>)
        ensures
            report == (if self@.taking_snapshot && !progress.done {
                Some((progress.accounts, progress.blocks, progress.size))
            } else {
                None
            }),
    {
        if progress.done || !self.taking_snapshot {
            return None;
        }
        Some((progress.accounts, progress.blocks, progress.size))
    }

    /// The manifest of the current snapshot, if there is one. Not while the current snapshot is
    /// being replaced.
    pub fn manifest(&self) -> (manifest: Option<ManifestData>)
        requires
            !self@.swapping,
        ensures
            match manifest {
                Some(manifest) => self@.manifest() == Some(manifest@),
                None => self@.manifest() is None,
            },
    {
        match &self.reader {
            Some(reader) => Some(reader.manifest.clone()),
            None => None,
        }
    }

    /// The read that gets a chunk of the current snapshot, if there is a snapshot. Not while the
    /// current snapshot is being replaced, nor may it be replaced until the read is done.
    pub fn chunk(&self, hash: H256) -> (read: Option<ChunkRead>)
        requires
            !self@.swapping,
        ensures
            match read {
                Some(read) => self@.chunk(hash) == Some(read@),
                None => self@.chunk(hash) is None,
            },
    {
        match &self.reader {
            Some(reader) => Some(ChunkRead { dir: reader.dir.clone(), hash }),
            None => None,
        }
    }

    /// The chunk that such a read got: none, if the read failed.
    pub fn chunk_read(result: Result<Vec<u8>, Error>) -> (chunk: Option<Vec<u8>>)
        ensures
            chunk == (match result {
                Ok(chunk) => Some(chunk),
                Err(_) => None,
            }),
    {
        match result {
            Ok(chunk) => Some(chunk),
            Err(_) => None,
        }
    }

    /// The status of the restoration.
    pub fn status(&self) -> (status: RestorationStatus)
        ensures
            status == self@.reported_status(),
    {
        match self.status {
            RestorationStatus::Ongoing { state_chunks, block_chunks, .. } =>
                RestorationStatus::Ongoing {
                    state_chunks,
                    block_chunks,
                    state_chunks_done: #[verifier::truncate] (self.state_chunks as u32),
                    block_chunks_done: #[verifier::truncate] (self.block_chunks as u32),
                },
            other => other,
        }
    }

    /// Whether a restoration may go on feeding.
    pub fn restoring(&self) -> (restoring: bool)
        ensures
            restoring == self@.restoring_snapshot,
    {
        self.restoring_snapshot
    }

    /// Tells a restoration that is being fed to give up. Calling a restoration off begins with this,
    /// which need not wait for the operation that holds the restoration.
    pub fn stop_feeding(&mut self)
        ensures
            final(self)@ == (ServiceView { restoring_snapshot: false, ..old(self)@ }),
    {
        self.restoring_snapshot = false;
    }

    /// Whether an operation holds the restoration. Another one has to wait for it: it may begin when
    /// none does.
    pub fn held(&self) -> (held: bool)
        ensures
            held == self@.held,
    {
        self.held
    }

    /// Whether an operation replaces the current snapshot. Who wants to read or replace it has to
    /// wait.
    pub fn swapping(&self) -> (swapping: bool)
        ensures
            swapping == self@.swapping,
    {
        self.swapping
    }

    /// Begin a restoration later, from the client's own queue.
    pub fn begin_restore(&self, manifest: ManifestData) -> (message: ClientIoMessage)
        ensures
            message == ClientIoMessage::BeginRestoration(manifest),
    {
        ClientIoMessage::BeginRestoration(manifest)
    }

    /// Feed a state chunk later, from the client's own queue.
    pub fn restore_state_chunk(&self, hash: H256, chunk: Vec<u8>) -> (message: ClientIoMessage)
        ensures
            message == ClientIoMessage::FeedStateChunk(hash, chunk),
    {
        ClientIoMessage::FeedStateChunk(hash, chunk)
    }

    /// Feed a block chunk later, from the client's own queue.
    pub fn restore_block_chunk(&self, hash: H256, chunk: Vec<u8>) -> (message: ClientIoMessage)
        ensures
            message == ClientIoMessage::FeedBlockChunk(hash, chunk),
    {
        ClientIoMessage::FeedBlockChunk(hash, chunk)
    }

    /// Provide canonical hashes to the restoration, if there is one. Not while an operation holds
    /// the restoration.
    pub fn provide_canon_hashes(&mut self, canonical: &[(u64, H256)])
        requires
            !old(self)@.held,
        ensures
            final(self)@ == old(self)@.provided(canonical@),
    {
        match &mut self.restoration {
            Some(rest) => rest.note_canonical(canonical),
            None => {},
        }
    }
}

} // verus!
