//! What the service asks of its host, and what the host answers.
//!
//! The service decides; the host acts. Each operation of the service is a run of steps: a step asks
//! the host for one action, the host performs it and answers, and the answer leads to the next step,
//! until a step returns the result of the operation.

use std::collections::HashMap;

use vstd::prelude::*;

use crate::error::{Error, IoError};
use crate::hash::H256;
use crate::manifest::{ManifestData, ManifestView};
use crate::path::{DirPath, PathView};
use crate::status::Algorithm;

verus! {

/// External database restoration handler.
pub trait DatabaseRestore: Send + Sync {
    /// Restart with a new backend. Takes ownership of passed database and moves it to a new
    /// location.
    fn restore_db(&self, new_db: &str) -> Result<(), Error>;
}

/// An action that the host performs for the service.
#[derive(Debug)]
pub enum Action<'a> {
    /// Remove a directory and all that is in it.
    RemoveDirAll(DirPath),
    /// Create a directory, and the directories above it that are missing.
    CreateDirAll(DirPath),
    /// Move a directory.
    Rename {
        from: DirPath,
        to: DirPath,
    },
    /// Wait until no other operation replaces the current snapshot and no one reads it, and keep
    /// them out until the operation has opened the new one, or given up.
    HoldReader,
    /// Find out whether a directory exists.
    Exists(DirPath),
    /// Open the snapshot in a directory for reading, and read its manifest.
    OpenReader(DirPath),
    /// Open a directory for writing a snapshot.
    OpenWriter(DirPath),
    /// Set the progress of the snapshot back to its start.
    ResetProgress,
    /// Have the client write a snapshot of the state at the block of this number.
    TakeSnapshot(u64),
    /// Ask the client for its best block number and the length of its pruning history.
    ChainInfo,
    /// Let go of the rebuilders, the writer and the database of the restoration, and remove the
    /// directory, if one is named.
    Discard(Option<DirPath>),
    /// Open the database at this path.
    OpenDatabase(DirPath),
    /// Set up the chain of this genesis block and the rebuilders over the open database.
    StartRebuild {
        genesis: Vec<u8>,
        pruning: Algorithm,
        manifest: ManifestData,
    },
    /// Decompress a chunk.
    Decompress(&'a [u8]),
    /// Feed a decompressed state chunk to the state rebuilder, which gives up when the restoration
    /// is called off under way.
    FeedState(Vec<u8>),
    /// Feed a decompressed block chunk to the block rebuilder, which gives up when the restoration
    /// is called off under way.
    FeedBlocks(Vec<u8>),
    /// Write a state chunk, as it came, to the writer of the restoration.
    WriteStateChunk(H256, &'a [u8]),
    /// Write a block chunk, as it came, to the writer of the restoration.
    WriteBlockChunk(H256, &'a [u8]),
    /// Flush the database that the chunk was fed to.
    FlushDatabase,
    /// Ask the state rebuilder for the root of the state it has rebuilt.
    StateRoot,
    /// Have the state rebuilder check for missing code.
    CheckMissing,
    /// Have the block rebuilder connect its chunks and verify the chain against these hashes.
    FinalizeBlocks(HashMap<u64, H256>),
    /// Have the writer of the restoration finish the snapshot with this manifest.
    FinishWriter(ManifestData),
    /// Replace the client's database by the restored one at this path.
    ReplaceClientDb(DirPath),
}

/// The value of an action.
pub enum ActionView {
    RemoveDirAll(PathView),
    CreateDirAll(PathView),
    Rename { from: PathView, to: PathView },
    HoldReader,
    Exists(PathView),
    OpenReader(PathView),
    OpenWriter(PathView),
    ResetProgress,
    TakeSnapshot(u64),
    ChainInfo,
    Discard(Option<PathView>),
    OpenDatabase(PathView),
    StartRebuild { genesis: Seq<u8>, pruning: Algorithm, manifest: ManifestView },
    Decompress(Seq<u8>),
    FeedState(Seq<u8>),
    FeedBlocks(Seq<u8>),
    WriteStateChunk(H256, Seq<u8>),
    WriteBlockChunk(H256, Seq<u8>),
    FlushDatabase,
    StateRoot,
    CheckMissing,
    FinalizeBlocks(Map<u64, H256>),
    FinishWriter(ManifestView),
    ReplaceClientDb(PathView),
}

impl<'a> View for Action<'a> {
    type V = ActionView;

    open spec fn view(&self) -> ActionView {
        match *self {
            Action::RemoveDirAll(dir) => ActionView::RemoveDirAll(dir@),
            Action::CreateDirAll(dir) => ActionView::CreateDirAll(dir@),
            Action::Rename { from, to } => ActionView::Rename { from: from@, to: to@ },
            Action::HoldReader => ActionView::HoldReader,
            Action::Exists(dir) => ActionView::Exists(dir@),
            Action::OpenReader(dir) => ActionView::OpenReader(dir@),
            Action::OpenWriter(dir) => ActionView::OpenWriter(dir@),
            Action::ResetProgress => ActionView::ResetProgress,
            Action::TakeSnapshot(num) => ActionView::TakeSnapshot(num),
            Action::ChainInfo => ActionView::ChainInfo,
            Action::Discard(Some(dir)) => ActionView::Discard(Some(dir@)),
            Action::Discard(None) => ActionView::Discard(None),
            Action::OpenDatabase(dir) => ActionView::OpenDatabase(dir@),
            Action::StartRebuild { genesis, pruning, manifest } => ActionView::StartRebuild {
                genesis: genesis@,
                pruning,
                manifest: manifest@,
            },
            Action::Decompress(chunk) => ActionView::Decompress(chunk@),
            Action::FeedState(data) => ActionView::FeedState(data@),
            Action::FeedBlocks(data) => ActionView::FeedBlocks(data@),
            Action::WriteStateChunk(hash, chunk) => ActionView::WriteStateChunk(hash, chunk@),
            Action::WriteBlockChunk(hash, chunk) => ActionView::WriteBlockChunk(hash, chunk@),
            Action::FlushDatabase => ActionView::FlushDatabase,
            Action::StateRoot => ActionView::StateRoot,
            Action::CheckMissing => ActionView::CheckMissing,
            Action::FinalizeBlocks(hashes) => ActionView::FinalizeBlocks(hashes@),
            Action::FinishWriter(manifest) => ActionView::FinishWriter(manifest@),
            Action::ReplaceClientDb(db) => ActionView::ReplaceClientDb(db@),
        }
    }
}

/// What the host answers to an action.
#[derive(Debug)]
pub enum Reply {
    /// It is done. To `HoldReader`, `ResetProgress` and `Discard`.
    Unit,
    /// How the file system answered. To `RemoveDirAll`, `CreateDirAll` and `Rename`.
    Io(Result<(), IoError>),
    /// Whether the directory exists. To `Exists`.
    Flag(bool),
    /// The manifest of the snapshot that was opened. To `OpenReader`.
    Reader(Result<ManifestData, Error>),
    /// How the client answered. To `OpenWriter`, `TakeSnapshot`, `StartRebuild`, `FeedState`,
    /// `FeedBlocks`, `WriteStateChunk`, `WriteBlockChunk`, `CheckMissing`, `FinalizeBlocks`,
    /// `FinishWriter` and `ReplaceClientDb`.
    Done(Result<(), Error>),
    /// How the database answered. To `OpenDatabase` and `FlushDatabase`.
    Database(Result<(), String>),
    /// The decompressed chunk. To `Decompress`.
    Bytes(Result<Vec<u8>, Error>),
    /// The root of the rebuilt state. To `StateRoot`.
    Root(H256),
    /// Where the chain stands. To `ChainInfo`.
    Chain {
        best_block_number: u64,
        pruning_history: u64,
    },
}

/// The value of a reply.
pub enum ReplyView {
    Unit,
    Io(Result<(), IoError>),
    Flag(bool),
    Reader(Result<ManifestView, Error>),
    Done(Result<(), Error>),
    Database(Result<(), String>),
    Bytes(Result<Seq<u8>, Error>),
    Root(H256),
    Chain { best_block_number: u64, pruning_history: u64 },
}

impl View for Reply {
    type V = ReplyView;

    open spec fn view(&self) -> ReplyView {
        match *self {
            Reply::Unit => ReplyView::Unit,
            Reply::Io(result) => ReplyView::Io(result),
            Reply::Flag(flag) => ReplyView::Flag(flag),
            Reply::Reader(Ok(manifest)) => ReplyView::Reader(Ok(manifest@)),
            Reply::Reader(Err(e)) => ReplyView::Reader(Err(e)),
            Reply::Done(result) => ReplyView::Done(result),
            Reply::Database(result) => ReplyView::Database(result),
            Reply::Bytes(Ok(data)) => ReplyView::Bytes(Ok(data@)),
            Reply::Bytes(Err(e)) => ReplyView::Bytes(Err(e)),
            Reply::Root(root) => ReplyView::Root(root),
            Reply::Chain { best_block_number, pruning_history } => ReplyView::Chain {
                best_block_number,
                pruning_history,
            },
        }
    }
}

/// The kinds of reply.
#[derive(Clone, Copy, PartialEq, Eq, Structural, Debug)]
pub enum ReplyKind {
    Unit,
    Io,
    Flag,
    Reader,
    Done,
    Database,
    Bytes,
    Root,
    Chain,
}

impl ReplyView {
    /// The kind of this reply.
    pub open spec fn kind(self) -> ReplyKind {
        match self {
            ReplyView::Unit => ReplyKind::Unit,
            ReplyView::Io(_) => ReplyKind::Io,
            ReplyView::Flag(_) => ReplyKind::Flag,
            ReplyView::Reader(_) => ReplyKind::Reader,
            ReplyView::Done(_) => ReplyKind::Done,
            ReplyView::Database(_) => ReplyKind::Database,
            ReplyView::Bytes(_) => ReplyKind::Bytes,
            ReplyView::Root(_) => ReplyKind::Root,
            ReplyView::Chain { .. } => ReplyKind::Chain,
        }
    }
}

impl ActionView {
    /// The kind of reply that this action is answered with.
    pub open spec fn reply_kind(self) -> ReplyKind {
        match self {
            ActionView::RemoveDirAll(_) => ReplyKind::Io,
            ActionView::CreateDirAll(_) => ReplyKind::Io,
            ActionView::Rename { .. } => ReplyKind::Io,
            ActionView::HoldReader => ReplyKind::Unit,
            ActionView::Exists(_) => ReplyKind::Flag,
            ActionView::OpenReader(_) => ReplyKind::Reader,
            ActionView::ResetProgress => ReplyKind::Unit,
            ActionView::ChainInfo => ReplyKind::Chain,
            ActionView::Discard(_) => ReplyKind::Unit,
            ActionView::OpenDatabase(_) => ReplyKind::Database,
            ActionView::Decompress(_) => ReplyKind::Bytes,
            ActionView::FlushDatabase => ReplyKind::Database,
            ActionView::StateRoot => ReplyKind::Root,
            _ => ReplyKind::Done,
        }
    }
}

impl Reply {
    /// The kind of this reply.
    pub fn kind(&self) -> (kind: ReplyKind)
        ensures
            kind == self@.kind(),
    {
        match self {
            Reply::Unit => ReplyKind::Unit,
            Reply::Io(_) => ReplyKind::Io,
            Reply::Flag(_) => ReplyKind::Flag,
            Reply::Reader(_) => ReplyKind::Reader,
            Reply::Done(_) => ReplyKind::Done,
            Reply::Database(_) => ReplyKind::Database,
            Reply::Bytes(_) => ReplyKind::Bytes,
            Reply::Root(_) => ReplyKind::Root,
            Reply::Chain { .. } => ReplyKind::Chain,
        }
    }
}

/// One step of an operation: ask the host for an action, and go on with `T` when it has answered;
/// or return the operation's result.
#[derive(Debug)]
pub enum Step<'a, T> {
    Do(Action<'a>, T),
    Return(Result<(), Error>),
}

/// The value of a step.
pub enum StepView<T> {
    Do(ActionView, T),
    Return(Result<(), Error>),
}

impl<'a, T: View> View for Step<'a, T> {
    type V = StepView<T::V>;

    open spec fn view(&self) -> StepView<T::V> {
        match *self {
            Step::Do(action, task) => StepView::Do(action@, task@),
            Step::Return(result) => StepView::Return(result),
        }
    }
}

} // verus!
