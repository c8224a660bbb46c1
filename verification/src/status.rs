//! What the service tells of its progress.

use vstd::prelude::*;

verus! {

/// Where a restoration stands.
#[derive(Clone, Copy, PartialEq, Eq, Structural, Debug)]
pub enum RestorationStatus {
    /// No restoration.
    Inactive,
    /// A restoration is going on.
    Ongoing {
        /// Number of state chunks in the manifest.
        state_chunks: u32,
        /// Number of block chunks in the manifest.
        block_chunks: u32,
        /// Number of state chunks fed so far.
        state_chunks_done: u32,
        /// Number of block chunks fed so far.
        block_chunks_done: u32,
    },
    /// The last restoration failed.
    Failed,
}

/// How far the snapshot that is being taken has come.
#[derive(Clone, Copy, PartialEq, Eq, Structural, Debug)]
pub struct Progress {
    /// Number of accounts written.
    pub accounts: usize,
    /// Number of blocks written.
    pub blocks: usize,
    /// Number of bytes written.
    pub size: usize,
    /// Whether the snapshot is complete.
    pub done: bool,
}

/// How a database prunes old state.
#[derive(Clone, Copy, PartialEq, Eq, Structural, Debug)]
pub enum Algorithm {
    /// Keep everything.
    Archive,
    /// Merge removals early.
    EarlyMerge,
    /// Keep recent states in an overlay.
    OverlayRecent,
    /// Count references.
    RefCounted,
}

} // verus!
