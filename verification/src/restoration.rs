//! The state of a restoration.

use std::collections::HashMap;

use vstd::prelude::*;

use crate::chunk_set::ChunkSet;
use crate::error::Error;
use crate::guard::Guard;
use crate::hash::H256;
use crate::manifest::{ManifestData, ManifestView};
use crate::path::PathView;

verus! {

broadcast use vstd::std_specs::hash::group_hash_axioms;

/// State restoration manager: what is still to be fed of the snapshot that a manifest describes.
#[derive(Debug)]
pub struct Restoration {
    pub(crate) manifest: ManifestData,
    pub(crate) state_chunks_left: ChunkSet,
    pub(crate) block_chunks_left: ChunkSet,
    /// Whether the chunks are written to a snapshot of their own, too.
    pub(crate) writer: bool,
    pub(crate) final_state_root: H256,
    pub(crate) guard: Guard,
    pub(crate) canonical_hashes: HashMap<u64, H256>,
}

/// What a restoration starts from.
#[derive(Debug)]
pub struct RestorationParams {
    /// Manifest to base restoration on.
    pub manifest: ManifestData,
    /// Whether there is a writer for the recovered snapshot.
    pub writer: bool,
    /// Guard for the restoration directory.
    pub guard: Guard,
}

/// The value of a restoration.
#[verifier::ext_equal]
pub struct RestorationView {
    pub manifest: ManifestView,
    /// The state chunks that have not been fed.
    pub state_chunks_left: Set<H256>,
    /// The block chunks that have not been fed.
    pub block_chunks_left: Set<H256>,
    pub writer: bool,
    pub final_state_root: H256,
    /// The directory to remove when the restoration goes.
    pub leftover: Option<PathView>,
    /// The canonical hashes noted so far, by block number.
    pub canonical_hashes: Map<u64, H256>,
}

impl View for Restoration {
    type V = RestorationView;

    open(crate) spec fn view(&self) -> RestorationView {
        RestorationView {
            manifest: self.manifest@,
            state_chunks_left: self.state_chunks_left@,
            block_chunks_left: self.block_chunks_left@,
            writer: self.writer,
            final_state_root: self.final_state_root,
            leftover: self.guard.leftover(),
            canonical_hashes: self.canonical_hashes@,
        }
    }
}

/// The hashes by number in `known`, once `pairs` have been noted in their order: where a number
/// comes more than once, its last hash stands.
pub open spec fn noted(known: Map<u64, H256>, pairs: Seq<(u64, H256)>) -> Map<u64, H256>
    decreases pairs.len(),
{
    if pairs.len() == 0 {
        known
    } else {
        noted(known, pairs.drop_last()).insert(pairs.last().0, pairs.last().1)
    }
}

impl RestorationView {
    /// A restoration of which no chunk has been fed.
    pub open spec fn fresh(manifest: ManifestView, writer: bool, leftover: Option<PathView>) -> Self {
        RestorationView {
            manifest,
            state_chunks_left: manifest.state_hashes.to_set(),
            block_chunks_left: manifest.block_hashes.to_set(),
            writer,
            final_state_root: manifest.state_root,
            leftover,
            canonical_hashes: Map::empty(),
        }
    }

    /// Whether a chunk is still to be fed.
    pub open spec fn wants(self, hash: H256, is_state: bool) -> bool {
        if is_state {
            self.state_chunks_left.contains(hash)
        } else {
            self.block_chunks_left.contains(hash)
        }
    }

    /// The restoration once a chunk has been handed in.
    pub open spec fn without(self, hash: H256, is_state: bool) -> Self {
        if is_state {
            RestorationView { state_chunks_left: self.state_chunks_left.remove(hash), ..self }
        } else {
            RestorationView { block_chunks_left: self.block_chunks_left.remove(hash), ..self }
        }
    }

    /// Whether all chunks of the manifest have been fed.
    pub open spec fn done(self) -> bool {
        self.state_chunks_left.is_empty() && self.block_chunks_left.is_empty()
    }
}

impl Restoration {
    /// Make a new restoration using the given parameters.
    pub fn new(params: RestorationParams) -> (restoration: Restoration)
        ensures
            restoration@ == RestorationView::fresh(
                params.manifest@,
                params.writer,
                params.guard.leftover(),
            ),
    {
        let state_chunks = ChunkSet::collect(&params.manifest.state_hashes);
        let block_chunks = ChunkSet::collect(&params.manifest.block_hashes);
        let root = params.manifest.state_root;
        Restoration {
            manifest: params.manifest,
            state_chunks_left: state_chunks,
            block_chunks_left: block_chunks,
            writer: params.writer,
            final_state_root: root,
            guard: params.guard,
            canonical_hashes: HashMap::new(),
        }
    }

    /// Hands in a state chunk. Says whether it is one to be processed: a chunk that is not in the
    /// manifest, or was handed in before, is not.
    pub fn feed_state(&mut self, hash: H256) -> (wanted: bool)
        ensures
            wanted == old(self)@.wants(hash, true),
            final(self)@ == old(self)@.without(hash, true),
    {
        self.state_chunks_left.remove(&hash)
    }

    /// Hands in a block chunk. Says whether it is one to be processed: a chunk that is not in the
    /// manifest, or was handed in before, is not.
    pub fn feed_blocks(&mut self, hash: H256) -> (wanted: bool)
        ensures
            wanted == old(self)@.wants(hash, false),
            final(self)@ == old(self)@.without(hash, false),
    {
        self.block_chunks_left.remove(&hash)
    }

    /// Note canonical hashes.
    pub fn note_canonical(&mut self, hashes: &[(u64, H256)])
        ensures
            final(self)@ == (RestorationView {
                canonical_hashes: noted(old(self)@.canonical_hashes, hashes@),
                ..old(self)@
            }),
    {
        let ghost before = self@;
        let mut i: usize = 0;
        while i < hashes.len()
            invariant
                i <= hashes.len(),
                self@ == (RestorationView {
                    canonical_hashes: noted(before.canonical_hashes, hashes@.take(i as int)),
                    ..before
                }),
            decreases hashes.len() - i,
        {
            proof {
                assert(hashes@.take(i + 1).drop_last() =~= hashes@.take(i as int));
            }
            let (number, hash) = hashes[i];
            self.canonical_hashes.insert(number, hash);
            i = i + 1;
        }
        proof {
            assert(hashes@.take(i as int) =~= hashes@);
        }
    }

    /// Is everything done?
    pub fn is_done(&self) -> (done: bool)
        ensures
            done == self@.done(),
    {
        self.block_chunks_left.is_empty() && self.state_chunks_left.is_empty()
    }

    /// Verifies the root of the rebuilt state against the one that the manifest names.
    pub fn verify_root(&self, root: H256) -> (result: Result<(), Error>)
        ensures
            result == (if root == self@.final_state_root {
                Ok(())
            } else {
                Err(Error::InvalidStateRoot(root))
            }),
    {
        if root != self.final_state_root {
            return Err(Error::InvalidStateRoot(root));
        }
        Ok(())
    }
}

} // verus!
