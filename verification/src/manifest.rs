//! Snapshot manifests.

use vstd::prelude::*;

use crate::hash::H256;

verus! {

/// What a snapshot consists of.
#[derive(Debug)]
pub struct ManifestData {
    /// Hashes of the state chunks.
    pub state_hashes: Vec<H256>,
    /// Hashes of the block chunks.
    pub block_hashes: Vec<H256>,
    /// Root of the state that the snapshot restores.
    pub state_root: H256,
    /// Number of the block that the snapshot was taken at.
    pub block_number: u64,
    /// Hash of that block.
    pub block_hash: H256,
}

/// The mathematical value of a manifest.
#[verifier::ext_equal]
pub struct ManifestView {
    pub state_hashes: Seq<H256>,
    pub block_hashes: Seq<H256>,
    pub state_root: H256,
    pub block_number: u64,
    pub block_hash: H256,
}

impl View for ManifestData {
    type V = ManifestView;

    open spec fn view(&self) -> ManifestView {
        ManifestView {
            state_hashes: self.state_hashes@,
            block_hashes: self.block_hashes@,
            state_root: self.state_root,
            block_number: self.block_number,
            block_hash: self.block_hash,
        }
    }
}

impl Clone for ManifestData {
    fn clone(&self) -> (copy: Self)
        ensures
            copy@ == self@,
    {
        let state_hashes = self.state_hashes.clone();
        let block_hashes = self.block_hashes.clone();
        assert(state_hashes@ =~= self.state_hashes@);
        assert(block_hashes@ =~= self.block_hashes@);
        ManifestData {
            state_hashes,
            block_hashes,
            state_root: self.state_root,
            block_number: self.block_number,
            block_hash: self.block_hash,
        }
    }
}

} // verus!
