//! Sets of chunk hashes.

use vstd::prelude::*;

use crate::hash::H256;

verus! {

/// A set of chunk hashes.
#[derive(Debug)]
pub struct ChunkSet {
    items: Vec<H256>,
}

impl View for ChunkSet {
    type V = Set<H256>;

    closed spec fn view(&self) -> Set<H256> {
        self.items@.to_set()
    }
}

/// Where `hash` first stands in `items`.
fn position(items: &Vec<H256>, hash: &H256) -> (at: Option<usize>)
    ensures
        match at {
            Some(i) => i < items@.len() && items@[i as int] == *hash,
            None => !items@.contains(*hash),
        },
{
    let mut i: usize = 0;
    while i < items.len()
        invariant
            i <= items.len(),
            forall|j: int| 0 <= j < i ==> items@[j] != *hash,
        decreases items.len() - i,
    {
        if items[i] == *hash {
            return Some(i);
        }
        i = i + 1;
    }
    None
}

impl ChunkSet {
    /// No hash is stored twice.
    #[verifier::type_invariant]
    spec fn distinct(self) -> bool {
        self.items@.no_duplicates()
    }

    /// The set of the given hashes.
    pub fn collect(hashes: &Vec<H256>) -> (set: Self)
        ensures
            set@ == hashes@.to_set(),
    {
        let mut items: Vec<H256> = Vec::new();
        let mut i: usize = 0;
        while i < hashes.len()
            invariant
                i <= hashes.len(),
                items@.no_duplicates(),
                forall|h: H256| items@.contains(h) <==> hashes@.take(i as int).contains(h),
            decreases hashes.len() - i,
        {
            let hash = hashes[i];
            let ghost before = items@;
            if position(&items, &hash).is_none() {
                items.push(hash);
            }
            proof {
                assert forall|h: H256| items@.contains(h) <==> hashes@.take(i + 1).contains(h) by {
                    let longer = hashes@.take(i + 1);
                    assert(longer =~= hashes@.take(i as int).push(hash));
                    assert(longer[i as int] == hash);
                    if before.contains(h) {
                        let k = choose|k: int| 0 <= k < before.len() && before[k] == h;
                        assert(items@[k] == h);
                        let m = choose|m: int|
                            0 <= m < i && hashes@.take(i as int)[m] == h;
                        assert(longer[m] == h);
                    }
                    if h == hash && !before.contains(hash) {
                        assert(items@[before.len() as int] == hash);
                    }
                }
            }
            i = i + 1;
        }
        proof {
            assert(hashes@.take(i as int) =~= hashes@);
            assert(items@.to_set() =~= hashes@.to_set());
        }
        ChunkSet { items }
    }

    /// Whether the set is empty.
    pub fn is_empty(&self) -> (empty: bool)
        ensures
            empty == self@.is_empty(),
    {
        proof {
            if self.items@.len() > 0 {
                assert(self@.contains(self.items@[0]));
            }
        }
        self.items.len() == 0
    }

    /// Takes a hash out of the set, and says whether it was there.
    pub fn remove(&mut self, hash: &H256) -> (present: bool)
        ensures
            present == old(self)@.contains(*hash),
            final(self)@ == old(self)@.remove(*hash),
    {
        proof {
            use_type_invariant(&*self);
        }
        match position(&self.items, hash) {
            Some(i) => {
                let mut items: Vec<H256> = Vec::new();
                std::mem::swap(&mut self.items, &mut items);
                let ghost before = items@;
                items.swap_remove(i);
                proof {
                    assert forall|h: H256| items@.contains(h) <==> before.contains(h) && h != *hash by {
                        if items@.contains(h) {
                            let k = choose|k: int| 0 <= k < items@.len() && items@[k] == h;
                            if k == i {
                                assert(before[before.len() - 1] == h);
                            } else {
                                assert(before[k] == h);
                            }
                        }
                        if before.contains(h) && h != *hash {
                            let k = choose|k: int| 0 <= k < before.len() && before[k] == h;
                            if k == before.len() - 1 {
                                assert(items@[i as int] == h);
                            } else {
                                assert(items@[k] == h);
                            }
                        }
                    }
                    assert(items@.to_set() =~= before.to_set().remove(*hash));
                }
                self.items = items;
                true
            },
            None => {
                assert(self@.remove(*hash) =~= self@);
                false
            },
        }
    }
}

} // verus!
