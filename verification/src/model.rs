//! The mathematical model of a filter, and the laws that hold of it.
//!
//! A filter is its sequence of seeds together with the set of positions whose
//! bit is set. Which positions a key selects is fixed by the seeds and the
//! key's UTF-8 bytes, through [`seeded_hash`].

use vstd::prelude::*;
use vstd::utf8::encode_utf8;
use crate::hash::seeded_hash;
use crate::params::{CAPACITY, K};

verus! {

/// The position in the bit array that a hash value selects.
pub open spec fn bit_index(hash: u32) -> u32 {
    hash % CAPACITY
}

/// The hash of a key's UTF-8 bytes under `seed`, where there is one.
pub open spec fn key_hash(key: Seq<char>, seed: u32) -> Option<u32> {
    seeded_hash(encode_utf8(key), seed)
}

/// The set of positions that occur in `indices`.
pub open spec fn index_set(indices: Seq<u32>) -> Set<nat> {
    Set::new(|pos: nat| exists|j: int| 0 <= j < indices.len() && #[trigger] indices[j] == pos)
}

/// Whether every position in `indices` lies inside the bit array.
pub open spec fn in_range(indices: Seq<u32>) -> bool {
    forall|j: int| 0 <= j < indices.len() ==> #[trigger] indices[j] < CAPACITY
}

/// The positions of a prefix that is one longer are those of the prefix and
/// the position that was added.
pub proof fn lemma_index_set_step(indices: Seq<u32>, n: int)
    requires
        0 <= n < indices.len(),
    ensures
        index_set(indices.take(n + 1)) == index_set(indices.take(n)).insert(indices[n] as nat),
{
    let longer = indices.take(n + 1);
    let shorter = indices.take(n);
    assert forall|pos: nat|
        index_set(longer).contains(pos) <==> index_set(shorter).insert(indices[n] as nat).contains(
            pos,
        ) by {
        if index_set(longer).contains(pos) {
            let j = choose|j: int| 0 <= j < longer.len() && #[trigger] longer[j] == pos;
            if j < n {
                assert(shorter[j] == pos);
            }
        }
        if index_set(shorter).contains(pos) {
            let j = choose|j: int| 0 <= j < shorter.len() && #[trigger] shorter[j] == pos;
            assert(longer[j] == pos);
        }
        if indices[n] == pos {
            assert(longer[n] == pos);
        }
    }
    assert(index_set(longer) =~= index_set(shorter).insert(indices[n] as nat));
}

/// A filter as a mathematical value.
#[verifier::ext_equal]
pub struct FilterModel {
    /// One seed per hash function.
    pub seeds: Seq<u32>,
    /// The positions whose bit is set.
    pub bits: Set<nat>,
}

impl FilterModel {
    /// There are `K` seeds, and every set bit lies inside the bit array.
    pub open spec fn wf(self) -> bool {
        &&& self.seeds.len() == K
        &&& forall|pos: nat| self.bits.contains(pos) ==> pos < CAPACITY
    }

    /// Whether `key` has a hash under every seed.
    pub open spec fn hashable(self, key: Seq<char>) -> bool {
        forall|j: int| 0 <= j < self.seeds.len() ==> (#[trigger] key_hash(key, self.seeds[j])) is Some
    }

    /// The positions that `key` selects, one per seed, in seed order.
    /// Meaningful where `key` is hashable.
    pub open spec fn indices(self, key: Seq<char>) -> Seq<u32> {
        Seq::new(self.seeds.len(), |j: int| bit_index(key_hash(key, self.seeds[j]).unwrap()))
    }

    /// The filter after the bits at `indices` have been set.
    pub open spec fn with_bits(self, indices: Seq<u32>) -> FilterModel {
        FilterModel { seeds: self.seeds, bits: self.bits.union(index_set(indices)) }
    }

    /// Whether the bits at all of `indices` are set.
    pub open spec fn has_bits(self, indices: Seq<u32>) -> bool {
        index_set(indices).subset_of(self.bits)
    }

    /// The filter after `key` has been inserted.
    pub open spec fn insert(self, key: Seq<char>) -> FilterModel {
        self.with_bits(self.indices(key))
    }

    /// Whether the filter answers "possibly present" for `key`.
    pub open spec fn may_contain(self, key: Seq<char>) -> bool {
        self.has_bits(self.indices(key))
    }

    /// The filter after each key of `keys` has been offered for insertion in
    /// turn; a key that cannot be hashed leaves the filter as it was.
    pub open spec fn insert_all(self, keys: Seq<Seq<char>>) -> FilterModel
        decreases keys.len(),
    {
        if keys.len() == 0 {
            self
        } else {
            let before = self.insert_all(keys.drop_last());
            if before.hashable(keys.last()) {
                before.insert(keys.last())
            } else {
                before
            }
        }
    }

    /// Every position that a key selects lies inside the bit array.
    pub proof fn lemma_indices_in_range(self, key: Seq<char>)
        ensures
            self.indices(key).len() == self.seeds.len(),
            in_range(self.indices(key)),
    {
    }

    /// The positions of a key depend on the seeds and the key alone: filters
    /// with the same seeds agree on whether a key can be hashed and on the
    /// positions it selects.
    pub proof fn lemma_indices_deterministic(self, other: FilterModel, key: Seq<char>)
        requires
            self.seeds == other.seeds,
        ensures
            self.hashable(key) == other.hashable(key),
            self.indices(key) == other.indices(key),
    {
    }

    /// Insertion keeps a filter well formed.
    pub proof fn lemma_insert_wf(self, key: Seq<char>)
        requires
            self.wf(),
        ensures
            self.insert(key).wf(),
    {
        self.lemma_indices_in_range(key);
    }

    /// Insertion only ever sets bits: the seeds stay, and every bit that was
    /// set stays set.
    pub proof fn lemma_insert_monotone(self, key: Seq<char>)
        ensures
            self.insert(key).seeds == self.seeds,
            self.bits.subset_of(self.insert(key).bits),
    {
    }

    /// Right after a key has been inserted, the filter answers "possibly
    /// present" for it.
    pub proof fn lemma_insert_then_contains(self, key: Seq<char>)
        ensures
            self.insert(key).may_contain(key),
    {
    }

    /// Offering further keys only ever sets bits: the seeds stay, and every
    /// bit that was set stays set.
    pub proof fn lemma_insert_all_monotone(self, keys: Seq<Seq<char>>)
        ensures
            self.insert_all(keys).seeds == self.seeds,
            self.bits.subset_of(self.insert_all(keys).bits),
        decreases keys.len(),
    {
        if keys.len() > 0 {
            self.lemma_insert_all_monotone(keys.drop_last());
        }
    }

    /// A key that the filter may contain stays so while bits are only set.
    pub proof fn lemma_may_contain_stays(self, later: FilterModel, key: Seq<char>)
        requires
            later.seeds == self.seeds,
            self.bits.subset_of(later.bits),
            self.may_contain(key),
        ensures
            later.may_contain(key),
    {
    }

    /// No false negatives: once a key has been inserted, the filter answers
    /// "possibly present" for it, whichever keys are offered afterwards.
    pub proof fn lemma_no_false_negatives(self, key: Seq<char>, later: Seq<Seq<char>>)
        requires
            self.hashable(key),
        ensures
            self.insert(key).insert_all(later).may_contain(key),
    {
        let inserted = self.insert(key);
        inserted.lemma_insert_all_monotone(later);
        inserted.lemma_may_contain_stays(inserted.insert_all(later), key);
    }

    /// Inserting a key a second time changes nothing.
    pub proof fn lemma_insert_idempotent(self, key: Seq<char>)
        ensures
            self.insert(key).insert(key) == self.insert(key),
    {
        assert(self.insert(key).insert(key) =~= self.insert(key));
    }

    /// A filter with no bit set answers "not present" for every key.
    pub proof fn lemma_empty_contains_nothing(self, key: Seq<char>)
        requires
            self.wf(),
            self.bits == Set::<nat>::empty(),
        ensures
            !self.may_contain(key),
    {
        let indices = self.indices(key);
        assert(indices[0] == indices[0]);
        assert(index_set(indices).contains(indices[0] as nat));
    }
}

} // verus!
