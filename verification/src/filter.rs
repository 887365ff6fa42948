//! The filter itself: a bit array, the seeds, and the operations on them.

use vstd::prelude::*;
use vstd::utf8::encode_utf8;
use crate::hash::hash_with_seed;
use crate::bits::{lemma_mask_test, lemma_or_mask, lemma_word_ext, lemma_zero_word, word_has_bit};
use crate::model::{bit_index, in_range, key_hash, lemma_index_set_step, FilterModel};
use crate::params::{CAPACITY, K, WORD_BITS, WORD_COUNT};
use crate::seeds::gen_seeds;

verus! {

/// The positions whose bit is set in the storage words `data`.
pub open spec fn set_positions(data: Seq<u32>) -> Set<nat> {
    Set::new(
        |pos: nat|
            pos < CAPACITY && word_has_bit(
                data[(pos / WORD_BITS as nat) as int],
                (pos % WORD_BITS as nat) as u32,
            ),
    )
}

/// A Bloom filter of `CAPACITY` bits with `K` seeded hash functions.
#[derive(Debug)]
pub struct Bloom {
    data: [u32; WORD_COUNT],
    hash_seeds: [u32; K],
}

impl View for Bloom {
    type V = FilterModel;

    closed spec fn view(&self) -> FilterModel {
        FilterModel { seeds: self.hash_seeds@, bits: set_positions(self.data@) }
    }
}

impl Bloom {
    /// Every filter is well formed: it has `K` seeds and no bit outside the array.
    pub proof fn lemma_wf(self)
        ensures
            self@.wf(),
    {
    }

    /// The model loses nothing: filters with the same seeds and the same set
    /// bits are the same filter.
    pub proof fn lemma_view_injective(self, other: Bloom)
        requires
            self@ == other@,
        ensures
            self == other,
    {
        assert forall|w: int| 0 <= w < WORD_COUNT implies self.data@[w] == other.data@[w] by {
            assert forall|bit: u32| bit < 32 implies word_has_bit(self.data@[w], bit)
                == word_has_bit(other.data@[w], bit) by {
                let pos = (w * WORD_BITS + bit) as nat;
                assert(set_positions(self.data@).contains(pos) == set_positions(
                    other.data@,
                ).contains(pos));
            }
            lemma_word_ext(self.data@[w], other.data@[w]);
        }
        assert(self.data =~= other.data);
        assert(self.hash_seeds =~= other.hash_seeds);
    }

    /// A filter with freshly drawn seeds and no bit set.
    pub fn new() -> (filter: Bloom)
        ensures
            filter@.wf(),
            filter@.bits == Set::<nat>::empty(),
    {
        Bloom::with_seeds(gen_seeds())
    }

    /// A filter with the given seeds and no bit set.
    pub fn with_seeds(seeds: [u32; K]) -> (filter: Bloom)
        ensures
            filter@.wf(),
            filter@.seeds == seeds@,
            filter@.bits == Set::<nat>::empty(),
    {
        let filter = Bloom { data: [0; WORD_COUNT], hash_seeds: seeds };
        proof {
            assert forall|pos: nat| !set_positions(filter.data@).contains(pos) by {
                if pos < CAPACITY {
                    lemma_zero_word((pos % WORD_BITS as nat) as u32);
                }
            }
            assert(filter@.bits =~= Set::<nat>::empty());
        }
        filter
    }

    /// The seeds of the hash functions, in order.
    pub fn seeds(&self) -> (seeds: [u32; K])
        ensures
            seeds@ == self@.seeds,
    {
        self.hash_seeds
    }

    /// Sets the bit at `index`, leaving all others as they were.
    fn set_bit(&mut self, index: u32)
        requires
            index < CAPACITY,
        ensures
            final(self)@.seeds == old(self)@.seeds,
            final(self)@.bits == old(self)@.bits.insert(index as nat),
    {
        let block = (index / WORD_BITS) as usize;
        let block_pos = index % WORD_BITS;
        let word = self.data[block];
        self.data[block] = word | (1u32 << block_pos);
        proof {
            assert forall|pos: nat|
                set_positions(self.data@).contains(pos) <==> set_positions(
                    old(self).data@,
                ).insert(index as nat).contains(pos) by {
                if pos < CAPACITY {
                    lemma_or_mask(word, block_pos, (pos % WORD_BITS as nat) as u32);
                }
            }
            assert(self@.bits =~= old(self)@.bits.insert(index as nat));
        }
    }

    /// Whether the bit at `index` is set.
    fn test_bit(&self, index: u32) -> (set: bool)
        requires
            index < CAPACITY,
        ensures
            set == self@.bits.contains(index as nat),
    {
        let block = (index / WORD_BITS) as usize;
        let block_pos = index % WORD_BITS;
        proof {
            lemma_mask_test(self.data[block as int], block_pos);
        }
        (self.data[block] & (1u32 << block_pos)) == (1u32 << block_pos)
    }

    /// Sets the bit at each of `indices`, leaving all others as they were.
    pub fn set_bits(&mut self, indices: &[u32; K])
        requires
            in_range(indices@),
        ensures
            final(self)@ == old(self)@.with_bits(indices@),
    {
        let mut i: usize = 0;
        while i < K
            invariant
                i <= K,
                in_range(indices@),
                self@ == old(self)@.with_bits(indices@.take(i as int)),
            decreases K - i,
        {
            self.set_bit(indices[i]);
            proof {
                lemma_index_set_step(indices@, i as int);
            }
            i += 1;
        }
        proof {
            assert(indices@.take(K as int) =~= indices@);
        }
    }

    /// Whether the bit at each of `indices` is set.
    pub fn has_bits(&self, indices: &[u32; K]) -> (all_set: bool)
        requires
            in_range(indices@),
        ensures
            all_set == self@.has_bits(indices@),
    {
        let mut i: usize = 0;
        while i < K
            invariant
                i <= K,
                in_range(indices@),
                self@.has_bits(indices@.take(i as int)),
            decreases K - i,
        {
            if !self.test_bit(indices[i]) {
                return false;
            }
            i += 1;
        }
        proof {
            assert(indices@.take(K as int) =~= indices@);
        }
        true
    }

    /// Derives the bit positions of `key`: one hash of its bytes per seed,
    /// each reduced into the bit array. Fails, with a message that describes
    /// why, exactly where the key has no hash under some seed.
    pub fn hash_key(&self, key: &str) -> (outcome: Result<[u32; K], String>)
        ensures
            outcome is Ok <==> self@.hashable(key@),
            outcome matches Ok(indices) ==> indices@ == self@.indices(key@),
            outcome matches Ok(indices) ==> in_range(indices@),
    {
        let bytes = key.as_bytes();
        let mut hash_outputs: [u32; K] = [0; K];
        let mut i: usize = 0;
        while i < K
            invariant
                i <= K,
                bytes@ == encode_utf8(key@),
                forall|j: int| 0 <= j < i ==> (#[trigger] key_hash(key@, self.hash_seeds@[j])) is Some,
                forall|j: int|
                    0 <= j < i ==> hash_outputs@[j] == bit_index(
                        key_hash(key@, self.hash_seeds@[j]).unwrap(),
                    ),
            decreases K - i,
        {
            match hash_with_seed(bytes, self.hash_seeds[i]) {
                Ok(result) => {
                    hash_outputs[i] = result % CAPACITY;
                },
                Err(reason) => {
                    assert(key_hash(key@, self.hash_seeds@[i as int]) is None);
                    return Err(reason);
                },
            }
            i += 1;
        }
        proof {
            assert(hash_outputs@ =~= self@.indices(key@));
        }
        Ok(hash_outputs)
    }

    /// Inserts `key`: sets the bit at each of its positions and leaves all
    /// other bits as they were. Fails, and leaves the filter as it was,
    /// exactly where the key cannot be hashed.
    pub fn add(&mut self, key: &str) -> (outcome: Result<(), String>)
        ensures
            outcome is Ok <==> old(self)@.hashable(key@),
            outcome is Ok ==> final(self)@ == old(self)@.insert(key@),
            outcome is Err ==> final(self)@ == old(self)@,
            final(self)@.seeds == old(self)@.seeds,
            old(self)@.bits.subset_of(final(self)@.bits),
            final(self)@.wf(),
    {
        proof {
            self.lemma_wf();
            self@.lemma_insert_wf(key@);
        }
        match self.hash_key(key) {
            Ok(hash_results) => {
                self.set_bits(&hash_results);
                Ok(())
            },
            Err(reason) => Err(reason),
        }
    }

    /// Whether `key` is possibly present: `true` exactly when the bit at each
    /// of its positions is set. The key must be one that can be hashed.
    pub fn has_key(&self, key: &str) -> (present: bool)
        requires
            self@.hashable(key@),
        ensures
            present == self@.may_contain(key@),
    {
        let hash_results = self.hash_key(key).unwrap();
        self.has_bits(&hash_results)
    }

    /// Like [`Bloom::has_key`], for any key: fails, with a message that
    /// describes why, exactly where the key cannot be hashed.
    pub fn try_has_key(&self, key: &str) -> (outcome: Result<bool, String>)
        ensures
            outcome is Ok <==> self@.hashable(key@),
            outcome matches Ok(present) ==> present == self@.may_contain(key@),
    {
        match self.hash_key(key) {
            Ok(_) => Ok(self.has_key(key)),
            Err(reason) => Err(reason),
        }
    }
}

} // verus!
