//! The interior-pointer alloc bitmap: one bit per managed word, organised by
//! chunk, with a set of active chunks guarding the lazily created metadata.
//! The bit at a word-aligned address is 1 exactly when that word is the head
//! of a live allocation; `find_object` scans back from an interior pointer to
//! the nearest such head.

use vstd::prelude::*;

verus! {

use crate::constants::{
    Address, ObjectReference, BYTES_IN_WORD, LOG_BYTES_IN_WORD, chunk_align_down,
    spec_chunk_align_down, word_aligned, chunk_aligned, meta_bytes_per_chunk,
    spec_meta_bytes_per_chunk, lemma_chunk_align_between, lemma_word_aligned_gap,
    lemma_word_aligned_step_down,
};

broadcast use crate::constants::lemma_chunk_align_le;

/// Pushing onto a sequence inserts into its set of elements.
proof fn lemma_push_to_set(s: Seq<Address>, b: Address)
    ensures
        s.push(b).to_set() == s.to_set().insert(b),
{
    assert forall|y: Address| #[trigger] s.push(b).to_set().contains(y)
        implies s.to_set().insert(b).contains(y) by {
        let k = choose|k: int| 0 <= k < s.push(b).len() && s.push(b)[k] == y;
        if k < s.len() {
            assert(s[k] == y);
        }
    }
    assert forall|y: Address| #[trigger] s.to_set().insert(b).contains(y)
        implies s.push(b).to_set().contains(y) by {
        if y == b {
            assert(s.push(b)[s.len() as int] == y);
        } else {
            let k = choose|k: int| 0 <= k < s.len() && s[k] == y;
            assert(s.push(b)[k] == y);
        }
    }
    assert(s.push(b).to_set() =~= s.to_set().insert(b));
}

/// The side-metadata state for the alloc bitmap: which chunks have had their
/// metadata region created, and which word addresses carry a set alloc bit.
pub struct MetaSpace {
    active_chunks: Vec<Address>,
    alloc_bits: Vec<Address>,
    meta_reserved: usize,
}

impl MetaSpace {
    /// The set of chunk starts whose metadata is mapped.
    pub closed spec fn chunks(&self) -> Set<Address> {
        self.active_chunks@.to_set()
    }

    /// The set of word addresses whose alloc bit is 1.
    pub closed spec fn bits(&self) -> Set<Address> {
        self.alloc_bits@.to_set()
    }

    /// The metadata bytes reserved so far for the active chunks.
    pub closed spec fn spec_meta_reserved(&self) -> usize {
        self.meta_reserved
    }

    /// How many bytes of side metadata the active chunks occupy.
    pub fn reserved_metadata_bytes(&self) -> (r: usize)
        ensures
            r == self.spec_meta_reserved(),
    {
        self.meta_reserved
    }

    /// Every recorded chunk start is chunk-aligned; every set bit is
    /// word-aligned and lies in a mapped chunk.
    pub closed spec fn wf(&self) -> bool {
        &&& forall|c: Address| self.chunks().contains(c) ==> chunk_aligned(c)
        &&& forall|a: Address| self.bits().contains(a) ==> word_aligned(a)
            && self.chunks().contains(spec_chunk_align_down(a))
    }

    pub fn new() -> (r: Self)
        ensures
            r.wf(),
            r.chunks() == Set::<Address>::empty(),
            r.bits() == Set::<Address>::empty(),
    {
        let r = MetaSpace { active_chunks: Vec::new(), alloc_bits: Vec::new(), meta_reserved: 0 };
        proof {
            assert(r.chunks() =~= Set::<Address>::empty());
            assert(r.bits() =~= Set::<Address>::empty());
        }
        r
    }

    /// Whether the chunk containing `address` has had its metadata mapped.
    pub fn meta_space_mapped(&self, address: Address) -> (r: bool)
        ensures
            r == self.chunks().contains(spec_chunk_align_down(address)),
    {
        let chunk_start = chunk_align_down(address);
        vec_contains(&self.active_chunks, chunk_start)
    }

    /// Maps the metadata for the chunk starting at `chunk_start`: inserts it
    /// into the active set and reserves one metadata region for it. Mapping a
    /// chunk that is already active changes nothing.
    pub fn map_meta_space_for_chunk(&mut self, chunk_start: Address)
        requires
            old(self).wf(),
            chunk_aligned(chunk_start),
        ensures
            final(self).wf(),
            final(self).chunks() == old(self).chunks().insert(chunk_start),
            final(self).bits() == old(self).bits(),
            // a chunk reserves its metadata region exactly once: a repeated
            // call reserves nothing more
            old(self).chunks().contains(chunk_start) ==> final(self).spec_meta_reserved() == old(self).spec_meta_reserved(),
            !old(self).chunks().contains(chunk_start) ==> final(self).spec_meta_reserved() == (
            if old(self).spec_meta_reserved() <= usize::MAX - spec_meta_bytes_per_chunk(
                LOG_BYTES_IN_WORD,
                0,
            ) {
                (old(self).spec_meta_reserved() + spec_meta_bytes_per_chunk(
                    LOG_BYTES_IN_WORD,
                    0,
                )) as usize
            } else {
                old(self).spec_meta_reserved()
            }),
    {
        if vec_contains(&self.active_chunks, chunk_start) {
            proof {
                assert(self.chunks() =~= self.chunks().insert(chunk_start));
            }
            return;
        }
        self.active_chunks.push(chunk_start);
        // one metadata region per chunk, one bit per word
        let meta = meta_bytes_per_chunk(LOG_BYTES_IN_WORD, 0);
        if self.meta_reserved <= usize::MAX - meta {
            self.meta_reserved = self.meta_reserved + meta;
        }
        proof {
            lemma_push_to_set(old(self).active_chunks@, chunk_start);
            assert(self.chunks() == old(self).chunks().insert(chunk_start));
            assert forall|a: Address| self.bits().contains(a)
                implies word_aligned(a) && self.chunks().contains(spec_chunk_align_down(a)) by {
                assert(old(self).bits().contains(a));
            }
        }
    }

    /// Sets the alloc bit for the word at `address`.
    pub fn set_alloc_bit(&mut self, address: Address)
        requires
            old(self).wf(),
            word_aligned(address),
            old(self).chunks().contains(spec_chunk_align_down(address)),
        ensures
            final(self).wf(),
            final(self).bits() == old(self).bits().insert(address),
            final(self).chunks() == old(self).chunks(),
    {
        if !vec_contains(&self.alloc_bits, address) {
            self.alloc_bits.push(address);
            proof {
                lemma_push_to_set(old(self).alloc_bits@, address);
            }
        } else {
            proof {
                assert(self.bits() =~= old(self).bits().insert(address));
            }
        }
    }

    /// Clears the alloc bit for the word at `address`.
    pub fn unset_alloc_bit(&mut self, address: Address)
        requires
            old(self).wf(),
        ensures
            final(self).wf(),
            final(self).bits() == old(self).bits().remove(address),
            final(self).chunks() == old(self).chunks(),
    {
        let mut kept: Vec<Address> = Vec::new();
        let n = self.alloc_bits.len();
        let mut i: usize = 0;
        while i < n
            invariant
                0 <= i <= n,
                n == self.alloc_bits@.len(),
                kept@.to_set() == self.alloc_bits@.take(i as int).to_set().remove(address),
            decreases n - i,
        {
            let b = self.alloc_bits[i];
            proof {
                assert(self.alloc_bits@.take(i + 1) =~= self.alloc_bits@.take(i as int).push(b));
                lemma_push_to_set(self.alloc_bits@.take(i as int), b);
            }
            let ghost kept_before = kept@;
            if b != address {
                kept.push(b);
                proof {
                    lemma_push_to_set(kept_before, b);
                    assert(kept@.to_set()
                        =~= self.alloc_bits@.take(i + 1).to_set().remove(address));
                }
            } else {
                proof {
                    assert(kept@.to_set()
                        =~= self.alloc_bits@.take(i + 1).to_set().remove(address));
                }
            }
            i = i + 1;
        }
        proof {
            assert(self.alloc_bits@.take(n as int) == self.alloc_bits@);
        }
        self.alloc_bits = kept;
        proof {
            assert(self.chunks() =~= old(self).chunks());
        }
    }

    /// Whether `object` is the head of a live allocation: its chunk is mapped
    /// and its alloc bit is set.
    pub fn is_alloced(&self, object: ObjectReference) -> (r: bool)
        requires
            self.wf(),
        ensures
            r == (self.chunks().contains(spec_chunk_align_down(object))
                && self.bits().contains(object)),
    {
        let address: Address = object;
        self.meta_space_mapped(address) && vec_contains(&self.alloc_bits, address)
    }

    /// Finds the head of the object an interior pointer points into: scans
    /// back one word at a time from `object` until a set alloc bit is found.
    /// The caller guarantees the pointer lies within an allocated object, so
    /// a head exists at or below the pointer; every word on the way is in a
    /// mapped chunk.
    pub fn find_object(&self, object: ObjectReference) -> (r: ObjectReference)
        requires
            self.wf(),
            word_aligned(object),
            exists|h: Address|
                {
                    &&& #[trigger] self.bits().contains(h)
                    &&& h <= object
                    &&& forall|w: Address|
                        h <= w <= object && word_aligned(w)
                            ==> self.chunks().contains(#[trigger] spec_chunk_align_down(w))
                },
        ensures
            self.bits().contains(r),
            r <= object,
            word_aligned(r),
            forall|w: Address|
                r < w <= object && word_aligned(w) ==> !(#[trigger] self.bits().contains(w)),
    {
        let ghost h = choose|h: Address|
            {
                &&& #[trigger] self.bits().contains(h)
                &&& h <= object
                &&& forall|w: Address|
                    h <= w <= object && word_aligned(w)
                        ==> self.chunks().contains(#[trigger] spec_chunk_align_down(w))
            };
        let mut address: Address = object;
        loop
            invariant
                self.wf(),
                word_aligned(address),
                h <= address <= object,
                self.bits().contains(h),
                word_aligned(h),
                forall|w: Address|
                    h <= w <= object && word_aligned(w)
                        ==> self.chunks().contains(#[trigger] spec_chunk_align_down(w)),
                forall|w: Address|
                    address < w <= object && word_aligned(w)
                        ==> !(#[trigger] self.bits().contains(w)),
            decreases address,
        {
            let mapped = self.meta_space_mapped(address);
            assert(mapped);
            if vec_contains(&self.alloc_bits, address) {
                return address;
            }
            proof {
                assert(h < address) by {
                    assert(h != address);
                }
                lemma_word_aligned_gap(h, address);
                lemma_word_aligned_step_down(address);
            }
            address = address - BYTES_IN_WORD;
        }
    }
}

/// Whether a vector holds a given address.
fn vec_contains(v: &Vec<Address>, x: Address) -> (r: bool)
    ensures
        r == v@.to_set().contains(x),
{
    let n = v.len();
    let mut i: usize = 0;
    while i < n
        invariant
            0 <= i <= n,
            n == v@.len(),
            forall|k: int| 0 <= k < i ==> v@[k] != x,
        decreases n - i,
    {
        if v[i] == x {
            proof {
                assert(v@[i as int] == x);
                assert(v@.contains(x));
            }
            return true;
        }
        i = i + 1;
    }
    false
}

/// Mapping the metadata for a chunk is idempotent: doing it a second time
/// leaves the set of active chunks exactly as the first call left it.
pub proof fn lemma_map_meta_space_idempotent(chunks: Set<Address>, chunk_start: Address)
    ensures
        chunks.insert(chunk_start).insert(chunk_start) == chunks.insert(chunk_start),
{
    assert(chunks.insert(chunk_start).insert(chunk_start) =~= chunks.insert(chunk_start));
}

/// Setting and then clearing an alloc bit that was clear returns the bitmap
/// to its prior state.
pub proof fn lemma_set_unset_alloc_bit(bits: Set<Address>, address: Address)
    requires
        !bits.contains(address),
    ensures
        bits.insert(address).remove(address) == bits,
{
    assert(bits.insert(address).remove(address) =~= bits);
}

/// An interior pointer whose object head sits exactly at its chunk boundary
/// is resolved within that chunk: the head found is no lower than the chunk
/// start, so the scan never leaves the chunk.
pub proof fn lemma_find_object_stays_in_chunk(
    bits: Set<Address>,
    p: Address,
    r: Address,
)
    requires
        bits.contains(spec_chunk_align_down(p)),
        word_aligned(spec_chunk_align_down(p)),
        r <= p,
        word_aligned(r),
        bits.contains(r),
        forall|w: Address| r < w <= p && word_aligned(w) ==> !(#[trigger] bits.contains(w)),
    ensures
        spec_chunk_align_down(p) <= r,
        spec_chunk_align_down(r) == spec_chunk_align_down(p),
{
    crate::constants::lemma_chunk_align_le(p);
    let c = spec_chunk_align_down(p);
    if r < c {
        assert(bits.contains(c));
        assert(false);
    }
    lemma_chunk_align_between(p, r);
}

} // verus!
