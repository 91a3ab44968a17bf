//! Machine-level constants of the managed heap: word and chunk sizes,
//! chunk alignment, and the size of a chunk's side-metadata region.
//!
//! Addresses are byte addresses held as `usize`; an `ObjectReference` is the
//! address of the cell it refers to, with `0` standing for null.

use vstd::prelude::*;

verus! {

use vstd::arithmetic::div_mod::{
    lemma_fundamental_div_mod, lemma_fundamental_div_mod_converse, lemma_mod_division_less_than_divisor,
    lemma_mod_decreases, lemma_div_is_ordered, lemma_mod_multiples_basic,
};

/// A byte address in the managed heap.
pub type Address = usize;

/// A reference to a heap object: the address of its referent, `0` for null.
pub type ObjectReference = usize;

/// An opaque thread handle supplied by the host.
pub type OpaquePointer = usize;

pub const LOG_BYTES_IN_WORD: usize = 3;

pub const BYTES_IN_WORD: usize = 8;

pub const LOG_BYTES_IN_CHUNK: usize = 22;

pub const BYTES_IN_CHUNK: usize = 4194304;

/// An address is a word boundary.
pub open spec fn word_aligned(a: usize) -> bool {
    a % BYTES_IN_WORD == 0
}

/// An address is a chunk boundary.
pub open spec fn chunk_aligned(a: usize) -> bool {
    a % BYTES_IN_CHUNK == 0
}

/// The start of the chunk containing `a`.
pub open spec fn spec_chunk_align_down(a: usize) -> usize {
    (a - (a % BYTES_IN_CHUNK)) as usize
}

/// Rounds an address down to the start of its chunk.
#[verifier::when_used_as_spec(spec_chunk_align_down)]
pub fn chunk_align_down(a: usize) -> (r: usize)
    ensures
        r == spec_chunk_align_down(a),
{
    proof {
        lemma_mod_decreases(a as nat, BYTES_IN_CHUNK as nat);
    }
    a - (a % BYTES_IN_CHUNK)
}

/// The chunk start never exceeds the address itself.
pub broadcast proof fn lemma_chunk_align_le(a: usize)
    ensures
        #[trigger] spec_chunk_align_down(a) <= a,
{
    lemma_mod_decreases(a as nat, BYTES_IN_CHUNK as nat);
}

/// The chunk start is itself chunk-aligned, and the address lies within
/// one chunk of it.
pub proof fn lemma_chunk_align_props(a: usize)
    ensures
        chunk_aligned(spec_chunk_align_down(a)),
        spec_chunk_align_down(a) <= a < spec_chunk_align_down(a) + BYTES_IN_CHUNK,
{
    let c = BYTES_IN_CHUNK as int;
    lemma_fundamental_div_mod(a as int, c);
    lemma_mod_division_less_than_divisor(a as int, c);
    let q = a as int / c;
    assert(spec_chunk_align_down(a) == c * q);
    lemma_mod_multiples_basic(q, c);
}

/// Every word between a chunk start and an address in that chunk maps down
/// to the same chunk start.
pub proof fn lemma_chunk_align_between(p: usize, w: usize)
    requires
        spec_chunk_align_down(p) <= w <= p,
    ensures
        spec_chunk_align_down(w) == spec_chunk_align_down(p),
{
    let c = BYTES_IN_CHUNK as int;
    lemma_fundamental_div_mod(p as int, c);
    lemma_mod_division_less_than_divisor(p as int, c);
    let q = p as int / c;
    assert(spec_chunk_align_down(p) == c * q);
    assert(w as int == c * q + (w - c * q)) by {
        assert(w as int >= c * q);
    }
    lemma_fundamental_div_mod_converse(w as int, c, q, w - c * q);
}

/// Two distinct word-aligned addresses are at least one word apart.
pub proof fn lemma_word_aligned_gap(lo: usize, hi: usize)
    requires
        word_aligned(lo),
        word_aligned(hi),
        lo < hi,
    ensures
        lo + BYTES_IN_WORD <= hi,
{
    let w = BYTES_IN_WORD as int;
    lemma_fundamental_div_mod(lo as int, w);
    lemma_fundamental_div_mod(hi as int, w);
    lemma_div_is_ordered(lo as int, hi as int, w);
    assert(lo as int == w * (lo as int / w));
    assert(hi as int == w * (hi as int / w));
    assert(lo as int / w < hi as int / w) by {
        if lo as int / w == hi as int / w {
            assert(lo == hi);
        }
    }
}

/// The sum of word-aligned quantities is word-aligned.
pub proof fn lemma_word_aligned_add(a: usize, b: usize)
    requires
        word_aligned(a),
        word_aligned(b),
        a + b <= usize::MAX,
    ensures
        word_aligned((a + b) as usize),
{
    let w = BYTES_IN_WORD as int;
    lemma_fundamental_div_mod(a as int, w);
    lemma_fundamental_div_mod(b as int, w);
    let qa = a as int / w;
    let qb = b as int / w;
    assert(a + b == w * (qa + qb)) by (nonlinear_arith)
        requires a as int == w * qa, b as int == w * qb;
    lemma_mod_multiples_basic(qa + qb, w);
}

/// Stepping one word back from a word-aligned address stays word-aligned.
pub proof fn lemma_word_aligned_step_down(a: usize)
    requires
        word_aligned(a),
        a >= BYTES_IN_WORD,
    ensures
        word_aligned((a - BYTES_IN_WORD) as usize),
{
    let w = BYTES_IN_WORD as int;
    lemma_fundamental_div_mod(a as int, w);
    let q = a as int / w;
    assert(a as int == w * q);
    assert(a as int - w == w * (q - 1)) by (nonlinear_arith)
        requires a as int == w * q, w == 8;
    lemma_fundamental_div_mod_converse(a as int - w, w, q - 1, 0);
}

/// Bytes of side metadata covering one chunk, for a map of
/// `1 << log_num_of_bits` bits per granule of `1 << log_min_obj_size` bytes.
pub open spec fn spec_meta_bytes_per_chunk(log_min_obj_size: usize, log_num_of_bits: usize) -> usize {
    if log_min_obj_size + 3 >= log_num_of_bits + LOG_BYTES_IN_CHUNK {
        1usize
    } else {
        (1usize << ((LOG_BYTES_IN_CHUNK + log_num_of_bits - log_min_obj_size - 3) as usize))
    }
}

/// Bytes of side metadata for one chunk: one granule of
/// `1 << log_min_obj_size` bytes is described by `1 << log_num_of_bits` bits.
#[verifier::when_used_as_spec(spec_meta_bytes_per_chunk)]
pub fn meta_bytes_per_chunk(log_min_obj_size: usize, log_num_of_bits: usize) -> (r: usize)
    requires
        log_min_obj_size <= 22,
        log_num_of_bits <= 6,
    ensures
        r == spec_meta_bytes_per_chunk(log_min_obj_size, log_num_of_bits),
{
    let log_bits_in_byte: usize = 3;
    if log_min_obj_size + log_bits_in_byte >= log_num_of_bits + LOG_BYTES_IN_CHUNK {
        1
    } else {
        let shift: usize = LOG_BYTES_IN_CHUNK + log_num_of_bits - log_min_obj_size
            - log_bits_in_byte;
        1usize << shift
    }
}

} // verus!
