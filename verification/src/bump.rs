//! The bump allocator surface used for copying: a cursor and a limit over a
//! block of the tospace. Exhaustion returns the null sentinel; escalation is
//! the caller's concern.

use vstd::prelude::*;

verus! {

use vstd::arithmetic::div_mod::{
    lemma_fundamental_div_mod, lemma_mod_multiples_basic, lemma_small_mod,
    lemma_mod_division_less_than_divisor,
};
use crate::constants::{Address, OpaquePointer, BYTES_IN_WORD, BYTES_IN_CHUNK};
use crate::plan::Extent;

/// The padding that takes `c` up to the next multiple of `align`.
pub open spec fn align_pad(c: usize, align: usize) -> usize
    recommends
        align >= 1,
{
    (((align - (c % align)) as usize) % align) as usize
}

/// The next multiple of `align` at or above `c`.
pub open spec fn align_up(c: usize, align: usize) -> int
    recommends
        align >= 1,
{
    c + align_pad(c, align)
}

/// Rounding up to an alignment yields a multiple of it, and moves the cursor
/// by less than one alignment unit.
pub proof fn lemma_align_up(c: usize, align: usize)
    requires
        align >= 1,
    ensures
        align_pad(c, align) < align,
        align_up(c, align) % (align as int) == 0,
{
    let a = align as int;
    lemma_fundamental_div_mod(c as int, a);
    lemma_mod_division_less_than_divisor(c as int, a);
    let q = c as int / a;
    let r = c as int % a;
    if r == 0 {
        lemma_mod_multiples_basic(1, a);
        assert(align_pad(c, align) == 0);
        lemma_mod_multiples_basic(q, a);
    } else {
        lemma_small_mod((a - r) as nat, a as nat);
        assert(align_up(c, align) == a * (q + 1)) by (nonlinear_arith)
            requires c as int == a * q + r, align_pad(c, align) == a - r;
        lemma_mod_multiples_basic(q + 1, a);
    }
}

/// A per-worker bump allocator over one block.
pub struct BumpAllocator {
    pub tls: OpaquePointer,
    pub cursor: Address,
    pub limit: Address,
}

impl BumpAllocator {
    /// Either unbound, or a block of word-aligned addresses.
    pub open spec fn wf(self) -> bool {
        ||| (self.cursor == 0 && self.limit == 0)
        ||| (BYTES_IN_WORD <= self.cursor <= self.limit)
    }

    pub fn new(tls: OpaquePointer) -> (r: BumpAllocator)
        ensures
            r.wf(),
            r.tls == tls,
            r.cursor == 0,
            r.limit == 0,
    {
        BumpAllocator { tls, cursor: 0, limit: 0 }
    }

    /// Rebinds the allocator to a block; the old block is abandoned.
    pub fn rebind(&mut self, block: Extent)
        requires
            block.wf(),
        ensures
            final(self).wf(),
            final(self).cursor == block.start,
            final(self).limit == block.end,
            final(self).tls == old(self).tls,
    {
        self.cursor = block.start;
        self.limit = block.end;
    }

    /// Bump-allocates `bytes` at alignment `align`. Returns the null sentinel
    /// exactly when the block cannot fit the request; the cursor then stays
    /// put, so a failed request allocates nothing.
    pub fn bump_alloc(&mut self, bytes: usize, align: usize) -> (r: Address)
        requires
            old(self).wf(),
            BYTES_IN_WORD <= bytes,
            1 <= align <= BYTES_IN_CHUNK,
        ensures
            final(self).wf(),
            final(self).tls == old(self).tls,
            final(self).limit == old(self).limit,
            (r == 0) <==> align_up(old(self).cursor, align) + bytes > old(self).limit,
            r == 0 ==> *final(self) == *old(self),
            r != 0 ==> {
                &&& r == align_up(old(self).cursor, align)
                &&& r % align == 0
                &&& old(self).cursor <= r
                &&& r + bytes <= old(self).limit
                &&& final(self).cursor == r + bytes
            },
    {
        proof {
            lemma_align_up(self.cursor, align);
        }
        let pad = (align - (self.cursor % align)) % align;
        if self.limit - self.cursor < pad || self.limit - (self.cursor + pad) < bytes {
            return 0;
        }
        let start = self.cursor + pad;
        self.cursor = start + bytes;
        start
    }
}

} // verus!
