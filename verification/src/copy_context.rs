//! The per-worker copying state: a bump allocator rebound to the current
//! tospace at each collection's prepare, and the post-copy fix-up of the new
//! object's forwarding word.

use vstd::prelude::*;

verus! {

use crate::constants::{Address, ObjectReference, OpaquePointer, BYTES_IN_WORD, BYTES_IN_CHUNK};
use crate::bump::{BumpAllocator, align_up};
use crate::plan::{GenCopy, GcStatus};
use crate::heap::Heap;

/// How an allocation will be treated by the plan.
#[derive(Clone, Copy, PartialEq, Eq, Structural)]
pub enum AllocationSemantics {
    Default,
    Immortal,
    Los,
}

/// Bytes of tospace handed to a copy context at each prepare.
pub const COPY_BLOCK_BYTES: usize = 65536;

/// The per-worker copy context of the generational copying plan.
pub struct GenCopyCopyContext {
    pub ss: BumpAllocator,
}

impl GenCopyCopyContext {
    /// The allocator either holds no block or a block of the current
    /// tospace.
    pub open spec fn bound_in(self, plan: GenCopy) -> bool {
        &&& self.ss.wf()
        &&& (self.ss.cursor == self.ss.limit || (plan.spec_tospace().start <= self.ss.cursor
            && self.ss.limit <= plan.spec_tospace().end))
    }

    pub fn new() -> (r: GenCopyCopyContext)
        ensures
            r.ss.wf(),
            r.ss.tls == 0,
            r.ss.cursor == 0,
            r.ss.limit == 0,
    {
        GenCopyCopyContext { ss: BumpAllocator::new(0) }
    }

    /// Records the worker's thread handle on first use.
    pub fn init(&mut self, tls: OpaquePointer)
        ensures
            final(self).ss.tls == tls,
            final(self).ss.cursor == old(self).ss.cursor,
            final(self).ss.limit == old(self).ss.limit,
    {
        self.ss.tls = tls;
    }

    /// Rebinds the bump allocator to the current tospace: takes a fresh block
    /// from the plan, disjoint from every block handed out since the plan's
    /// own prepare. For a mature collection the semispace roles have already
    /// been swapped by the plan's prepare.
    pub fn prepare(&mut self, plan: &mut GenCopy)
        requires
            old(plan).wf(),
        ensures
            final(plan).wf(),
            final(self).bound_in(*final(plan)),
            final(self).ss.cursor == old(plan).tospace_cursor,
            final(self).ss.limit == final(plan).tospace_cursor,
            // the block is one full allocation unit, or whatever of the
            // tospace is left
            final(plan).tospace_cursor == (if COPY_BLOCK_BYTES <= old(plan).spec_tospace().end
                - old(plan).tospace_cursor {
                (old(plan).tospace_cursor + COPY_BLOCK_BYTES) as usize
            } else {
                old(plan).spec_tospace().end
            }),
            final(self).ss.tls == old(self).ss.tls,
            *final(plan) == (GenCopy {
                tospace_cursor: final(plan).tospace_cursor,
                ..*old(plan)
            }),
    {
        let block = plan.acquire_copy_block(COPY_BLOCK_BYTES);
        if block.start < block.end {
            self.ss.rebind(block);
        } else {
            self.ss.cursor = block.start;
            self.ss.limit = block.start;
        }
    }

    /// Intentionally empty: the allocator is rebound lazily by the next
    /// prepare.
    pub fn release(&mut self)
        ensures
            *final(self) == *old(self),
    {
    }

    /// Allocates room in the tospace for a copy of `original`. May be called
    /// only while a collection is in progress. A non-null result is a fresh
    /// aligned range wholly inside the current tospace; the null sentinel
    /// means the block is exhausted and escalation is the caller's concern.
    pub fn alloc_copy(
        &mut self,
        _original: ObjectReference,
        bytes: usize,
        align: usize,
        _offset: usize,
        _semantics: AllocationSemantics,
        plan: &GenCopy,
    ) -> (r: Address)
        requires
            plan.wf(),
            plan.gc_status == GcStatus::GcProper,
            old(self).bound_in(*plan),
            BYTES_IN_WORD <= bytes,
            1 <= align <= BYTES_IN_CHUNK,
        ensures
            final(self).bound_in(*plan),
            final(self).ss.tls == old(self).ss.tls,
            final(self).ss.limit == old(self).ss.limit,
            (r == 0) <==> align_up(old(self).ss.cursor, align) + bytes > old(self).ss.limit,
            r == 0 ==> *final(self) == *old(self),
            r != 0 ==> {
                &&& plan.spec_tospace().holds_range(r, bytes)
                &&& r == align_up(old(self).ss.cursor, align)
                &&& r % align == 0
                &&& old(self).ss.cursor <= r
                &&& final(self).ss.cursor == r + bytes
            },
    {
        self.ss.bump_alloc(bytes, align)
    }

    /// Clears the forwarding metadata on the new object's header, so that
    /// subsequent traces observe the copy as an ordinary unforwarded object.
    pub fn post_copy(
        &mut self,
        obj: ObjectReference,
        _tib: Address,
        _bytes: usize,
        _semantics: AllocationSemantics,
        heap: &mut Heap,
    )
        ensures
            *final(self) == *old(self),
            final(heap).fwd@ == old(heap).fwd@.insert(obj, crate::heap::ForwardingState::NotForwarded),
            final(heap).mem@ == old(heap).mem@,
            final(heap).sizes@ == old(heap).sizes@,
            final(heap).marks@ == old(heap).marks@,
            final(heap).meta == old(heap).meta,
    {
        heap.clear_forwarding_bits(obj);
    }
}

} // verus!
