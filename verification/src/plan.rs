//! The generational copying plan: a nursery, two semispaces whose roles swap
//! at each mature collection, and a common space traced without copying.
//! The plan also carries the global collection state: the GC status, the
//! collection kind, and the scanned-stacks barrier counter.

use vstd::prelude::*;

verus! {

use crate::constants::{Address, word_aligned, BYTES_IN_WORD};

/// A contiguous address range `[start, end)` backing one space.
#[derive(Clone, Copy, PartialEq, Eq, Structural)]
pub struct Extent {
    pub start: Address,
    pub end: Address,
}

impl Extent {
    pub open spec fn wf(self) -> bool {
        &&& BYTES_IN_WORD <= self.start <= self.end
        &&& word_aligned(self.start)
        &&& word_aligned(self.end)
    }

    /// Whether an address lies in this range.
    pub open spec fn holds(self, a: Address) -> bool {
        self.start <= a < self.end
    }

    /// Whether `[a, a + bytes)` lies wholly in this range.
    pub open spec fn holds_range(self, a: Address, bytes: usize) -> bool {
        self.start <= a && a + bytes <= self.end
    }

    /// Two ranges share no address.
    pub open spec fn disjoint(self, other: Extent) -> bool {
        self.end <= other.start || other.end <= self.start
    }

    /// Range membership test.
    pub fn address_in_space(&self, a: Address) -> (r: bool)
        ensures
            r == self.holds(a),
    {
        self.start <= a && a < self.end
    }
}

/// The phase of the collector as the host sees it.
#[derive(Clone, Copy, PartialEq, Eq, Structural, Debug)]
pub enum GcStatus {
    NotInGC,
    GcPrepare,
    GcProper,
}

/// The generational copying plan and its global collection state.
pub struct GenCopy {
    pub nursery: Extent,
    pub copyspace0: Extent,
    pub copyspace1: Extent,
    pub common: Extent,
    /// Which semispace is currently the tospace; flipped by each mature GC.
    pub hi: bool,
    /// Whether the collection under way is a nursery collection.
    pub in_nursery_gc: bool,
    pub gc_status: GcStatus,
    /// The stack-scan barrier counter; wraps by subtraction of the mutator
    /// count, never by reset.
    pub scanned_stacks: usize,
    pub stacks_prepared: bool,
    /// The next address of the tospace not yet handed to a copy context.
    pub tospace_cursor: Address,
}

impl GenCopy {
    /// The semispace being copied into during this collection.
    pub open spec fn spec_tospace(self) -> Extent {
        if self.hi {
            self.copyspace1
        } else {
            self.copyspace0
        }
    }

    /// The semispace being vacated during a mature collection.
    pub open spec fn spec_fromspace(self) -> Extent {
        if self.hi {
            self.copyspace0
        } else {
            self.copyspace1
        }
    }

    pub open spec fn wf(self) -> bool {
        &&& self.nursery.wf()
        &&& self.copyspace0.wf()
        &&& self.copyspace1.wf()
        &&& self.common.wf()
        &&& self.nursery.disjoint(self.copyspace0)
        &&& self.nursery.disjoint(self.copyspace1)
        &&& self.nursery.disjoint(self.common)
        &&& self.copyspace0.disjoint(self.copyspace1)
        &&& self.copyspace0.disjoint(self.common)
        &&& self.copyspace1.disjoint(self.common)
        &&& self.spec_tospace().start <= self.tospace_cursor <= self.spec_tospace().end
        &&& word_aligned(self.tospace_cursor)
    }

    pub fn new(nursery: Extent, copyspace0: Extent, copyspace1: Extent, common: Extent) -> (r:
        GenCopy)
        requires
            nursery.wf(),
            copyspace0.wf(),
            copyspace1.wf(),
            common.wf(),
            nursery.disjoint(copyspace0),
            nursery.disjoint(copyspace1),
            nursery.disjoint(common),
            copyspace0.disjoint(copyspace1),
            copyspace0.disjoint(common),
            copyspace1.disjoint(common),
        ensures
            r.wf(),
            r.nursery == nursery,
            r.copyspace0 == copyspace0,
            r.copyspace1 == copyspace1,
            r.common == common,
            !r.hi,
            r.gc_status == GcStatus::NotInGC,
            r.scanned_stacks == 0,
            r.spec_tospace() == copyspace0,
    {
        GenCopy {
            nursery,
            copyspace0,
            copyspace1,
            common,
            hi: false,
            in_nursery_gc: true,
            gc_status: GcStatus::NotInGC,
            scanned_stacks: 0,
            stacks_prepared: false,
            tospace_cursor: copyspace0.start,
        }
    }

    /// The current tospace.
    pub fn tospace(&self) -> (r: Extent)
        ensures
            r == self.spec_tospace(),
    {
        if self.hi {
            self.copyspace1
        } else {
            self.copyspace0
        }
    }

    /// The current fromspace.
    pub fn fromspace(&self) -> (r: Extent)
        ensures
            r == self.spec_fromspace(),
    {
        if self.hi {
            self.copyspace0
        } else {
            self.copyspace1
        }
    }

    /// Whether the collection under way is a nursery collection.
    pub fn in_nursery(&self) -> (r: bool)
        ensures
            r == self.in_nursery_gc,
    {
        self.in_nursery_gc
    }

    /// Whether the collector has passed initial root scanning.
    pub fn gc_in_progress_proper(&self) -> (r: bool)
        ensures
            r == (self.gc_status == GcStatus::GcProper),
    {
        self.gc_status == GcStatus::GcProper
    }

    pub fn set_gc_status(&mut self, s: GcStatus)
        ensures
            *final(self) == (GenCopy { gc_status: s, ..*old(self) }),
    {
        self.gc_status = s;
    }

    /// Global preparation for a collection. A mature collection swaps the
    /// semispace roles before any copy context is rebound, and starts handing
    /// out the freshly vacated tospace from its beginning; a nursery
    /// collection keeps the existing tospace and its hand-out cursor.
    pub fn prepare(&mut self, _tls: crate::constants::OpaquePointer)
        requires
            old(self).wf(),
        ensures
            final(self).wf(),
            final(self).hi == (if old(self).in_nursery_gc {
                old(self).hi
            } else {
                !old(self).hi
            }),
            !old(self).in_nursery_gc ==> final(self).spec_tospace() == old(self).spec_fromspace()
                && final(self).spec_fromspace() == old(self).spec_tospace(),
            old(self).in_nursery_gc ==> final(self).spec_tospace() == old(self).spec_tospace()
                && final(self).tospace_cursor == old(self).tospace_cursor,
            !old(self).in_nursery_gc ==> final(self).tospace_cursor == final(self).spec_tospace().start,
            final(self).nursery == old(self).nursery,
            final(self).copyspace0 == old(self).copyspace0,
            final(self).copyspace1 == old(self).copyspace1,
            final(self).common == old(self).common,
            final(self).in_nursery_gc == old(self).in_nursery_gc,
            final(self).gc_status == old(self).gc_status,
            final(self).scanned_stacks == old(self).scanned_stacks,
            final(self).stacks_prepared == old(self).stacks_prepared,
    {
        if !self.in_nursery_gc {
            self.hi = !self.hi;
            let ts = self.tospace();
            self.tospace_cursor = ts.start;
        }
    }

    /// Global release after a collection: the fromspace of a mature GC and
    /// the nursery stand vacated; nothing about the plan's ranges changes.
    pub fn release(&mut self, _tls: crate::constants::OpaquePointer)
        requires
            old(self).wf(),
        ensures
            *final(self) == *old(self),
    {
    }

    /// Hands the next block of the tospace to a copy context: a fresh range
    /// disjoint from every range handed out since the last prepare.
    pub fn acquire_copy_block(&mut self, bytes: usize) -> (r: Extent)
        requires
            old(self).wf(),
            word_aligned(bytes),
        ensures
            final(self).wf(),
            r.start == old(self).tospace_cursor,
            r.start <= r.end <= old(self).spec_tospace().end,
            r.end == (if bytes <= old(self).spec_tospace().end - old(self).tospace_cursor {
                (old(self).tospace_cursor + bytes) as usize
            } else {
                old(self).spec_tospace().end
            }),
            r.end == final(self).tospace_cursor,
            word_aligned(r.start),
            word_aligned(r.end),
            old(self).spec_tospace().start <= r.start,
            *final(self) == (GenCopy { tospace_cursor: final(self).tospace_cursor, ..*old(self) }),
    {
        let ts = self.tospace();
        let start = self.tospace_cursor;
        let end = if bytes <= ts.end - start {
            proof {
                crate::constants::lemma_word_aligned_add(start, bytes);
            }
            start + bytes
        } else {
            ts.end
        };
        self.tospace_cursor = end;
        Extent { start, end }
    }
}

} // verus!
