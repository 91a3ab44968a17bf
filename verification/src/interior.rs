//! Edge kinds: a normal edge holds an object reference directly; an interior
//! edge holds a pointer into the middle of an object, resolved to the object
//! head through the alloc bitmap before tracing and rebuilt from the traced
//! reference afterwards.

use vstd::prelude::*;

verus! {

use crate::constants::{
    Address, ObjectReference, BYTES_IN_WORD, word_aligned, spec_chunk_align_down,
};
use crate::metadata::MetaSpace;
use crate::plan::{GenCopy, GcStatus};
use crate::heap::{Heap, ForwardingState};
use crate::copy_context::GenCopyCopyContext;
use crate::trace::{trace_inv, referent_ok, evacuated, plan_trace_object};
use crate::edges::{slot_ok, copy_bytes_for};

/// Object references point one header past the allocation start whose alloc
/// bit is set.
pub const OBJECT_REF_OFFSET: usize = 16;

/// `h` is the allocation head an interior pointer `p` resolves to: the
/// nearest word with a set alloc bit at or below `p`.
pub open spec fn is_object_head(meta: MetaSpace, p: Address, h: Address) -> bool {
    &&& meta.bits().contains(h)
    &&& h <= p
    &&& word_aligned(h)
    &&& forall|w: Address|
        h < w <= p && word_aligned(w) ==> !(#[trigger] meta.bits().contains(w))
}

/// The head an interior pointer resolves to (unique when it exists).
pub open spec fn object_head(meta: MetaSpace, p: Address) -> Address {
    choose|h: Address| is_object_head(meta, p, h)
}

/// At most one head resolves a given interior pointer.
pub proof fn lemma_object_head_unique(meta: MetaSpace, p: Address, h1: Address, h2: Address)
    requires
        is_object_head(meta, p, h1),
        is_object_head(meta, p, h2),
    ensures
        h1 == h2,
{
    if h1 < h2 {
        assert(!meta.bits().contains(h2));
    }
    if h2 < h1 {
        assert(!meta.bits().contains(h1));
    }
}

/// What an edge kind does around the trace: resolve the loaded value to the
/// reference to trace, and rebuild the slot's new value from the traced
/// reference.
pub trait ProcessEdges: Sized {
    /// When the loaded value can be resolved.
    spec fn pre_ok(&self, meta: MetaSpace, ob: usize) -> bool;

    /// The reference the trace receives.
    spec fn pre_val(&self, meta: MetaSpace, ob: usize) -> usize;

    /// The distance recorded from the resolved reference to the loaded value.
    spec fn recorded_offset(&self) -> usize;

    /// What the resolved reference is, relative to the loaded value.
    spec fn resolves(&self, meta: MetaSpace, ob: usize, r: usize) -> bool;

    fn new() -> (r: Self)
        ensures
            r.recorded_offset() == 0,
    ;

    /// Resolves the loaded value; records the offset back to it.
    fn preprocess_edge(&mut self, meta: &MetaSpace, ob: usize) -> (r: usize)
        requires
            old(self).pre_ok(*meta, ob),
        ensures
            r == old(self).pre_val(*meta, ob),
            r + final(self).recorded_offset() == ob,
            old(self).resolves(*meta, ob, r),
    ;

    /// Rebuilds the slot value from the traced reference.
    fn postprocess_edge(&mut self, ob: usize) -> (r: usize)
        requires
            ob + old(self).recorded_offset() <= usize::MAX,
        ensures
            r == ob + old(self).recorded_offset(),
            *final(self) == *old(self),
    ;
}

/// Normal edges pass the loaded reference straight through.
pub struct NormalEdges;

impl ProcessEdges for NormalEdges {
    open spec fn pre_ok(&self, meta: MetaSpace, ob: usize) -> bool {
        true
    }

    open spec fn pre_val(&self, meta: MetaSpace, ob: usize) -> usize {
        ob
    }

    open spec fn recorded_offset(&self) -> usize {
        0
    }

    open spec fn resolves(&self, meta: MetaSpace, ob: usize, r: usize) -> bool {
        r == ob
    }

    fn new() -> (r: Self) {
        NormalEdges
    }

    fn preprocess_edge(&mut self, _meta: &MetaSpace, ob: usize) -> (r: usize) {
        ob
    }

    fn postprocess_edge(&mut self, ob: usize) -> (r: usize) {
        ob
    }
}

/// Interior edges resolve the loaded pointer to its object head through the
/// alloc bitmap, trace the object reference one header past the head, and
/// re-add the recorded distance afterwards.
pub struct InteriorEdges {
    pub offset: usize,
}

impl ProcessEdges for InteriorEdges {
    open spec fn pre_ok(&self, meta: MetaSpace, ob: usize) -> bool {
        &&& meta.wf()
        &&& word_aligned(ob)
        &&& exists|h: Address|
            {
                &&& #[trigger] meta.bits().contains(h)
                &&& h <= ob
                &&& forall|w: Address|
                    h <= w <= ob && word_aligned(w) ==> meta.chunks().contains(
                        #[trigger] spec_chunk_align_down(w),
                    )
            }
        &&& forall|h: Address|
            is_object_head(meta, ob, h) ==> h + OBJECT_REF_OFFSET <= ob
    }

    open spec fn pre_val(&self, meta: MetaSpace, ob: usize) -> usize {
        (object_head(meta, ob) + OBJECT_REF_OFFSET) as usize
    }

    open spec fn recorded_offset(&self) -> usize {
        self.offset
    }

    open spec fn resolves(&self, meta: MetaSpace, ob: usize, r: usize) -> bool {
        &&& OBJECT_REF_OFFSET <= r
        &&& is_object_head(meta, ob, (r - OBJECT_REF_OFFSET) as usize)
    }

    fn new() -> (r: Self) {
        InteriorEdges { offset: 0 }
    }

    fn preprocess_edge(&mut self, meta: &MetaSpace, ob: usize) -> (r: usize) {
        let head = meta.find_object(ob);
        proof {
            let h = object_head(*meta, ob);
            assert(is_object_head(*meta, ob, head));
            assert(is_object_head(*meta, ob, h)) by {
                assert(is_object_head(*meta, ob, head));
            }
            lemma_object_head_unique(*meta, ob, head, h);
        }
        let new_address = head + OBJECT_REF_OFFSET;
        self.offset = ob - new_address;
        new_address
    }

    fn postprocess_edge(&mut self, ob: usize) -> (r: usize) {
        ob + self.offset
    }
}

/// Processes one slot holding an interior pointer: the pointer is resolved
/// to its object head, the object reference is traced (moving the object if
/// its space is evacuated), and the slot is rewritten with the traced
/// reference plus the original interior distance. If the object moved from
/// address `A` to address `A'`, a slot holding `A + d` now holds `A' + d`.
pub fn process_one_interior_edge(
    mature: bool,
    plan: &GenCopy,
    heap: &mut Heap,
    cc: &mut GenCopyCopyContext,
    nodes: &mut Vec<ObjectReference>,
    slot: Address,
)
    requires
        plan.gc_status == GcStatus::GcProper,
        trace_inv(*plan, *old(heap), *old(cc)),
        slot_ok(*old(heap), *old(cc), slot),
        (InteriorEdges { offset: 0 }).pre_ok(old(heap).meta, old(heap).slot(slot)),
        referent_ok(
            mature,
            *plan,
            *old(heap),
            (object_head(old(heap).meta, old(heap).slot(slot)) + OBJECT_REF_OFFSET) as usize,
        ),
        copy_bytes_for(
            mature,
            *plan,
            *old(heap),
            (object_head(old(heap).meta, old(heap).slot(slot)) + OBJECT_REF_OFFSET) as usize,
        ) <= old(cc).ss.limit - old(cc).ss.cursor,
        plan.spec_tospace().end + old(heap).slot(slot) <= usize::MAX,
        plan.common.end + old(heap).slot(slot) <= usize::MAX,
    ensures
        trace_inv(*plan, *final(heap), *final(cc)),
        final(heap).has_slot(slot),
        ({
            let p = old(heap).slot(slot);
            let obj = (object_head(old(heap).meta, p) + OBJECT_REF_OFFSET) as usize;
            let d = (p - obj) as usize;
            &&& (evacuated(mature, *plan, obj) ==> {
                &&& final(heap).fwd_state(obj) matches ForwardingState::Forwarded(t)
                &&& final(heap).slot(slot) == final_target(*final(heap), obj) + d
                &&& !plan.nursery.holds(final_target(*final(heap), obj))
            })
            &&& (!evacuated(mature, *plan, obj) ==> final(heap).slot(slot) == p)
        }),
        final(heap).meta == old(heap).meta,
{
    let p = heap.load_slot(slot);
    let mut ie = InteriorEdges::new();
    let obj = ie.preprocess_edge(&heap.meta, p);
    let traced = plan_trace_object(mature, plan, heap, cc, nodes, obj);
    proof {
        assert(obj != 0);
        assert(traced != 0);
        assert(traced + ie.recorded_offset() <= usize::MAX);
    }
    let new_p = ie.postprocess_edge(traced);
    let ghost h_mid = *heap;
    heap.store_slot(slot, new_p);
    proof {
        crate::edges::lemma_store_preserves_inv(*plan, h_mid, *heap, *cc, slot, new_p);
    }
}

/// The forwarding target an evacuated object ended at.
pub open spec fn final_target(heap: Heap, obj: ObjectReference) -> ObjectReference {
    match heap.fwd_state(obj) {
        ForwardingState::Forwarded(t) => t,
        _ => 0,
    }
}

} // verus!
