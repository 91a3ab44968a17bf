//! The generational copying plan's own work: the nursery and mature edge
//! traces, and the remembered-set (mod-buf) processor whose behaviour is
//! gated on the collection kind.

use vstd::prelude::*;

verus! {

use crate::constants::{Address, ObjectReference};
use crate::plan::{GenCopy, GcStatus};
use crate::heap::{Heap, ForwardingState};
use crate::copy_context::GenCopyCopyContext;
use crate::trace::{trace_inv, referent_ok, evacuated, plan_trace_object};
use crate::edges::{
    ProcessEdgesBase, process_one_edge, process_edges_work, edges_ok, room_needed, slot_ok,
    copy_bytes_for,
};

/// The edge trace of a nursery collection: evacuates nursery referents and
/// leaves everything else where it is. Referents must already be null, in
/// the nursery, or in the tospace; a fromspace referent during a nursery
/// collection is a plan bug.
pub struct GenCopyNurseryProcessEdges {
    pub base: ProcessEdgesBase,
}

impl GenCopyNurseryProcessEdges {
    pub fn new(edges: Vec<Address>, roots: bool) -> (r: GenCopyNurseryProcessEdges)
        ensures
            r.base.edges == edges,
            r.base.nodes@ == Seq::<ObjectReference>::empty(),
            r.base.roots == roots,
    {
        GenCopyNurseryProcessEdges { base: ProcessEdgesBase::new(edges, roots) }
    }

    /// Traces one referent. Null and tospace referents come back unchanged;
    /// a nursery referent comes back as its tospace copy. The result is
    /// never a nursery address.
    pub fn trace_object(
        &mut self,
        plan: &GenCopy,
        heap: &mut Heap,
        cc: &mut GenCopyCopyContext,
        object: ObjectReference,
    ) -> (r: ObjectReference)
        requires
            plan.gc_status == GcStatus::GcProper,
            trace_inv(*plan, *old(heap), *old(cc)),
            referent_ok(false, *plan, *old(heap), object),
            plan.nursery.holds(object) && old(heap).fwd_state(object)
                == ForwardingState::NotForwarded ==> old(cc).ss.cursor + old(heap).sizes@[object]
                <= old(cc).ss.limit,
        ensures
            trace_inv(*plan, *final(heap), *final(cc)),
            (r == 0) <==> (object == 0),
            !plan.nursery.holds(r),
            r != 0 ==> plan.spec_tospace().holds(r),
            plan.nursery.holds(object) ==> final(heap).fwd_state(object)
                == ForwardingState::Forwarded(r),
            object != 0 && !plan.nursery.holds(object) ==> r == object,
            plan.nursery.holds(object) ==> (old(heap).fwd_state(object) matches
                ForwardingState::Forwarded(a) ==> r == a && *final(heap) == *old(heap)
                && *final(cc) == *old(cc)),
            // a null referent changes nothing at all
            object == 0 ==> *final(heap) == *old(heap) && *final(cc) == *old(cc)
                && final(self).base.nodes@ == old(self).base.nodes@,
            // a non-moving referent leaves memory, sizes, forwarding and the
            // copy context untouched
            object != 0 && !plan.nursery.holds(object) ==> *final(cc) == *old(cc)
                && final(heap).mem@ == old(heap).mem@ && final(heap).sizes@ == old(heap).sizes@
                && final(heap).fwd@ == old(heap).fwd@,
            final(heap).marks@ == old(heap).marks@,
            // sized objects stay sized, at the same size
            forall|o: ObjectReference| #[trigger] old(heap).sizes@.dom().contains(o)
                ==> final(heap).sizes@.dom().contains(o) && final(heap).sizes@[o] == old(heap).sizes@[o],
            forall|o: ObjectReference|
                #[trigger] old(heap).fwd_state(o) matches ForwardingState::Forwarded(a)
                    ==> final(heap).fwd_state(o) == old(heap).fwd_state(o),
    {
        plan_trace_object(false, plan, heap, cc, &mut self.base.nodes, object)
    }

    /// Processes one slot: loads, traces, overwrites. The slot must not lie
    /// in the fromspace during a nursery collection, and afterwards it never
    /// holds a nursery reference.
    pub fn process_edge(
        &mut self,
        plan: &GenCopy,
        heap: &mut Heap,
        cc: &mut GenCopyCopyContext,
        slot: Address,
    )
        requires
            plan.gc_status == GcStatus::GcProper,
            trace_inv(*plan, *old(heap), *old(cc)),
            slot_ok(*old(heap), *old(cc), slot),
            !plan.spec_fromspace().holds(slot),
            referent_ok(false, *plan, *old(heap), old(heap).slot(slot)),
            copy_bytes_for(false, *plan, *old(heap), old(heap).slot(slot)) <= old(cc).ss.limit
                - old(cc).ss.cursor,
        ensures
            trace_inv(*plan, *final(heap), *final(cc)),
            final(heap).has_slot(slot),
            !plan.nursery.holds(final(heap).slot(slot)),
            final(heap).slot(slot) != 0 ==> plan.spec_tospace().holds(final(heap).slot(slot)),
            (final(heap).slot(slot) == 0) <==> (old(heap).slot(slot) == 0),
            plan.nursery.holds(old(heap).slot(slot)) ==> final(heap).fwd_state(
                old(heap).slot(slot),
            ) == ForwardingState::Forwarded(final(heap).slot(slot)),
            !plan.nursery.holds(old(heap).slot(slot)) ==> final(heap).slot(slot) == old(heap).slot(
                slot,
            ),
    {
        process_one_edge(false, plan, heap, cc, &mut self.base.nodes, slot)
    }

    /// Drains this packet's edges in order.
    pub fn process_edges(&mut self, plan: &GenCopy, heap: &mut Heap, cc: &mut GenCopyCopyContext)
        requires
            plan.gc_status == GcStatus::GcProper,
            trace_inv(*plan, *old(heap), *old(cc)),
            edges_ok(false, *plan, *old(heap), *old(cc), old(self).base.edges@),
            room_needed(false, *plan, *old(heap), old(self).base.edges@) <= old(cc).ss.limit - old(cc).ss.cursor,
        ensures
            trace_inv(*plan, *final(heap), *final(cc)),
            final(self).base.edges@ == old(self).base.edges@,
            forall|j: int|
                0 <= j < old(self).base.edges@.len() ==> {
                    let w = final(heap).slot(#[trigger] old(self).base.edges@[j]);
                    &&& final(heap).has_slot(old(self).base.edges@[j])
                    &&& !plan.nursery.holds(w)
                    &&& (w != 0 ==> plan.spec_tospace().holds(w))
                },
            // each slot ends holding the traced image of its initial
            // referent: a nursery referent is forwarded to the written value,
            // any other referent is written back unchanged
            forall|j: int|
                0 <= j < old(self).base.edges@.len() ==> {
                    let v0 = old(heap).slot(#[trigger] old(self).base.edges@[j]);
                    &&& (plan.nursery.holds(v0) ==> final(heap).fwd_state(v0)
                        == ForwardingState::Forwarded(final(heap).slot(old(self).base.edges@[j])))
                    &&& (!plan.nursery.holds(v0) ==> final(heap).slot(old(self).base.edges@[j])
                        == v0)
                },
    {
        process_edges_work(false, &mut self.base, plan, heap, cc)
    }

    /// Queues a discovered object for scanning. At most one scan packet can
    /// come out of this buffer, so it is sized once, up front.
    pub fn process_node(&mut self, object: ObjectReference)
        ensures
            final(self).base.nodes@ == old(self).base.nodes@.push(object),
            final(self).base.edges@ == old(self).base.edges@,
    {
        if self.base.nodes.len() == 0 {
            self.base.nodes.reserve(crate::edges::CAPACITY);
        }
        self.base.nodes.push(object);
    }

    /// Drains the discovered objects into a buffer for a scan packet.
    pub fn flush(&mut self) -> (r: Vec<ObjectReference>)
        ensures
            r@ == old(self).base.nodes@,
            final(self).base.nodes@ == Seq::<ObjectReference>::empty(),
            final(self).base.edges@ == old(self).base.edges@,
    {
        let mut drained: Vec<ObjectReference> = Vec::new();
        core::mem::swap(&mut drained, &mut self.base.nodes);
        drained
    }
}

/// The edge trace of a mature collection: evacuates nursery and fromspace
/// referents, leaves tospace referents in place, and marks common-space
/// referents for a single non-copying scan.
pub struct GenCopyMatureProcessEdges {
    pub base: ProcessEdgesBase,
}

impl GenCopyMatureProcessEdges {
    pub fn new(edges: Vec<Address>, roots: bool) -> (r: GenCopyMatureProcessEdges)
        ensures
            r.base.edges == edges,
            r.base.nodes@ == Seq::<ObjectReference>::empty(),
            r.base.roots == roots,
    {
        GenCopyMatureProcessEdges { base: ProcessEdgesBase::new(edges, roots) }
    }

    /// Traces one referent. After the call the result is never in the
    /// nursery and never in the fromspace.
    pub fn trace_object(
        &mut self,
        plan: &GenCopy,
        heap: &mut Heap,
        cc: &mut GenCopyCopyContext,
        object: ObjectReference,
    ) -> (r: ObjectReference)
        requires
            plan.gc_status == GcStatus::GcProper,
            trace_inv(*plan, *old(heap), *old(cc)),
            referent_ok(true, *plan, *old(heap), object),
            evacuated(true, *plan, object) && old(heap).fwd_state(object)
                == ForwardingState::NotForwarded ==> old(cc).ss.cursor + old(heap).sizes@[object]
                <= old(cc).ss.limit,
        ensures
            trace_inv(*plan, *final(heap), *final(cc)),
            (r == 0) <==> (object == 0),
            !plan.nursery.holds(r),
            !plan.spec_fromspace().holds(r),
            r != 0 ==> plan.spec_tospace().holds(r) || plan.common.holds(r),
            evacuated(true, *plan, object) ==> final(heap).fwd_state(object)
                == ForwardingState::Forwarded(r),
            object != 0 && !evacuated(true, *plan, object) ==> r == object,
            evacuated(true, *plan, object) ==> (old(heap).fwd_state(object) matches
                ForwardingState::Forwarded(a) ==> r == a && *final(heap) == *old(heap)
                && *final(cc) == *old(cc)),
            // a null referent changes nothing at all
            object == 0 ==> *final(heap) == *old(heap) && *final(cc) == *old(cc)
                && final(self).base.nodes@ == old(self).base.nodes@,
            // a non-moving referent leaves memory, sizes, forwarding and the
            // copy context untouched (a common-space referent may be marked)
            object != 0 && !evacuated(true, *plan, object) ==> *final(cc) == *old(cc)
                && final(heap).mem@ == old(heap).mem@ && final(heap).sizes@ == old(heap).sizes@
                && final(heap).fwd@ == old(heap).fwd@,
            // sized objects stay sized, at the same size
            forall|o: ObjectReference| #[trigger] old(heap).sizes@.dom().contains(o)
                ==> final(heap).sizes@.dom().contains(o) && final(heap).sizes@[o] == old(heap).sizes@[o],
            forall|o: ObjectReference|
                #[trigger] old(heap).fwd_state(o) matches ForwardingState::Forwarded(a)
                    ==> final(heap).fwd_state(o) == old(heap).fwd_state(o),
    {
        plan_trace_object(true, plan, heap, cc, &mut self.base.nodes, object)
    }

    /// Drains this packet's edges in order.
    pub fn process_edges(&mut self, plan: &GenCopy, heap: &mut Heap, cc: &mut GenCopyCopyContext)
        requires
            plan.gc_status == GcStatus::GcProper,
            trace_inv(*plan, *old(heap), *old(cc)),
            edges_ok(true, *plan, *old(heap), *old(cc), old(self).base.edges@),
            room_needed(true, *plan, *old(heap), old(self).base.edges@) <= old(cc).ss.limit - old(cc).ss.cursor,
        ensures
            trace_inv(*plan, *final(heap), *final(cc)),
            final(self).base.edges@ == old(self).base.edges@,
            forall|j: int|
                0 <= j < old(self).base.edges@.len() ==> {
                    let w = final(heap).slot(#[trigger] old(self).base.edges@[j]);
                    &&& final(heap).has_slot(old(self).base.edges@[j])
                    &&& !plan.nursery.holds(w)
                    &&& !plan.spec_fromspace().holds(w)
                    &&& (w != 0 ==> plan.spec_tospace().holds(w) || plan.common.holds(w))
                },
            // each slot ends holding the traced image of its initial
            // referent: an evacuated referent is forwarded to the written
            // value, any other referent is written back unchanged
            forall|j: int|
                0 <= j < old(self).base.edges@.len() ==> {
                    let v0 = old(heap).slot(#[trigger] old(self).base.edges@[j]);
                    &&& (evacuated(true, *plan, v0) ==> final(heap).fwd_state(v0)
                        == ForwardingState::Forwarded(final(heap).slot(old(self).base.edges@[j])))
                    &&& (!evacuated(true, *plan, v0) ==> final(heap).slot(old(self).base.edges@[j])
                        == v0)
                },
    {
        process_edges_work(true, &mut self.base, plan, heap, cc)
    }

    /// Queues a discovered object for scanning. At most one scan packet can
    /// come out of this buffer, so it is sized once, up front.
    pub fn process_node(&mut self, object: ObjectReference)
        ensures
            final(self).base.nodes@ == old(self).base.nodes@.push(object),
            final(self).base.edges@ == old(self).base.edges@,
    {
        if self.base.nodes.len() == 0 {
            self.base.nodes.reserve(crate::edges::CAPACITY);
        }
        self.base.nodes.push(object);
    }

    /// Drains the discovered objects into a buffer for a scan packet.
    pub fn flush(&mut self) -> (r: Vec<ObjectReference>)
        ensures
            r@ == old(self).base.nodes@,
            final(self).base.nodes@ == Seq::<ObjectReference>::empty(),
            final(self).base.edges@ == old(self).base.edges@,
    {
        let mut drained: Vec<ObjectReference> = Vec::new();
        core::mem::swap(&mut drained, &mut self.base.nodes);
        drained
    }
}

/// The remembered-set processor's buffers: objects and slots recorded by the
/// write barrier between collections.
pub struct GenCopyProcessModBuf {
    pub modified_nodes: Vec<ObjectReference>,
    pub modified_edges: Vec<Address>,
}

impl GenCopyProcessModBuf {
    pub fn new(modified_nodes: Vec<ObjectReference>, modified_edges: Vec<Address>) -> (r:
        GenCopyProcessModBuf)
        ensures
            r.modified_nodes == modified_nodes,
            r.modified_edges == modified_edges,
    {
        GenCopyProcessModBuf { modified_nodes, modified_edges }
    }
}

} // verus!
