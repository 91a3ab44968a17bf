//! The copying trace: claiming an object's forwarding word, copying it into
//! the tospace through the worker's copy context, publishing the forwarding
//! pointer, and clearing the copy's own header. The well-formedness bundle
//! defined here is what every collection phase preserves.

use vstd::prelude::*;

verus! {

use crate::constants::{Address, ObjectReference, BYTES_IN_WORD, word_aligned};
use crate::plan::{GenCopy, GcStatus};
use crate::heap::{Heap, ForwardingState};
use crate::copy_context::{GenCopyCopyContext, AllocationSemantics};
use crate::bump::align_up;

/// An object's byte range lies wholly inside one of the plan's spaces.
pub open spec fn object_space_ok(plan: GenCopy, o: ObjectReference, bytes: usize) -> bool {
    ||| plan.nursery.holds_range(o, bytes)
    ||| plan.spec_fromspace().holds_range(o, bytes)
    ||| plan.spec_tospace().holds_range(o, bytes)
    ||| plan.common.holds_range(o, bytes)
}

/// A sized object is word-aligned, at least one word long, placed wholly in
/// one space, and all of its words exist in slot memory.
pub open spec fn valid_object(plan: GenCopy, heap: Heap, o: ObjectReference) -> bool {
    &&& word_aligned(o)
    &&& word_aligned(heap.sizes@[o])
    &&& BYTES_IN_WORD <= heap.sizes@[o]
    &&& o + heap.sizes@[o] <= usize::MAX
    &&& object_space_ok(plan, o, heap.sizes@[o])
    &&& forall|off: usize|
        0 <= off < heap.sizes@[o] && word_aligned(off) ==> heap.has_slot((o + off) as usize)
}

/// Every sized object is valid.
pub open spec fn valid_objects(plan: GenCopy, heap: Heap) -> bool {
    forall|o: ObjectReference| #[trigger] heap.sizes@.dom().contains(o)
        ==> valid_object(plan, heap, o)
}

/// No forwarding word holds the transient claim: between packet steps the
/// race on each object is settled.
pub open spec fn quiescent(heap: Heap) -> bool {
    forall|o: ObjectReference| #[trigger] heap.fwd_state(o) != ForwardingState::BeingForwarded
}

/// Every installed forwarding pointer leads to a sized object in the current
/// tospace.
pub open spec fn fwd_ok(plan: GenCopy, heap: Heap) -> bool {
    forall|o: ObjectReference| #[trigger] heap.fwd_state(o) matches ForwardingState::Forwarded(a)
        ==> a != 0 && heap.sizes@.dom().contains(a) && plan.spec_tospace().holds(a)
}

/// The copy context's unallocated block is free: no sized tospace object
/// overlaps it and no forwarding word within it is set.
pub open spec fn block_free(plan: GenCopy, heap: Heap, cc: GenCopyCopyContext) -> bool {
    &&& forall|o: ObjectReference|
        #[trigger] heap.sizes@.dom().contains(o) && plan.spec_tospace().holds(o)
            ==> o + heap.sizes@[o] <= cc.ss.cursor || cc.ss.limit <= o
    &&& forall|a: Address|
        cc.ss.cursor <= a < cc.ss.limit ==> #[trigger] heap.fwd_state(a)
            == ForwardingState::NotForwarded
}

/// The copy context is bound to a word-aligned block of the tospace.
pub open spec fn cc_ok(plan: GenCopy, cc: GenCopyCopyContext) -> bool {
    &&& cc.bound_in(plan)
    &&& word_aligned(cc.ss.cursor)
    &&& word_aligned(cc.ss.limit)
}

/// The whole bundle a trace step preserves.
pub open spec fn trace_inv(plan: GenCopy, heap: Heap, cc: GenCopyCopyContext) -> bool {
    &&& plan.wf()
    &&& valid_objects(plan, heap)
    &&& quiescent(heap)
    &&& fwd_ok(plan, heap)
    &&& block_free(plan, heap, cc)
    &&& cc_ok(plan, cc)
}

/// The copying trace of one object of an evacuated space (the nursery on
/// every collection, the fromspace on a mature one).
///
/// An already forwarded object is left exactly as it is and its installed
/// forwarding pointer is returned: re-running the trace on a forwarded
/// object is idempotent. An unforwarded object is claimed, copied into the
/// current tospace, its forwarding pointer installed, the copy's header
/// cleared, and the copy appended to the discovered-object list.
pub fn copy_space_trace_object(
    plan: &GenCopy,
    heap: &mut Heap,
    cc: &mut GenCopyCopyContext,
    nodes: &mut Vec<ObjectReference>,
    object: ObjectReference,
) -> (r: ObjectReference)
    requires
        plan.gc_status == GcStatus::GcProper,
        trace_inv(*plan, *old(heap), *old(cc)),
        object != 0,
        plan.nursery.holds(object) || plan.spec_fromspace().holds(object),
        old(heap).fwd_state(object) == ForwardingState::NotForwarded ==> {
            &&& old(heap).sizes@.dom().contains(object)
            &&& old(cc).ss.cursor + old(heap).sizes@[object] <= old(cc).ss.limit
        },
    ensures
        trace_inv(*plan, *final(heap), *final(cc)),
        final(cc).ss.limit == old(cc).ss.limit,
        final(cc).ss.tls == old(cc).ss.tls,
        old(cc).ss.cursor <= final(cc).ss.cursor,
        r != 0,
        plan.spec_tospace().holds(r),
        !plan.nursery.holds(r),
        !plan.spec_fromspace().holds(r),
        final(heap).fwd_state(object) == ForwardingState::Forwarded(r),
        final(heap).marks@ == old(heap).marks@,
        final(heap).meta == old(heap).meta,
        forall|a: Address| old(heap).has_slot(a) ==> final(heap).has_slot(a),
        // no forwarding word but the traced object's and the fresh copy's
        // changes, and new sizes appear only in the fresh range
        forall|o: ObjectReference|
            o != object && !(old(cc).ss.cursor <= o < final(cc).ss.cursor)
                ==> #[trigger] final(heap).fwd_state(o) == old(heap).fwd_state(o),
        forall|o: ObjectReference| #[trigger] final(heap).sizes@.dom().contains(o)
            ==> old(heap).sizes@.dom().contains(o) || (old(cc).ss.cursor <= o < final(cc).ss.cursor),
        // an already forwarded object is returned as is and nothing changes
        old(heap).fwd_state(object) matches ForwardingState::Forwarded(a) ==> r == a
            && *final(heap) == *old(heap) && *final(cc) == *old(cc)
            && final(nodes)@ == old(nodes)@,
        // installed forwarding pointers are never altered: every edge that
        // reaches a copied object terminates at its one copy
        forall|o: ObjectReference|
            #[trigger] old(heap).fwd_state(o) matches ForwardingState::Forwarded(a)
                ==> final(heap).fwd_state(o) == old(heap).fwd_state(o),
        // the copying case
        old(heap).fwd_state(object) == ForwardingState::NotForwarded ==> {
            let bytes = old(heap).sizes@[object];
            &&& r == old(cc).ss.cursor
            &&& final(cc).ss.cursor == r + bytes
            &&& plan.spec_tospace().holds_range(r, bytes)
            &&& final(heap).sizes@ == old(heap).sizes@.insert(r, bytes)
            &&& forall|off: usize|
                0 <= off < bytes && word_aligned(off) ==> final(heap).has_slot((r + off) as usize)
                    && final(heap).slot((r + off) as usize) == old(heap).slot(
                    (object + off) as usize,
                )
            &&& forall|a: Address|
                !(r <= a < r + bytes) ==> (final(heap).has_slot(a) == old(heap).has_slot(a)) && (
                old(heap).has_slot(a) ==> final(heap).slot(a) == old(heap).slot(a))
            &&& final(heap).fwd@ == old(heap).fwd@.insert(
                object,
                ForwardingState::Forwarded(r),
            ).insert(r, ForwardingState::NotForwarded)
            &&& final(nodes)@ == old(nodes)@.push(r)
        },
        old(heap).fwd_state(object) != ForwardingState::NotForwarded ==> final(heap).sizes@ == old(heap).sizes@ && final(nodes)@ == old(nodes)@,
    {
        let s = heap.forwarding_state(object);
        match s {
            ForwardingState::Forwarded(a) => a,
            ForwardingState::BeingForwarded => {
                proof {
                    assert(false);
                }
                0
            },
            ForwardingState::NotForwarded => {
                let _won = heap.attempt_to_forward(object);
                let bytes = heap.object_size(object);
                proof {
                    assert(old(heap).sizes@.dom().contains(object));
                    assert(valid_object(*plan, *old(heap), object));
                }
                let new_obj = cc.alloc_copy(
                    object,
                    bytes,
                    BYTES_IN_WORD,
                    0,
                    AllocationSemantics::Default,
                    plan,
                );
                proof {
                    assert(align_up(old(cc).ss.cursor, BYTES_IN_WORD) == old(cc).ss.cursor);
                    assert(new_obj != 0);
                    assert(new_obj == old(cc).ss.cursor);
                    // the source range lies in its own space, disjoint from
                    // the tospace target range
                    assert(object + bytes <= new_obj || new_obj + bytes <= object);
                }
                heap.install_forwarding_pointer(object, new_obj);
                cc.post_copy(new_obj, 0, bytes, AllocationSemantics::Default, heap);
                heap.set_object_size(new_obj, bytes);
                heap.copy_object(object, new_obj, bytes);
                nodes.push(new_obj);
                proof {
                    assert(heap.sizes@ =~= old(heap).sizes@.insert(new_obj, bytes));
                    assert(heap.fwd@ =~= old(heap).fwd@.insert(
                        object,
                        ForwardingState::Forwarded(new_obj),
                    ).insert(new_obj, ForwardingState::NotForwarded));
                    lemma_copy_preserves_inv(*plan, *old(heap), *heap, *old(cc), *cc, object,
                        new_obj, bytes);
                }
                new_obj
            },
        }
    }

/// Whether `v` refers into a space this collection evacuates: the nursery on
/// every collection, the fromspace too on a mature one.
pub open spec fn evacuated(mature: bool, plan: GenCopy, v: ObjectReference) -> bool {
    plan.nursery.holds(v) || (mature && plan.spec_fromspace().holds(v))
}

/// What a traced reference may legitimately be: null, an address in the
/// current tospace, a sized object of an evacuated space, or (on a mature
/// collection) a sized object of the common space.
pub open spec fn referent_ok(mature: bool, plan: GenCopy, heap: Heap, v: ObjectReference) -> bool {
    ||| v == 0
    ||| plan.spec_tospace().holds(v)
    ||| (evacuated(mature, plan, v) && heap.sizes@.dom().contains(v))
    ||| (mature && plan.common.holds(v) && heap.sizes@.dom().contains(v))
}

/// The plan-specific trace of one referent. Null is returned unchanged. A
/// referent of an evacuated space is copied (or its installed forwarding
/// pointer returned). A tospace referent is already where it belongs. On a
/// mature collection a common-space referent is marked and queued for
/// scanning once; it is never moved.
pub fn plan_trace_object(
    mature: bool,
    plan: &GenCopy,
    heap: &mut Heap,
    cc: &mut GenCopyCopyContext,
    nodes: &mut Vec<ObjectReference>,
    object: ObjectReference,
) -> (r: ObjectReference)
    requires
        plan.gc_status == GcStatus::GcProper,
        trace_inv(*plan, *old(heap), *old(cc)),
        referent_ok(mature, *plan, *old(heap), object),
        evacuated(mature, *plan, object) && old(heap).fwd_state(object)
            == ForwardingState::NotForwarded ==> old(cc).ss.cursor + old(heap).sizes@[object]
            <= old(cc).ss.limit,
    ensures
        trace_inv(*plan, *final(heap), *final(cc)),
        final(cc).ss.limit == old(cc).ss.limit,
        final(cc).ss.tls == old(cc).ss.tls,
        old(cc).ss.cursor <= final(cc).ss.cursor,
        (r == 0) <==> (object == 0),
        !plan.nursery.holds(r),
        mature ==> !plan.spec_fromspace().holds(r),
        r != 0 ==> plan.spec_tospace().holds(r) || (mature && plan.common.holds(r)),
        referent_ok(mature, *plan, *final(heap), r),
        // the evacuating cases: the object ends forwarded to the result
        evacuated(mature, *plan, object) ==> final(heap).fwd_state(object)
            == ForwardingState::Forwarded(r),
        evacuated(mature, *plan, object) && old(heap).fwd_state(object)
            == ForwardingState::NotForwarded ==> {
            let bytes = old(heap).sizes@[object];
            &&& r == old(cc).ss.cursor
            &&& final(cc).ss.cursor == r + bytes
            &&& plan.spec_tospace().holds_range(r, bytes)
            &&& final(heap).sizes@ == old(heap).sizes@.insert(r, bytes)
            &&& forall|off: usize|
                0 <= off < bytes && word_aligned(off) ==> final(heap).has_slot((r + off) as usize)
                    && final(heap).slot((r + off) as usize) == old(heap).slot(
                    (object + off) as usize,
                )
            &&& final(nodes)@ == old(nodes)@.push(r)
        },
        // re-tracing a forwarded object changes nothing and returns its copy
        evacuated(mature, *plan, object) ==> (old(heap).fwd_state(object) matches
            ForwardingState::Forwarded(a) ==> r == a && *final(heap) == *old(heap) && *final(cc)
            == *old(cc) && final(nodes)@ == old(nodes)@),
        // non-moving cases return the object itself
        object != 0 && !evacuated(mature, *plan, object) ==> r == object && *final(cc) == *old(cc)
            && final(heap).mem@ == old(heap).mem@ && final(heap).sizes@ == old(heap).sizes@
            && final(heap).fwd@ == old(heap).fwd@,
        object == 0 ==> *final(heap) == *old(heap) && *final(cc) == *old(cc)
            && final(nodes)@ == old(nodes)@,
        forall|a: Address| old(heap).has_slot(a) ==> final(heap).has_slot(a),
        // forwarding words change only at referents of the spaces this
        // collection evacuates and in the fresh range; new sizes appear only
        // in the fresh range
        forall|o: ObjectReference|
            !evacuated(mature, *plan, o) && !(old(cc).ss.cursor <= o < final(cc).ss.cursor)
                ==> #[trigger] final(heap).fwd_state(o) == old(heap).fwd_state(o),
        forall|o: ObjectReference| #[trigger] final(heap).sizes@.dom().contains(o)
            ==> old(heap).sizes@.dom().contains(o) || (old(cc).ss.cursor <= o < final(cc).ss.cursor),
        // slot memory changes only inside the freshly allocated range
        forall|a: Address|
            !(old(cc).ss.cursor <= a < final(cc).ss.cursor) ==> (final(heap).has_slot(a) == old(heap).has_slot(a)) && (old(heap).has_slot(a) ==> final(heap).slot(a) == old(heap).slot(
                a,
            )),
        // installed forwarding pointers are never altered
        forall|o: ObjectReference|
            #[trigger] old(heap).fwd_state(o) matches ForwardingState::Forwarded(a)
                ==> final(heap).fwd_state(o) == old(heap).fwd_state(o),
        // sized objects stay sized, at the same size
        forall|o: ObjectReference| #[trigger] old(heap).sizes@.dom().contains(o)
            ==> final(heap).sizes@.dom().contains(o) && final(heap).sizes@[o] == old(heap).sizes@[o],
        !mature ==> final(heap).marks@ == old(heap).marks@,
        final(heap).meta == old(heap).meta,
    {
        if object == 0 {
            return 0;
        }
        if plan.nursery.address_in_space(object) {
            return copy_space_trace_object(plan, heap, cc, nodes, object);
        }
        if mature {
            let ts = plan.tospace();
            if ts.address_in_space(object) {
                return object;
            }
            let fs = plan.fromspace();
            if fs.address_in_space(object) {
                return copy_space_trace_object(plan, heap, cc, nodes, object);
            }
            // the common space: a non-copying trace, marked and scanned once
            if !heap.is_marked(object) {
                heap.set_mark(object);
                nodes.push(object);
            }
            proof {
                lemma_inv_same_core(*plan, *old(heap), *heap, *cc);
            }
            object
        } else {
            // on a nursery collection every non-null, non-nursery referent
            // is already in the tospace
            object
        }
    }

/// The bundle does not depend on the mark or metadata state: two heaps with
/// the same slots, forwarding words and sizes satisfy it alike.
proof fn lemma_inv_same_core(plan: GenCopy, h0: Heap, h1: Heap, cc: GenCopyCopyContext)
    requires
        trace_inv(plan, h0, cc),
        h1.mem@ == h0.mem@,
        h1.fwd@ == h0.fwd@,
        h1.sizes@ == h0.sizes@,
    ensures
        trace_inv(plan, h1, cc),
    {
        assert forall|o: ObjectReference| #[trigger] h1.sizes@.dom().contains(o)
            implies valid_object(plan, h1, o) by {
            assert(h0.sizes@.dom().contains(o));
            assert(valid_object(plan, h0, o));
        }
        assert forall|o: ObjectReference| #[trigger] h1.fwd_state(o)
            != ForwardingState::BeingForwarded by {
            assert(h1.fwd_state(o) == h0.fwd_state(o));
        }
        assert forall|o: ObjectReference|
            #[trigger] h1.fwd_state(o) matches ForwardingState::Forwarded(a) ==> a != 0
                && h1.sizes@.dom().contains(a) && plan.spec_tospace().holds(a) by {
            assert(h1.fwd_state(o) == h0.fwd_state(o));
        }
        assert forall|o: ObjectReference|
            #[trigger] h1.sizes@.dom().contains(o) && plan.spec_tospace().holds(o)
            implies o + h1.sizes@[o] <= cc.ss.cursor || cc.ss.limit <= o by {
            assert(h0.sizes@.dom().contains(o));
        }
        assert forall|a: Address| cc.ss.cursor <= a < cc.ss.limit implies #[trigger] h1.fwd_state(
            a) == ForwardingState::NotForwarded by {
            assert(h1.fwd_state(a) == h0.fwd_state(a));
        }
    }

/// After one copy the well-formedness bundle still holds.
proof fn lemma_copy_preserves_inv(
    plan: GenCopy,
    h0: Heap,
    h1: Heap,
    cc0: GenCopyCopyContext,
    cc1: GenCopyCopyContext,
    object: ObjectReference,
    new_obj: ObjectReference,
    bytes: usize,
)
    requires
        plan.wf(),
        valid_objects(plan, h0),
        quiescent(h0),
        fwd_ok(plan, h0),
        block_free(plan, h0, cc0),
        cc_ok(plan, cc0),
        object != 0,
        plan.nursery.holds(object) || plan.spec_fromspace().holds(object),
        h0.fwd_state(object) == ForwardingState::NotForwarded,
        h0.sizes@.dom().contains(object),
        bytes == h0.sizes@[object],
        new_obj == cc0.ss.cursor,
        new_obj + bytes <= cc0.ss.limit,
        plan.spec_tospace().start <= new_obj,
        cc0.ss.limit <= plan.spec_tospace().end,
        cc1.ss.cursor == new_obj + bytes,
        cc1.ss.limit == cc0.ss.limit,
        word_aligned(cc1.ss.cursor),
        h1.sizes@ == h0.sizes@.insert(new_obj, bytes),
        h1.fwd@ == h0.fwd@.insert(object, ForwardingState::Forwarded(new_obj)).insert(
            new_obj,
            ForwardingState::NotForwarded,
        ),
        forall|off: usize|
            0 <= off < bytes && word_aligned(off) ==> h1.has_slot((new_obj + off) as usize),
        forall|a: Address|
            !(new_obj <= a < new_obj + bytes) ==> (h1.has_slot(a) == h0.has_slot(a)),
        h1.marks@ == h0.marks@,
        h1.meta == h0.meta,
    ensures
        valid_objects(plan, h1),
        quiescent(h1),
        fwd_ok(plan, h1),
        block_free(plan, h1, cc1),
    {
        assert(valid_object(plan, h0, object));
        assert forall|o: ObjectReference| #[trigger] h1.sizes@.dom().contains(o)
            implies valid_object(plan, h1, o) by {
            if o == new_obj {
                assert(plan.spec_tospace().holds_range(new_obj, bytes));
            } else {
                assert(h0.sizes@.dom().contains(o));
                assert(valid_object(plan, h0, o));
                assert forall|off: usize|
                    0 <= off < h1.sizes@[o] && word_aligned(off) implies h1.has_slot(
                    (o + off) as usize) by {
                    assert(h0.has_slot((o + off) as usize));
                    if plan.spec_tospace().holds_range(o, h0.sizes@[o]) {
                        // o lies outside the free block, so outside the target
                        assert(o + h0.sizes@[o] <= cc0.ss.cursor || cc0.ss.limit <= o);
                    }
                }
            }
        }
        assert forall|o: ObjectReference| #[trigger] h1.fwd_state(o)
            != ForwardingState::BeingForwarded by {
            if o != object && o != new_obj {
                assert(h1.fwd_state(o) == h0.fwd_state(o));
            }
        }
        assert forall|o: ObjectReference|
            #[trigger] h1.fwd_state(o) matches ForwardingState::Forwarded(a) ==> a != 0
                && h1.sizes@.dom().contains(a) && plan.spec_tospace().holds(a) by {
            if o == object {
                assert(new_obj >= plan.spec_tospace().start);
                assert(new_obj >= BYTES_IN_WORD);
            } else if o != new_obj {
                assert(h1.fwd_state(o) == h0.fwd_state(o));
            }
        }
        assert forall|o: ObjectReference|
            #[trigger] h1.sizes@.dom().contains(o) && plan.spec_tospace().holds(o)
            implies o + h1.sizes@[o] <= cc1.ss.cursor || cc1.ss.limit <= o by {
            if o != new_obj {
                assert(h0.sizes@.dom().contains(o));
            }
        }
        assert forall|a: Address| cc1.ss.cursor <= a < cc1.ss.limit implies #[trigger] h1.fwd_state(
            a) == ForwardingState::NotForwarded by {
            assert(h0.fwd_state(a) == ForwardingState::NotForwarded);
            assert(a != object);
            assert(a != new_obj);
        }
    }

} // verus!
