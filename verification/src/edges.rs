//! The edge-processing engine: a packet of slot addresses, processed one
//! slot at a time by loading the referent, tracing it, and writing the
//! traced reference back. Discovered objects are batched for scanning.

use vstd::prelude::*;

verus! {

use crate::constants::{Address, ObjectReference};
use crate::plan::{GenCopy, GcStatus};
use crate::heap::{Heap, ForwardingState};
use crate::copy_context::GenCopyCopyContext;
use crate::trace::{
    trace_inv, referent_ok, evacuated, plan_trace_object, valid_object,
};

/// Edges per packet before a new packet is cut.
pub const CAPACITY: usize = 4096;

/// The state shared by every edge-processing work packet: the slots to
/// process, the objects discovered while tracing them, whether the edges are
/// roots, and the worker the packet runs on (set on dispatch).
pub struct ProcessEdgesBase {
    pub edges: Vec<Address>,
    pub nodes: Vec<ObjectReference>,
    pub roots: bool,
    pub worker: usize,
}

impl ProcessEdgesBase {
    pub fn new(edges: Vec<Address>, roots: bool) -> (r: ProcessEdgesBase)
        ensures
            r.edges == edges,
            r.nodes@ == Seq::<ObjectReference>::empty(),
            r.roots == roots,
            r.worker == 0,
    {
        ProcessEdgesBase { edges, nodes: Vec::new(), roots, worker: 0 }
    }

    /// Binds the packet to the worker that will execute it.
    pub fn set_worker(&mut self, ordinal: usize)
        ensures
            *final(self) == (ProcessEdgesBase { worker: ordinal, ..*old(self) }),
    {
        self.worker = ordinal;
    }

    /// The ordinal of the worker the packet runs on.
    pub fn worker(&self) -> (r: usize)
        ensures
            r == self.worker,
    {
        self.worker
    }
}

/// The tospace bytes that tracing the referent `v` can consume: the object's
/// size if it lies in an evacuated space, nothing otherwise.
pub open spec fn copy_bytes_for(mature: bool, plan: GenCopy, heap: Heap, v: ObjectReference) -> int {
    if evacuated(mature, plan, v) && heap.sizes@.dom().contains(v) {
        heap.sizes@[v] as int
    } else {
        0
    }
}

/// An upper bound on the tospace bytes a packet of edges can consume, taken
/// over the referents the slots hold in `heap`.
pub open spec fn room_needed(mature: bool, plan: GenCopy, heap: Heap, edges: Seq<Address>) -> int
    decreases edges.len(),
{
    if edges.len() == 0 {
        0
    } else {
        copy_bytes_for(mature, plan, heap, heap.slot(edges[0])) + room_needed(
            mature,
            plan,
            heap,
            edges.skip(1),
        )
    }
}

/// The copy bound is never negative.
pub proof fn lemma_room_nonneg(mature: bool, plan: GenCopy, heap: Heap, edges: Seq<Address>)
    ensures
        room_needed(mature, plan, heap, edges) >= 0,
    decreases edges.len(),
{
    if edges.len() > 0 {
        lemma_room_nonneg(mature, plan, heap, edges.skip(1));
    }
}

/// Peeling one edge off the bound.
pub proof fn lemma_room_skip(mature: bool, plan: GenCopy, heap: Heap, edges: Seq<Address>, i: int)
    requires
        0 <= i < edges.len(),
    ensures
        room_needed(mature, plan, heap, edges.skip(i)) == copy_bytes_for(
            mature,
            plan,
            heap,
            heap.slot(edges[i]),
        ) + room_needed(mature, plan, heap, edges.skip(i + 1)),
{
    assert(edges.skip(i)[0] == edges[i]);
    assert(edges.skip(i).skip(1) =~= edges.skip(i + 1));
}

/// A slot a packet may process: it exists, and it lies outside the copy
/// context's unallocated block, so no copy can overwrite it.
pub open spec fn slot_ok(heap: Heap, cc: GenCopyCopyContext, a: Address) -> bool {
    &&& heap.has_slot(a)
    &&& !(cc.ss.cursor <= a < cc.ss.limit)
}

/// Processes one slot: loads the referent, traces it, and overwrites the
/// slot with the traced reference. After the call the slot holds no nursery
/// reference, and on a mature collection no fromspace reference either.
pub fn process_one_edge(
    mature: bool,
    plan: &GenCopy,
    heap: &mut Heap,
    cc: &mut GenCopyCopyContext,
    nodes: &mut Vec<ObjectReference>,
    slot: Address,
)
    requires
        plan.gc_status == GcStatus::GcProper,
        trace_inv(*plan, *old(heap), *old(cc)),
        slot_ok(*old(heap), *old(cc), slot),
        referent_ok(mature, *plan, *old(heap), old(heap).slot(slot)),
        copy_bytes_for(mature, *plan, *old(heap), old(heap).slot(slot)) <= old(cc).ss.limit - old(cc).ss.cursor,
    ensures
        trace_inv(*plan, *final(heap), *final(cc)),
        final(cc).ss.limit == old(cc).ss.limit,
        final(cc).ss.tls == old(cc).ss.tls,
        old(cc).ss.cursor <= final(cc).ss.cursor,
        final(cc).ss.cursor <= old(cc).ss.cursor + copy_bytes_for(
            mature,
            *plan,
            *old(heap),
            old(heap).slot(slot),
        ),
        final(heap).has_slot(slot),
        !plan.nursery.holds(final(heap).slot(slot)),
        mature ==> !plan.spec_fromspace().holds(final(heap).slot(slot)),
        (final(heap).slot(slot) == 0) <==> (old(heap).slot(slot) == 0),
        final(heap).slot(slot) != 0 ==> plan.spec_tospace().holds(final(heap).slot(slot)) || (
        mature && plan.common.holds(final(heap).slot(slot))),
        referent_ok(mature, *plan, *final(heap), final(heap).slot(slot)),
        // where the referent went: an evacuated referent is now forwarded to
        // the value written back; any other referent is written back as it was
        evacuated(mature, *plan, old(heap).slot(slot)) ==> final(heap).fwd_state(
            old(heap).slot(slot),
        ) == ForwardingState::Forwarded(final(heap).slot(slot)),
        !evacuated(mature, *plan, old(heap).slot(slot)) ==> final(heap).slot(slot) == old(heap).slot(slot),
        // framing: only this slot and the freshly allocated range change
        forall|a: Address|
            a != slot && !(old(cc).ss.cursor <= a < final(cc).ss.cursor) ==> (final(heap).has_slot(a) == old(heap).has_slot(a)) && (old(heap).has_slot(a) ==> final(heap).slot(a) == old(heap).slot(a)),
        forall|a: Address| old(heap).has_slot(a) ==> final(heap).has_slot(a),
        forall|o: ObjectReference|
            #[trigger] old(heap).fwd_state(o) matches ForwardingState::Forwarded(a)
                ==> final(heap).fwd_state(o) == old(heap).fwd_state(o),
        forall|o: ObjectReference| #[trigger] old(heap).sizes@.dom().contains(o)
            ==> final(heap).sizes@.dom().contains(o) && final(heap).sizes@[o] == old(heap).sizes@[o],
        forall|o: ObjectReference|
            !evacuated(mature, *plan, o) && !(old(cc).ss.cursor <= o < final(cc).ss.cursor)
                ==> #[trigger] final(heap).fwd_state(o) == old(heap).fwd_state(o),
        forall|o: ObjectReference| #[trigger] final(heap).sizes@.dom().contains(o)
            ==> old(heap).sizes@.dom().contains(o) || (old(cc).ss.cursor <= o < final(cc).ss.cursor),
        !mature ==> final(heap).marks@ == old(heap).marks@,
        final(heap).meta == old(heap).meta,
    {
        let loaded = heap.load_slot(slot);
        let new_object = plan_trace_object(mature, plan, heap, cc, nodes, loaded);
        let ghost h_mid = *heap;
        heap.store_slot(slot, new_object);
        proof {
            lemma_store_preserves_inv(*plan, h_mid, *heap, *cc, slot, new_object);
        }
    }

/// What each slot of a packet must satisfy when the packet is picked up, in
/// the heap of that moment.
pub open spec fn edges_ok(
    mature: bool,
    plan: GenCopy,
    heap: Heap,
    cc: GenCopyCopyContext,
    edges: Seq<Address>,
) -> bool {
    forall|j: int|
        0 <= j < edges.len() ==> slot_ok(heap, cc, #[trigger] edges[j]) && referent_ok(
            mature,
            plan,
            heap,
            heap.slot(edges[j]),
        )
}

/// Drains a packet of edges: each slot is processed once, in order. When the
/// packet is done, every one of its slots holds a traced reference: no slot
/// points into the nursery, and on a mature collection none points into the
/// fromspace.
pub fn process_edges_work(
    mature: bool,
    base: &mut ProcessEdgesBase,
    plan: &GenCopy,
    heap: &mut Heap,
    cc: &mut GenCopyCopyContext,
)
    requires
        plan.gc_status == GcStatus::GcProper,
        trace_inv(*plan, *old(heap), *old(cc)),
        edges_ok(mature, *plan, *old(heap), *old(cc), old(base).edges@),
        room_needed(mature, *plan, *old(heap), old(base).edges@) <= old(cc).ss.limit - old(cc).ss.cursor,
    ensures
        trace_inv(*plan, *final(heap), *final(cc)),
        final(cc).ss.limit == old(cc).ss.limit,
        final(cc).ss.tls == old(cc).ss.tls,
        old(cc).ss.cursor <= final(cc).ss.cursor,
        final(base).edges@ == old(base).edges@,
        final(base).roots == old(base).roots,
        final(base).worker == old(base).worker,
        // every processed slot holds a traced, non-nursery reference
        forall|j: int|
            0 <= j < old(base).edges@.len() ==> {
                let w = final(heap).slot(#[trigger] old(base).edges@[j]);
                &&& final(heap).has_slot(old(base).edges@[j])
                &&& !plan.nursery.holds(w)
                &&& (mature ==> !plan.spec_fromspace().holds(w))
                &&& (w != 0 ==> plan.spec_tospace().holds(w) || (mature && plan.common.holds(w)))
            },
        // each slot's final value is the traced image of its initial
        // referent: an evacuated referent ends forwarded to the written
        // value; any other referent is written back as it was
        forall|j: int|
            0 <= j < old(base).edges@.len() ==> {
                let v0 = old(heap).slot(#[trigger] old(base).edges@[j]);
                &&& (evacuated(mature, *plan, v0) ==> final(heap).fwd_state(v0)
                    == ForwardingState::Forwarded(final(heap).slot(old(base).edges@[j])))
                &&& (!evacuated(mature, *plan, v0) ==> final(heap).slot(old(base).edges@[j])
                    == v0)
            },
        // slots outside the packet and outside the fresh range are untouched
        forall|a: Address|
            !old(base).edges@.contains(a) && !(old(cc).ss.cursor <= a < final(cc).ss.cursor) ==> (
            final(heap).has_slot(a) == old(heap).has_slot(a)) && (old(heap).has_slot(a) ==> final(heap).slot(a) == old(heap).slot(a)),
        forall|a: Address| old(heap).has_slot(a) ==> final(heap).has_slot(a),
        forall|o: ObjectReference|
            #[trigger] old(heap).fwd_state(o) matches ForwardingState::Forwarded(a)
                ==> final(heap).fwd_state(o) == old(heap).fwd_state(o),
        forall|o: ObjectReference| #[trigger] old(heap).sizes@.dom().contains(o)
            ==> final(heap).sizes@.dom().contains(o) && final(heap).sizes@[o] == old(heap).sizes@[o],
        forall|o: ObjectReference|
            !evacuated(mature, *plan, o) && !(old(cc).ss.cursor <= o < final(cc).ss.cursor)
                ==> #[trigger] final(heap).fwd_state(o) == old(heap).fwd_state(o),
        forall|o: ObjectReference| #[trigger] final(heap).sizes@.dom().contains(o)
            ==> old(heap).sizes@.dom().contains(o) || (old(cc).ss.cursor <= o < final(cc).ss.cursor),
        !mature ==> final(heap).marks@ == old(heap).marks@,
        final(heap).meta == old(heap).meta,
    {
        let n = base.edges.len();
        let mut i: usize = 0;
        proof {
            assert(base.edges@.skip(0) =~= base.edges@);
            assert(base.edges@.take(0) =~= Seq::<Address>::empty());
        }
        while i < n
            invariant
                plan.gc_status == GcStatus::GcProper,
                trace_inv(*plan, *heap, *cc),
                0 <= i <= n,
                n == base.edges@.len(),
                base.edges@ == old(base).edges@,
                base.roots == old(base).roots,
                base.worker == old(base).worker,
                cc.ss.limit == old(cc).ss.limit,
                cc.ss.tls == old(cc).ss.tls,
                old(cc).ss.cursor <= cc.ss.cursor,
                // room still suffices for the remaining edges
                room_needed(mature, *plan, *old(heap), old(base).edges@.skip(i as int))
                    <= cc.ss.limit - cc.ss.cursor,
                // every edge of the packet was a live slot outside the block
                edges_ok(mature, *plan, *old(heap), *old(cc), old(base).edges@),
                forall|j: int|
                    i <= j < n ==> {
                        let v = heap.slot(#[trigger] old(base).edges@[j]);
                        ||| v == 0
                        ||| plan.spec_tospace().holds(v)
                        ||| (mature && plan.common.holds(v) && heap.sizes@.dom().contains(v))
                        ||| (v == old(heap).slot(old(base).edges@[j]) && evacuated(
                            mature,
                            *plan,
                            v,
                        ) && heap.sizes@.dom().contains(v))
                    },
                // processed edges hold traced references
                forall|j: int|
                    0 <= j < i ==> {
                        let w = heap.slot(#[trigger] old(base).edges@[j]);
                        &&& heap.has_slot(old(base).edges@[j])
                        &&& !plan.nursery.holds(w)
                        &&& (mature ==> !plan.spec_fromspace().holds(w))
                        &&& (w != 0 ==> plan.spec_tospace().holds(w) || (mature
                            && plan.common.holds(w)))
                    },
                forall|j: int|
                    0 <= j < i ==> {
                        let v0 = old(heap).slot(#[trigger] old(base).edges@[j]);
                        &&& (evacuated(mature, *plan, v0) ==> heap.fwd_state(v0)
                            == ForwardingState::Forwarded(heap.slot(old(base).edges@[j])))
                        &&& (!evacuated(mature, *plan, v0) ==> heap.slot(old(base).edges@[j])
                            == v0)
                    },
                forall|a: Address|
                    !old(base).edges@.take(i as int).contains(a) && !(old(cc).ss.cursor <= a
                        < cc.ss.cursor) ==> (heap.has_slot(a) == old(heap).has_slot(a)) && (old(heap).has_slot(a) ==> heap.slot(a) == old(heap).slot(a)),
                forall|a: Address| old(heap).has_slot(a) ==> heap.has_slot(a),
                forall|o: ObjectReference|
                    #[trigger] old(heap).fwd_state(o) matches ForwardingState::Forwarded(a)
                        ==> heap.fwd_state(o) == old(heap).fwd_state(o),
                forall|o: ObjectReference| #[trigger] old(heap).sizes@.dom().contains(o)
                    ==> heap.sizes@.dom().contains(o) && heap.sizes@[o] == old(heap).sizes@[o],
                forall|o: ObjectReference|
                    !evacuated(mature, *plan, o) && !(old(cc).ss.cursor <= o < cc.ss.cursor)
                        ==> #[trigger] heap.fwd_state(o) == old(heap).fwd_state(o),
                forall|o: ObjectReference| #[trigger] heap.sizes@.dom().contains(o)
                    ==> old(heap).sizes@.dom().contains(o) || (old(cc).ss.cursor <= o < cc.ss.cursor),
                !mature ==> heap.marks@ == old(heap).marks@,
                heap.meta == old(heap).meta,
            decreases n - i,
        {
            let slot = base.edges[i];
            let ghost h_i = *heap;
            let ghost cc_i = *cc;
            proof {
                assert(old(base).edges@[i as int] == slot);
                lemma_room_skip(mature, *plan, *old(heap), old(base).edges@, i as int);
                lemma_room_nonneg(mature, *plan, *old(heap), old(base).edges@.skip(i + 1));
                // the current referent's copy bound is covered by the bound
                // computed over the packet's initial referents
                assert(copy_bytes_for(mature, *plan, *heap, heap.slot(slot)) <= copy_bytes_for(
                    mature,
                    *plan,
                    *old(heap),
                    old(heap).slot(slot),
                )) by {
                    let v = heap.slot(slot);
                    if evacuated(mature, *plan, v) && heap.sizes@.dom().contains(v) {
                        assert(!plan.spec_tospace().holds(v));
                        assert(!(mature && plan.common.holds(v)));
                        assert(v == old(heap).slot(slot));
                        assert(slot_ok(*old(heap), *old(cc), old(base).edges@[i as int])
                            && referent_ok(
                            mature,
                            *plan,
                            *old(heap),
                            old(heap).slot(old(base).edges@[i as int]),
                        ));
                        assert(old(heap).sizes@.dom().contains(v));
                        assert(heap.sizes@[v] == old(heap).sizes@[v]);
                    }
                }
            }
            process_one_edge(mature, plan, heap, cc, &mut base.nodes, slot);
            proof {
                // remaining edges: an untouched slot keeps its value; an
                // aliased slot now holds a traced reference
                assert forall|j: int| i + 1 <= j < n implies {
                    let v = heap.slot(#[trigger] old(base).edges@[j]);
                    ||| v == 0
                    ||| plan.spec_tospace().holds(v)
                    ||| (mature && plan.common.holds(v) && heap.sizes@.dom().contains(v))
                    ||| (v == old(heap).slot(old(base).edges@[j]) && evacuated(mature, *plan, v)
                        && heap.sizes@.dom().contains(v))
                } by {
                    let a = old(base).edges@[j];
                    assert(slot_ok(*old(heap), *old(cc), a));
                    if a != slot {
                        assert(!(cc_i.ss.cursor <= a < cc.ss.cursor));
                        assert(heap.slot(a) == h_i.slot(a));
                    }
                }
                // processed edges keep holding traced references
                assert forall|j: int| 0 <= j < i + 1 implies {
                    let w = heap.slot(#[trigger] old(base).edges@[j]);
                    &&& heap.has_slot(old(base).edges@[j])
                    &&& !plan.nursery.holds(w)
                    &&& (mature ==> !plan.spec_fromspace().holds(w))
                    &&& (w != 0 ==> plan.spec_tospace().holds(w) || (mature && plan.common.holds(
                        w,
                    )))
                } by {
                    let a = old(base).edges@[j];
                    assert(slot_ok(*old(heap), *old(cc), a));
                    if a != slot {
                        assert(!(cc_i.ss.cursor <= a < cc.ss.cursor));
                        assert(heap.has_slot(a) == h_i.has_slot(a));
                    }
                }
                // the untouched-slot frame carries over one more step
                assert forall|a: Address|
                    !old(base).edges@.take(i + 1).contains(a) && !(old(cc).ss.cursor <= a
                        < cc.ss.cursor) implies (heap.has_slot(a) == old(heap).has_slot(a)) && (
                    old(heap).has_slot(a) ==> heap.slot(a) == old(heap).slot(a)) by {
                    assert(old(base).edges@.take(i + 1)[i as int] == slot);
                    assert(a != slot);
                    assert forall|q: int|
                        0 <= q < i implies old(base).edges@.take(i as int)[q] != a by {
                        assert(old(base).edges@.take(i + 1)[q] == old(base).edges@.take(
                            i as int,
                        )[q]);
                    }
                    assert(!old(base).edges@.take(i as int).contains(a));
                    assert(!(cc_i.ss.cursor <= a < cc.ss.cursor));
                    assert(heap.has_slot(a) == h_i.has_slot(a));
                }
                // each processed slot still holds the traced image of its
                // initial referent
                assert forall|j: int| 0 <= j < i + 1 implies {
                    let v0 = old(heap).slot(#[trigger] old(base).edges@[j]);
                    &&& (evacuated(mature, *plan, v0) ==> heap.fwd_state(v0)
                        == ForwardingState::Forwarded(heap.slot(old(base).edges@[j])))
                    &&& (!evacuated(mature, *plan, v0) ==> heap.slot(old(base).edges@[j]) == v0)
                } by {
                    let a = old(base).edges@[j];
                    let v0 = old(heap).slot(a);
                    if old(base).edges@.take(i as int).contains(a) {
                        let q = choose|q: int|
                            0 <= q < i && old(base).edges@.take(i as int)[q] == a;
                        assert(old(base).edges@[q] == a);
                        // the invariant gives the claims in the pre-step heap
                        assert(old(heap).slot(old(base).edges@[q]) == v0);
                        if a == slot {
                            // the slot is re-processed: its previous value was
                            // already a traced reference, which the trace
                            // leaves in place
                            let w = h_i.slot(a);
                            if evacuated(mature, *plan, v0) {
                                assert(h_i.fwd_state(v0) == ForwardingState::Forwarded(w));
                                assert(plan.spec_tospace().holds(w));
                                assert(!evacuated(mature, *plan, w));
                                assert(heap.slot(a) == w);
                                assert(heap.fwd_state(v0) == h_i.fwd_state(v0));
                            } else {
                                assert(h_i.slot(a) == v0);
                                assert(heap.slot(a) == v0);
                            }
                        } else {
                            assert(!(cc_i.ss.cursor <= a < cc.ss.cursor));
                            assert(heap.slot(a) == h_i.slot(a));
                            if evacuated(mature, *plan, v0) {
                                assert(h_i.fwd_state(v0) == ForwardingState::Forwarded(
                                    h_i.slot(a),
                                ));
                                assert(heap.fwd_state(v0) == h_i.fwd_state(v0));
                            }
                        }
                    } else {
                        // first occurrence of this slot: it was untouched
                        // until now, so its pre-step value is its initial one
                        if j < i {
                            assert(old(base).edges@.take(i as int)[j] == a);
                        }
                        assert(j == i && a == slot);
                        assert(slot_ok(*old(heap), *old(cc), a));
                        assert(!(old(cc).ss.cursor <= a < cc_i.ss.cursor));
                        assert(h_i.slot(a) == v0);
                    }
                }
            }
            i = i + 1;
        }
    }

/// Overwriting a slot leaves the bundle intact: slot memory only gains
/// bindings, and neither forwarding nor sizes change.
pub(crate) proof fn lemma_store_preserves_inv(
    plan: GenCopy,
    h0: Heap,
    h1: Heap,
    cc: GenCopyCopyContext,
    slot: Address,
    v: usize,
)
    requires
        trace_inv(plan, h0, cc),
        h1.fwd@ == h0.fwd@,
        h1.sizes@ == h0.sizes@,
        h1.mem@ == h0.mem@.insert(slot, v),
    ensures
        trace_inv(plan, h1, cc),
    {
        assert forall|o: ObjectReference| #[trigger] h1.sizes@.dom().contains(o)
            implies valid_object(plan, h1, o) by {
            assert(h0.sizes@.dom().contains(o));
            assert(valid_object(plan, h0, o));
            assert forall|off: usize|
                0 <= off < h1.sizes@[o] && crate::constants::word_aligned(off)
                implies h1.has_slot((o + off) as usize) by {
                assert(h0.has_slot((o + off) as usize));
            }
        }
        assert forall|o: ObjectReference| #[trigger] h1.fwd_state(o)
            != ForwardingState::BeingForwarded by {
            assert(h1.fwd_state(o) == h0.fwd_state(o));
        }
        assert forall|o: ObjectReference|
            #[trigger] h1.fwd_state(o) matches ForwardingState::Forwarded(a) ==> a != 0
                && h1.sizes@.dom().contains(a) && plan.spec_tospace().holds(a) by {
            assert(h1.fwd_state(o) == h0.fwd_state(o));
        }
        assert forall|o: ObjectReference|
            #[trigger] h1.sizes@.dom().contains(o) && plan.spec_tospace().holds(o)
            implies o + h1.sizes@[o] <= cc.ss.cursor || cc.ss.limit <= o by {
            assert(h0.sizes@.dom().contains(o));
        }
        assert forall|a: Address| cc.ss.cursor <= a < cc.ss.limit implies #[trigger] h1.fwd_state(
            a) == ForwardingState::NotForwarded by {
            assert(h1.fwd_state(a) == h0.fwd_state(a));
        }
    }

} // verus!
