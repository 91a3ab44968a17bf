use gencopy::bump::BumpAllocator;
use gencopy::copy_context::GenCopyCopyContext;
use gencopy::gencopy::GenCopyNurseryProcessEdges;
use gencopy::heap::{ForwardingState, Heap};
use gencopy::interior::process_one_interior_edge;
use gencopy::plan::{Extent, GcStatus, GenCopy};
use gencopy::trace::copy_space_trace_object;

const NURSERY: Extent = Extent { start: 0x10000, end: 0x20000 };
const CS0: Extent = Extent { start: 0x20000, end: 0x30000 };
const CS1: Extent = Extent { start: 0x30000, end: 0x40000 };
const COMMON: Extent = Extent { start: 0x40000, end: 0x50000 };

fn proper_plan() -> GenCopy {
    let mut plan = GenCopy::new(NURSERY, CS0, CS1, COMMON);
    plan.gc_status = GcStatus::GcProper;
    plan
}

fn prepared_context(plan: &mut GenCopy) -> GenCopyCopyContext {
    let mut cc = GenCopyCopyContext::new();
    cc.prepare(plan);
    cc
}

fn put_object(heap: &mut Heap, at: usize, fields: &[usize]) {
    let mut off: usize = 0;
    for f in fields {
        heap.store_slot(at + off, *f);
        off += 8;
    }
    heap.set_object_size(at, fields.len() * 8);
}

#[test]
fn bump_alloc_is_aligned_and_bumps() {
    let mut b = BumpAllocator::new(0);
    b.rebind(Extent { start: 0x20000, end: 0x20100 });
    let a1 = b.bump_alloc(24, 8);
    assert_eq!(a1, 0x20000);
    let a2 = b.bump_alloc(16, 16);
    assert_eq!(a2 % 16, 0);
    assert_eq!(a2, 0x20020);
    // exhaustion returns the null sentinel and allocates nothing
    let a3 = b.bump_alloc(0x1000, 8);
    assert_eq!(a3, 0);
    let a4 = b.bump_alloc(8, 8);
    assert_eq!(a4, 0x20030);
}

#[test]
fn trace_copies_once_and_is_idempotent() {
    let mut plan = proper_plan();
    let mut heap = Heap::new();
    let y = 0x10010;
    put_object(&mut heap, y, &[0, 0, 0]);
    let mut cc = prepared_context(&mut plan);
    let mut nodes = Vec::new();

    let a1 = copy_space_trace_object(&plan, &mut heap, &mut cc, &mut nodes, y);
    assert_eq!(a1, 0x20000);
    assert_eq!(heap.forwarding_state(y), ForwardingState::Forwarded(a1));
    // the copy's own header is clear
    assert_eq!(heap.forwarding_state(a1), ForwardingState::NotForwarded);
    assert_eq!(nodes, vec![a1]);

    // re-running the trace on a forwarded object changes nothing and
    // returns the forwarded reference
    let a2 = copy_space_trace_object(&plan, &mut heap, &mut cc, &mut nodes, y);
    assert_eq!(a2, a1);
    assert_eq!(nodes.len(), 1);
}

#[test]
fn forwarding_race_installs_exactly_one_copy() {
    // two edges to the same nursery object: only one copy exists, and both
    // slots end up holding the identical new address
    let mut plan = proper_plan();
    let mut heap = Heap::new();
    let y = 0x10010;
    put_object(&mut heap, y, &[0, 0]);
    heap.store_slot(0x1000, y);
    heap.store_slot(0x1008, y);
    let mut cc = prepared_context(&mut plan);

    let mut pkt = GenCopyNurseryProcessEdges::new(vec![0x1000, 0x1008], true);
    pkt.process_edges(&plan, &mut heap, &mut cc);

    let w1 = heap.load_slot(0x1000);
    let w2 = heap.load_slot(0x1008);
    assert_eq!(w1, w2);
    assert_eq!(w1, 0x20000);
    // exactly one copy was allocated: two words of object, cursor moved once
    assert_eq!(heap.forwarding_state(y), ForwardingState::Forwarded(w1));
}

#[test]
fn copied_object_keeps_its_words() {
    let mut plan = proper_plan();
    let mut heap = Heap::new();
    let y = 0x10020;
    put_object(&mut heap, y, &[7, 11, 13]);
    let mut cc = prepared_context(&mut plan);
    let mut nodes = Vec::new();
    let a = copy_space_trace_object(&plan, &mut heap, &mut cc, &mut nodes, y);
    assert_eq!(heap.load_slot(a), 7);
    assert_eq!(heap.load_slot(a + 8), 11);
    assert_eq!(heap.load_slot(a + 16), 13);
}

#[test]
fn nursery_trace_leaves_tospace_referents_alone() {
    let mut plan = proper_plan();
    let mut heap = Heap::new();
    let m = 0x20000;
    put_object(&mut heap, m, &[0, 0, 0]);
    plan.tospace_cursor = 0x20018;
    let mut cc = prepared_context(&mut plan);
    let mut pkt = GenCopyNurseryProcessEdges::new(Vec::new(), false);
    let r = pkt.trace_object(&plan, &mut heap, &mut cc, m);
    assert_eq!(r, m);
    let z = pkt.trace_object(&plan, &mut heap, &mut cc, 0);
    assert_eq!(z, 0);
}

#[test]
fn interior_pointer_is_rewritten_against_the_copy() {
    // object O with reference address A in the fromspace, interior pointer
    // P = A + 24 in a slot; after a mature-trace step on the slot, it holds
    // the copy's address plus the same 24 bytes
    let mut plan = proper_plan();
    plan.in_nursery_gc = false;
    let mut heap = Heap::new();
    let a = 0x30010;
    put_object(&mut heap, a, &[1, 2, 3, 4]);
    heap.meta.map_meta_space_for_chunk(0);
    // the alloc bit sits one header below the reference address
    heap.meta.set_alloc_bit(a - 16);
    let p = a + 24;
    heap.store_slot(0x1000, p);
    let mut cc = prepared_context(&mut plan);
    let mut nodes = Vec::new();

    process_one_interior_edge(true, &plan, &mut heap, &mut cc, &mut nodes, 0x1000);

    let new_a = match heap.forwarding_state(a) {
        ForwardingState::Forwarded(t) => t,
        _ => panic!("object was not forwarded"),
    };
    assert_eq!(new_a, 0x20000);
    assert_eq!(heap.load_slot(0x1000), new_a + 24);
}
