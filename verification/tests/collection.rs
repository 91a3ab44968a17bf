use gencopy::gencopy::GenCopyProcessModBuf;
use gencopy::heap::Heap;
use gencopy::mmtk::{execute_packet, gc_run, schedule_collection, GcRunStatus, Scheduler, MMTK};
use gencopy::plan::{Extent, GcStatus, GenCopy};
use gencopy::scheduler::{GCWorker, Mutator, ScanObjects, ScanStackRoot, ScheduleCollection,
    StopMutators, WorkBucketStage, WorkPacket, stage_index};

const NURSERY: Extent = Extent { start: 0x10000, end: 0x20000 };
const CS0: Extent = Extent { start: 0x20000, end: 0x30000 };
const CS1: Extent = Extent { start: 0x30000, end: 0x40000 };
const COMMON: Extent = Extent { start: 0x40000, end: 0x50000 };

fn fresh_world(mutators: Vec<Mutator>) -> MMTK {
    MMTK {
        plan: GenCopy::new(NURSERY, CS0, CS1, COMMON),
        heap: Heap::new(),
        scheduler: Scheduler::new(),
        workers: vec![GCWorker::new(0, true)],
        mutators,
        vm_roots: Vec::new(),
        reference_processors: Vec::new(),
        scan_mutators_in_safepoint: true,
        single_thread_mutator_scanning: false,
    }
}

fn put_object(heap: &mut Heap, at: usize, fields: &[usize]) {
    let mut off: usize = 0;
    for f in fields {
        heap.store_slot(at + off, *f);
        off += 8;
    }
    heap.set_object_size(at, fields.len() * 8);
}

fn in_extent(e: Extent, a: usize) -> bool {
    e.start <= a && a < e.end
}

#[test]
fn promotion_moves_all_live_nursery_objects() {
    // one mutator, three nursery objects reachable from its stack; a nursery
    // collection promotes all of them into the tospace and leaves the other
    // semispace untouched
    let y1 = 0x10010;
    let y2 = 0x10040;
    let y3 = 0x10080;
    let mut mmtk = fresh_world(vec![Mutator::new(7, vec![0x1000, 0x1008, 0x1010])]);
    put_object(&mut mmtk.heap, y1, &[0, 0]);
    put_object(&mut mmtk.heap, y2, &[0]);
    put_object(&mut mmtk.heap, y3, &[0, 0, 0]);
    mmtk.heap.store_slot(0x1000, y1);
    mmtk.heap.store_slot(0x1008, y2);
    mmtk.heap.store_slot(0x1010, y3);

    let before_counter = mmtk.plan.scanned_stacks;
    schedule_collection(&mut mmtk, true);
    let r = gc_run(&mut mmtk, 1000);
    assert_eq!(r, GcRunStatus::Complete);

    for slot in [0x1000usize, 0x1008, 0x1010] {
        let w = mmtk.heap.load_slot(slot);
        assert!(!in_extent(NURSERY, w));
        assert!(in_extent(CS0, w));
    }
    // the three live objects were promoted to distinct addresses
    let w1 = mmtk.heap.load_slot(0x1000);
    let w2 = mmtk.heap.load_slot(0x1008);
    let w3 = mmtk.heap.load_slot(0x1010);
    assert!(w1 != w2 && w2 != w3 && w1 != w3);
    // the counter returned to its pre-collection value modulo one mutator
    assert_eq!(mmtk.plan.scanned_stacks % 1, before_counter % 1);
    assert_eq!(mmtk.plan.gc_status, GcStatus::NotInGC);
}

#[test]
fn remembered_set_updates_the_recorded_slot() {
    // mature object M holds nursery object Y in a field recorded by the
    // write barrier; after a nursery collection the field holds Y's new
    // tospace address
    let m = 0x20000;
    let y = 0x10010;
    let mut mmtk = fresh_world(vec![Mutator::new(7, Vec::new())]);
    put_object(&mut mmtk.heap, m, &[0, y, 0]);
    put_object(&mut mmtk.heap, y, &[0, 0]);
    // M lives below the tospace hand-out cursor
    mmtk.plan.tospace_cursor = 0x20018;
    mmtk.scheduler.add(
        WorkBucketStage::Closure,
        WorkPacket::GenCopyModBuf(GenCopyProcessModBuf::new(vec![m], vec![m + 8])),
    );

    schedule_collection(&mut mmtk, true);
    let r = gc_run(&mut mmtk, 1000);
    assert_eq!(r, GcRunStatus::Complete);

    let w = mmtk.heap.load_slot(m + 8);
    assert!(w != y);
    assert!(in_extent(CS0, w));
    // the copy carries Y's contents
    assert_eq!(mmtk.heap.load_slot(w), 0);
    assert_eq!(mmtk.heap.load_slot(w + 8), 0);
}

#[test]
fn nursery_gc_with_empty_mod_buf_evacuates_no_mature_object() {
    // a mature object unreferenced from any root stays exactly where it is
    let m = 0x20100;
    let mut mmtk = fresh_world(vec![Mutator::new(7, Vec::new())]);
    put_object(&mut mmtk.heap, m, &[5, 6]);
    mmtk.plan.tospace_cursor = 0x20200;

    schedule_collection(&mut mmtk, true);
    let r = gc_run(&mut mmtk, 1000);
    assert_eq!(r, GcRunStatus::Complete);

    assert_eq!(mmtk.heap.load_slot(m), 5);
    assert_eq!(mmtk.heap.load_slot(m + 8), 6);
    assert_eq!(mmtk.heap.object_size(m), 16);
}

#[test]
fn mature_gc_gates_mod_buf_and_closes_through_roots() {
    // a mature collection with a populated mod buf: the processor enqueues
    // no packets, yet the full-heap closure still reaches every live object
    // through the roots
    let m = 0x20000;
    let y = 0x10010;
    let mut mmtk = fresh_world(vec![Mutator::new(7, vec![0x1000])]);
    put_object(&mut mmtk.heap, m, &[y, 0]);
    put_object(&mut mmtk.heap, y, &[0]);
    mmtk.heap.store_slot(0x1000, m);
    mmtk.plan.tospace_cursor = 0x20010;
    mmtk.plan.in_nursery_gc = false;

    // the gating itself: the packet does nothing on a mature collection
    let closure = stage_index(WorkBucketStage::Closure);
    let before = mmtk.scheduler.work_buckets[closure].len();
    let ok = execute_packet(
        &mut mmtk,
        0,
        WorkPacket::GenCopyModBuf(GenCopyProcessModBuf::new(vec![m], vec![m])),
    );
    assert!(ok);
    assert_eq!(mmtk.scheduler.work_buckets[closure].len(), before);

    schedule_collection(&mut mmtk, false);
    let r = gc_run(&mut mmtk, 1000);
    assert_eq!(r, GcRunStatus::Complete);

    // the root slot now points into the new tospace (the other semispace)
    let w = mmtk.heap.load_slot(0x1000);
    assert!(in_extent(CS1, w));
    assert!(!in_extent(NURSERY, w));
    assert!(!in_extent(CS0, w));
    // M's first field was rewritten to Y's copy, also in the new tospace
    let f = mmtk.heap.load_slot(w);
    assert!(in_extent(CS1, f));
    assert!(!in_extent(NURSERY, f));
    assert!(!in_extent(CS0, f));
}

#[test]
fn stack_scan_barrier_fires_once_after_the_last_mutator() {
    // five mutators, multi-threaded scanning: five ScanStackRoot packets;
    // the status turns to proper exactly once, on the fifth increment, and
    // the counter wraps back by subtraction
    let mut muts = Vec::new();
    for i in 0..5 {
        muts.push(Mutator::new(i, Vec::new()));
    }
    let mut mmtk = fresh_world(muts);
    mmtk.plan.gc_status = GcStatus::GcPrepare;

    for i in 0..5usize {
        let ok = execute_packet(&mut mmtk, 0, WorkPacket::ScanStackRoot(ScanStackRoot(i)));
        assert!(ok);
        if i < 4 {
            assert_eq!(mmtk.plan.gc_status, GcStatus::GcPrepare);
            assert_eq!(mmtk.plan.scanned_stacks, i + 1);
        } else {
            assert_eq!(mmtk.plan.gc_status, GcStatus::GcProper);
            assert_eq!(mmtk.plan.scanned_stacks, 0);
        }
    }
}

#[test]
fn counter_returns_to_start_modulo_mutators() {
    let mut muts = Vec::new();
    for i in 0..3 {
        muts.push(Mutator::new(i, Vec::new()));
    }
    let mut mmtk = fresh_world(muts);
    let before = mmtk.plan.scanned_stacks;
    schedule_collection(&mut mmtk, true);
    let r = gc_run(&mut mmtk, 1000);
    assert_eq!(r, GcRunStatus::Complete);
    assert_eq!(mmtk.plan.scanned_stacks % 3, before % 3);
}

#[test]
fn scan_objects_with_empty_buffer_is_a_no_op() {
    let mut mmtk = fresh_world(vec![Mutator::new(7, Vec::new())]);
    mmtk.plan.gc_status = GcStatus::GcProper;
    let closure = stage_index(WorkBucketStage::Closure);
    let before = mmtk.scheduler.work_buckets[closure].len();
    let ok = execute_packet(
        &mut mmtk,
        0,
        WorkPacket::ScanObjects(ScanObjects::new(Vec::new(), false)),
    );
    assert!(ok);
    assert_eq!(mmtk.scheduler.work_buckets[closure].len(), before);
    assert_eq!(mmtk.plan.gc_status, GcStatus::GcProper);
}

#[test]
fn transitive_closure_promotes_linked_objects() {
    // a nursery object pointing at another nursery object: both are
    // promoted and the copied field is rewritten
    let y1 = 0x10010;
    let y2 = 0x10060;
    let mut mmtk = fresh_world(vec![Mutator::new(7, vec![0x1000])]);
    put_object(&mut mmtk.heap, y1, &[y2, 0]);
    put_object(&mut mmtk.heap, y2, &[0]);
    mmtk.heap.store_slot(0x1000, y1);

    schedule_collection(&mut mmtk, true);
    let r = gc_run(&mut mmtk, 1000);
    assert_eq!(r, GcRunStatus::Complete);

    let w1 = mmtk.heap.load_slot(0x1000);
    assert!(in_extent(CS0, w1));
    let f = mmtk.heap.load_slot(w1);
    assert!(in_extent(CS0, f));
    assert_eq!(mmtk.heap.load_slot(f), 0);
}

#[test]
fn run_with_no_fuel_reports_out_of_fuel() {
    let mut mmtk = fresh_world(vec![Mutator::new(7, Vec::new())]);
    schedule_collection(&mut mmtk, true);
    let r = gc_run(&mut mmtk, 0);
    assert_eq!(r, GcRunStatus::OutOfFuel);
}

#[test]
fn unsized_referent_faults_the_collection() {
    // a root slot holding a nursery address with no recorded object is a
    // plan bug: the collection stops with a fault
    let mut mmtk = fresh_world(vec![Mutator::new(7, vec![0x1000])]);
    mmtk.heap.store_slot(0x1000, 0x10010);
    schedule_collection(&mut mmtk, true);
    let r = gc_run(&mut mmtk, 1000);
    assert_eq!(r, GcRunStatus::Fault);
}

#[test]
fn common_space_object_is_traced_without_moving() {
    // a mature collection reaches a common-space object through a root; the
    // object is marked and scanned but never moved, and its nursery field is
    // still evacuated
    let c = 0x40010;
    let y = 0x10010;
    let mut mmtk = fresh_world(vec![Mutator::new(7, vec![0x1000])]);
    put_object(&mut mmtk.heap, c, &[y, 0]);
    put_object(&mut mmtk.heap, y, &[0]);
    mmtk.heap.store_slot(0x1000, c);
    mmtk.plan.in_nursery_gc = false;

    schedule_collection(&mut mmtk, false);
    let r = gc_run(&mut mmtk, 1000);
    assert_eq!(r, GcRunStatus::Complete);

    // the common object stayed put
    assert_eq!(mmtk.heap.load_slot(0x1000), c);
    // its field was rewritten to the nursery object's copy in the tospace
    let f = mmtk.heap.load_slot(c);
    assert!(f != y);
    assert!(in_extent(CS1, f));
}

#[test]
fn nursery_slots_hold_no_nursery_reference_after_collection() {
    // every processed slot of a completed nursery collection holds either
    // null or a tospace reference
    let y1 = 0x10010;
    let y2 = 0x10030;
    let mut mmtk = fresh_world(vec![Mutator::new(7, vec![0x1000, 0x1008, 0x1010])]);
    put_object(&mut mmtk.heap, y1, &[y2, 0]);
    put_object(&mut mmtk.heap, y2, &[0, y1]);
    mmtk.heap.store_slot(0x1000, y1);
    mmtk.heap.store_slot(0x1008, y2);
    mmtk.heap.store_slot(0x1010, 0);

    schedule_collection(&mut mmtk, true);
    let r = gc_run(&mut mmtk, 1000);
    assert_eq!(r, GcRunStatus::Complete);

    for slot in [0x1000usize, 0x1008, 0x1010] {
        let w = mmtk.heap.load_slot(slot);
        assert!(w == 0 || in_extent(CS0, w));
        assert!(!in_extent(NURSERY, w));
    }
    // the cyclic fields were rewritten against the copies too
    let w1 = mmtk.heap.load_slot(0x1000);
    let w2 = mmtk.heap.load_slot(0x1008);
    assert_eq!(mmtk.heap.load_slot(w1), w2);
    assert_eq!(mmtk.heap.load_slot(w2 + 8), w1);
}

#[test]
fn schedule_collection_lays_out_the_phases() {
    let mut mmtk = fresh_world(vec![Mutator::new(7, Vec::new())]);
    let ok = execute_packet(
        &mut mmtk,
        0,
        WorkPacket::ScheduleCollection(ScheduleCollection),
    );
    assert!(ok);
    assert_eq!(mmtk.plan.gc_status, GcStatus::GcPrepare);
    assert_eq!(mmtk.scheduler.coordinator_queue.len(), 1);
    assert!(matches!(
        mmtk.scheduler.coordinator_queue[0],
        WorkPacket::StopMutators(_)
    ));
    assert_eq!(mmtk.scheduler.work_buckets[stage_index(WorkBucketStage::Prepare)].len(), 1);
    assert_eq!(mmtk.scheduler.work_buckets[stage_index(WorkBucketStage::Release)].len(), 1);
    assert_eq!(mmtk.scheduler.work_buckets[stage_index(WorkBucketStage::Final)].len(), 1);
    assert_eq!(mmtk.scheduler.work_buckets[stage_index(WorkBucketStage::Closure)].len(), 0);
}

#[test]
fn stop_mutators_requeues_itself_off_the_coordinator() {
    // a coordinator packet picked up by a non-coordinator worker goes back
    // to the coordinator queue and nothing else happens
    let mut mmtk = fresh_world(vec![Mutator::new(7, Vec::new())]);
    mmtk.workers = vec![GCWorker::new(0, false)];
    let ok = execute_packet(&mut mmtk, 0, WorkPacket::StopMutators(StopMutators));
    assert!(ok);
    assert_eq!(mmtk.scheduler.coordinator_queue.len(), 1);
    assert!(matches!(
        mmtk.scheduler.coordinator_queue[0],
        WorkPacket::StopMutators(_)
    ));
    assert!(!mmtk.mutators[0].paused);
    assert_eq!(mmtk.scheduler.work_buckets[stage_index(WorkBucketStage::Prepare)].len(), 0);
}

#[test]
fn stop_mutators_pauses_and_seeds_root_scans() {
    let mut mmtk = fresh_world(vec![Mutator::new(1, Vec::new()), Mutator::new(2, Vec::new())]);
    let ok = execute_packet(&mut mmtk, 0, WorkPacket::StopMutators(StopMutators));
    assert!(ok);
    assert!(mmtk.mutators[0].paused && mmtk.mutators[1].paused);
    // two per-mutator stack scans plus the host-specific root scan
    let prep = &mmtk.scheduler.work_buckets[stage_index(WorkBucketStage::Prepare)];
    assert_eq!(prep.len(), 3);
    assert!(matches!(prep[0], WorkPacket::ScanStackRoot(_)));
    assert!(matches!(prep[1], WorkPacket::ScanStackRoot(_)));
    assert!(matches!(prep[2], WorkPacket::ScanVMSpecificRoots(_)));
}
