//! The container that owns one collection's moving parts — the plan, the
//! heap, the scheduler's buckets and workers, and the mutators — together
//! with the packet dispatcher and the bucket-ordered run loop that drives a
//! collection to completion.

use vstd::prelude::*;

verus! {

use crate::constants::{Address, ObjectReference, BYTES_IN_WORD};
use crate::plan::{GenCopy, GcStatus};
use crate::heap::{Heap, ForwardingState};
use crate::copy_context::GenCopyCopyContext;
use crate::trace::{
    trace_inv, valid_objects, quiescent, fwd_ok, block_free, cc_ok, referent_ok,
};
use crate::edges::{edges_ok, room_needed, slot_ok, lemma_room_skip};
use crate::gencopy::{GenCopyNurseryProcessEdges, GenCopyMatureProcessEdges};
use crate::scheduler::{
    WorkPacket, WorkBucketStage, GCWorker, Mutator, NUM_STAGES, stage_index, ScheduleCollection,
    Prepare, PrepareMutator, PrepareCollector, Release, ReleaseMutator, ReleaseCollector,
    StopMutators, EndOfGC, ScanStackRoots, ScanStackRoot, ScanVMSpecificRoots, ScanObjects,
    ProcessModBuf,
};

/// The global work pool: one queue per bucket stage, plus the serialized
/// coordinator queue.
pub struct Scheduler {
    pub work_buckets: Vec<Vec<WorkPacket>>,
    pub coordinator_queue: Vec<WorkPacket>,
}

impl Scheduler {
    pub open spec fn wf(self) -> bool {
        self.work_buckets@.len() == NUM_STAGES
    }

    pub fn new() -> (r: Scheduler)
        ensures
            r.wf(),
            forall|s: int| 0 <= s < NUM_STAGES ==> (#[trigger] r.work_buckets@[s])@.len() == 0,
            r.coordinator_queue@.len() == 0,
    {
        let mut work_buckets: Vec<Vec<WorkPacket>> = Vec::new();
        let mut i: usize = 0;
        while i < NUM_STAGES
            invariant
                0 <= i <= NUM_STAGES,
                work_buckets@.len() == i,
                forall|s: int| 0 <= s < i ==> (#[trigger] work_buckets@[s])@.len() == 0,
            decreases NUM_STAGES - i,
        {
            work_buckets.push(Vec::new());
            i = i + 1;
        }
        Scheduler { work_buckets, coordinator_queue: Vec::new() }
    }

    /// Queues a packet at the back of the named bucket; every other queue is
    /// untouched.
    pub fn add(&mut self, stage: WorkBucketStage, p: WorkPacket)
        requires
            old(self).wf(),
        ensures
            final(self).wf(),
            final(self).coordinator_queue == old(self).coordinator_queue,
            (final(self).work_buckets@[stage_index(stage) as int])@ == (old(self).work_buckets@[stage_index(stage) as int])@.push(p),
            forall|s: int|
                0 <= s < NUM_STAGES && s != stage_index(stage)
                    ==> #[trigger] final(self).work_buckets@[s] == old(self).work_buckets@[s],
    {
        let s = stage_index(stage);
        let bucket = &mut self.work_buckets[s];
        bucket.push(p);
    }

    /// Queues a packet at the back of the coordinator's serialized queue.
    pub fn add_coordinator_work(&mut self, p: WorkPacket)
        requires
            old(self).wf(),
        ensures
            final(self).wf(),
            final(self).work_buckets == old(self).work_buckets,
            final(self).coordinator_queue@ == old(self).coordinator_queue@.push(p),
    {
        self.coordinator_queue.push(p);
    }
}

/// The whole collection state.
pub struct MMTK {
    pub plan: GenCopy,
    pub heap: Heap,
    pub scheduler: Scheduler,
    pub workers: Vec<GCWorker>,
    pub mutators: Vec<Mutator>,
    /// Roots the host enumerates itself, beyond mutator stacks.
    pub vm_roots: Vec<Address>,
    pub reference_processors: Vec<ObjectReference>,
    /// Host capability flags.
    pub scan_mutators_in_safepoint: bool,
    pub single_thread_mutator_scanning: bool,
}

/// A worker is usable for copying only once prepared: its context is bound
/// to a free block of the tospace that ends at or before the plan's hand-out
/// cursor.
pub open spec fn worker_ok(plan: GenCopy, heap: Heap, w: GCWorker) -> bool {
    w.prepared ==> cc_ok(plan, w.copy) && block_free(plan, heap, w.copy) && w.copy.ss.limit
        <= plan.tospace_cursor
}

/// The blocks of prepared workers never overlap: no two workers can hand out
/// the same copy address.
pub open spec fn workers_disjoint(ws: Seq<GCWorker>) -> bool {
    forall|i: int, j: int|
        0 <= i < ws.len() && 0 <= j < ws.len() && i != j && (#[trigger] ws[i]).prepared && (
        #[trigger] ws[j]).prepared ==> ws[i].copy.ss.limit <= ws[j].copy.ss.cursor
            || ws[j].copy.ss.limit <= ws[i].copy.ss.cursor
}

/// What every step of a collection preserves.
pub open spec fn world_wf(plan: GenCopy, heap: Heap, ws: Seq<GCWorker>) -> bool {
    &&& plan.wf()
    &&& valid_objects(plan, heap)
    &&& quiescent(heap)
    &&& fwd_ok(plan, heap)
    &&& forall|i: int| 0 <= i < ws.len() ==> worker_ok(plan, heap, #[trigger] ws[i])
    &&& workers_disjoint(ws)
}

impl MMTK {
    pub open spec fn wf(self) -> bool {
        &&& world_wf(self.plan, self.heap, self.workers@)
        &&& self.scheduler.wf()
    }
}

/// The packets queued in one bucket.
pub open spec fn bucket_of(sched: Scheduler, s: WorkBucketStage) -> Seq<WorkPacket> {
    (sched.work_buckets@[crate::scheduler::spec_stage_index(s) as int])@
}

/// Checks that every slot of an edge packet can be processed in the current
/// state, and that the worker's block has room for the worst case: every
/// evacuated referent copied once per edge naming it.
fn validate_edges(
    mature: bool,
    plan: &GenCopy,
    heap: &Heap,
    cc: &GenCopyCopyContext,
    edges: &Vec<Address>,
) -> (r: bool)
    requires
        plan.wf(),
        cc.ss.cursor <= cc.ss.limit,
    ensures
        r ==> edges_ok(mature, *plan, *heap, *cc, edges@) && room_needed(
            mature,
            *plan,
            *heap,
            edges@,
        ) <= cc.ss.limit - cc.ss.cursor,
{
    let n = edges.len();
    let mut i: usize = 0;
    let mut acc: usize = 0;
    proof {
        assert(edges@.skip(0) =~= edges@);
    }
    while i < n
        invariant
            0 <= i <= n,
            n == edges@.len(),
            plan.wf(),
            forall|j: int|
                0 <= j < i ==> slot_ok(*heap, *cc, #[trigger] edges@[j]) && referent_ok(
                    mature,
                    *plan,
                    *heap,
                    heap.slot(edges@[j]),
                ),
            acc + room_needed(mature, *plan, *heap, edges@.skip(i as int)) == room_needed(
                mature,
                *plan,
                *heap,
                edges@,
            ),
            acc <= usize::MAX,
        decreases n - i,
    {
        let e = edges[i];
        if !heap.mem.contains(e) {
            return false;
        }
        if cc.ss.cursor <= e && e < cc.ss.limit {
            return false;
        }
        let v = heap.load_slot(e);
        let evac = plan.nursery.address_in_space(v) || (mature && plan.fromspace().address_in_space(
            v,
        ));
        let sized = heap.sizes.contains(v);
        let ok = v == 0 || plan.tospace().address_in_space(v) || (evac && sized) || (mature
            && plan.common.address_in_space(v) && sized);
        if !ok {
            return false;
        }
        proof {
            lemma_room_skip(mature, *plan, *heap, edges@, i as int);
        }
        if evac && sized {
            let b = heap.object_size(v);
            if acc > usize::MAX - b {
                return false;
            }
            acc = acc + b;
        }
        i = i + 1;
    }
    proof {
        assert(edges@.skip(n as int).len() == 0);
    }
    acc <= cc.ss.limit - cc.ss.cursor
}

/// An address that lies inside some sized object.
pub open spec fn within_some_object(heap: Heap, a: Address) -> bool {
    exists|o: ObjectReference|
        #[trigger] heap.sizes@.dom().contains(o) && o <= a < o + heap.sizes@[o]
}

/// Builds the field-slot list of a buffer of objects: every word of each
/// object is one edge. Fails if an object in the buffer has no recorded,
/// word-aligned size.
fn scan_object_fields(heap: &Heap, buffer: &Vec<ObjectReference>) -> (r: Option<Vec<Address>>)
    ensures
        r matches Some(edges) ==> forall|k: int|
            0 <= k < edges@.len() ==> within_some_object(*heap, #[trigger] edges@[k]),
{
    let n = buffer.len();
    let mut edges: Vec<Address> = Vec::new();
    let mut i: usize = 0;
    while i < n
        invariant
            0 <= i <= n,
            n == buffer@.len(),
            forall|k: int|
                0 <= k < edges@.len() ==> within_some_object(*heap, #[trigger] edges@[k]),
        decreases n - i,
    {
        let o = buffer[i];
        if !heap.sizes.contains(o) {
            return None;
        }
        let bytes = heap.object_size(o);
        if o > usize::MAX - bytes || bytes % BYTES_IN_WORD != 0 {
            return None;
        }
        let mut off: usize = 0;
        while off < bytes
            invariant
                0 <= off <= bytes,
                crate::constants::word_aligned(off),
                crate::constants::word_aligned(bytes),
                o + bytes <= usize::MAX,
                heap.sizes@.dom().contains(o),
                bytes == heap.sizes@[o],
                forall|k: int|
                    0 <= k < edges@.len() ==> within_some_object(*heap, #[trigger] edges@[k]),
            decreases bytes - off,
        {
            edges.push(o + off);
            proof {
                assert(heap.sizes@.dom().contains(o));
                assert(within_some_object(*heap, (o + off) as usize));
                assert(edges@[edges@.len() - 1] == o + off);
                crate::constants::lemma_word_aligned_gap(off, bytes);
                crate::constants::lemma_word_aligned_add(off, BYTES_IN_WORD);
            }
            off = off + BYTES_IN_WORD;
        }
        i = i + 1;
    }
    Some(edges)
}

/// How a run of the collector ended.
#[derive(Clone, Copy, PartialEq, Eq, Structural, Debug)]
pub enum GcRunStatus {
    Complete,
    OutOfFuel,
    Fault,
}

/// Executes one work packet on the given worker, mirroring the catalog: a
/// coordinator packet picked up elsewhere requeues itself; the mod-buf
/// processor acts only on a nursery collection; scanning an empty buffer is
/// a no-op. A failed runtime validation — an invariant violation that a
/// collector under a controlled host treats as fatal — returns false and
/// leaves the collection faulted.
pub fn execute_packet(mmtk: &mut MMTK, widx: usize, packet: WorkPacket) -> (ok: bool)
    requires
        old(mmtk).wf(),
        widx < old(mmtk).workers@.len(),
    ensures
        final(mmtk).wf(),
        final(mmtk).workers@.len() == old(mmtk).workers@.len(),
        final(mmtk).mutators@.len() == old(mmtk).mutators@.len(),
        // scheduling a collection: status to prepare, the stop-the-world
        // packet to the coordinator (the full fan-out: `do_schedule_collection`)
        packet matches WorkPacket::ScheduleCollection(p) ==> ok && final(mmtk).plan == (GenCopy {
            gc_status: GcStatus::GcPrepare,
            ..old(mmtk).plan
        }) && final(mmtk).scheduler.coordinator_queue@ == old(mmtk).scheduler.coordinator_queue@.push(WorkPacket::StopMutators(StopMutators)),
        // a coordinator packet picked up elsewhere requeues itself and does
        // nothing else
        packet matches WorkPacket::StopMutators(p) ==> (!old(mmtk).workers@[widx as int].coordinator ==> ok && final(mmtk).scheduler.coordinator_queue@
            == old(mmtk).scheduler.coordinator_queue@.push(WorkPacket::StopMutators(StopMutators))
            && final(mmtk).scheduler.work_buckets == old(mmtk).scheduler.work_buckets && final(mmtk).plan == old(mmtk).plan && final(mmtk).heap == old(mmtk).heap && final(mmtk).workers
            == old(mmtk).workers && final(mmtk).mutators == old(mmtk).mutators),
        // one stack scan advances the barrier by exactly one step; the status
        // turns to proper exactly when the counter reaches the mutator count
        packet matches WorkPacket::ScanStackRoot(p) ==> (ok ==> {
            let m = old(mmtk).mutators@.len();
            let c = old(mmtk).plan.scanned_stacks;
            &&& final(mmtk).plan.scanned_stacks == crate::scheduler::scan_step(c as nat, m as nat)
            &&& (c + 1 >= m ==> final(mmtk).plan.gc_status == GcStatus::GcProper)
            &&& (c + 1 < m ==> final(mmtk).plan.gc_status == old(mmtk).plan.gc_status)
        }),
        // the remembered set is subsumed on a mature collection: nothing at
        // all happens
        packet matches WorkPacket::ProcessModBuf(p) ==> (!old(mmtk).plan.in_nursery_gc ==> *final(mmtk) == *old(mmtk)),
        packet matches WorkPacket::GenCopyModBuf(p) ==> (!old(mmtk).plan.in_nursery_gc ==> *final(mmtk) == *old(mmtk)),
        // scanning an empty buffer is a no-op
        packet matches WorkPacket::ScanObjects(p) ==> (p.buffer@.len() == 0 ==> ok && *final(mmtk)
            == *old(mmtk)),
        // the end of the collection: status back to idle, mutators resumed
        packet matches WorkPacket::EndOfGC(p) ==> ok && final(mmtk).plan == (GenCopy {
            gc_status: GcStatus::NotInGC,
            ..old(mmtk).plan
        }) && (forall|k: int|
            0 <= k < old(mmtk).mutators@.len() ==> #[trigger] final(mmtk).mutators@[k] == (Mutator {
                paused: false,
                ..old(mmtk).mutators@[k]
            })),
        // per-mutator prepare and release touch exactly the named mutator
        packet matches WorkPacket::PrepareMutator(p) ==> (ok ==> p.mutator < old(mmtk).mutators@.len() && final(mmtk).mutators@ == old(mmtk).mutators@.update(
            p.mutator as int,
            Mutator { prepared: true, ..old(mmtk).mutators@[p.mutator as int] },
        ) && final(mmtk).plan == old(mmtk).plan && final(mmtk).heap == old(mmtk).heap && final(mmtk).workers == old(mmtk).workers && final(mmtk).scheduler == old(mmtk).scheduler),
        packet matches WorkPacket::ReleaseMutator(p) ==> (ok ==> p.mutator < old(mmtk).mutators@.len() && final(mmtk).mutators@ == old(mmtk).mutators@.update(
            p.mutator as int,
            Mutator { prepared: false, ..old(mmtk).mutators@[p.mutator as int] },
        ) && final(mmtk).plan == old(mmtk).plan && final(mmtk).heap == old(mmtk).heap && final(mmtk).workers == old(mmtk).workers && final(mmtk).scheduler == old(mmtk).scheduler),
        // a collector's release is deliberately a no-op
        packet matches WorkPacket::ReleaseCollector(p) ==> ok && final(mmtk).workers@ == old(mmtk).workers@ && final(mmtk).plan == old(mmtk).plan && final(mmtk).heap == old(mmtk).heap
            && final(mmtk).scheduler == old(mmtk).scheduler && final(mmtk).mutators == old(mmtk).mutators,
{
    match packet {
        WorkPacket::ScheduleCollection(_p) => {
            do_schedule_collection(mmtk)
        },
        WorkPacket::StopMutators(_p) => {
            do_stop_mutators(mmtk, widx)
        },
        WorkPacket::Prepare(_p) => {
            do_prepare(mmtk, widx)
        },
        WorkPacket::PrepareMutator(p) => {
            if p.mutator >= mmtk.mutators.len() {
                return false;
            }
            let tls = mmtk.mutators[p.mutator].tls;
            mmtk.mutators[p.mutator].prepare(tls);
            true
        },
        WorkPacket::PrepareCollector(_p) => {
            do_prepare_collector(mmtk, widx)
        },
        WorkPacket::Release(_p) => {
            do_release(mmtk, widx)
        },
        WorkPacket::ReleaseMutator(p) => {
            if p.mutator >= mmtk.mutators.len() {
                return false;
            }
            let tls = mmtk.mutators[p.mutator].tls;
            mmtk.mutators[p.mutator].release(tls);
            true
        },
        WorkPacket::ReleaseCollector(_p) => {
            mmtk.workers[widx].copy.release();
            proof {
                assert(mmtk.workers@ =~= old(mmtk).workers@);
            }
            true
        },
        WorkPacket::EndOfGC(_p) => {
            do_end_of_gc(mmtk)
        },
        WorkPacket::ScanStackRoots(_p) => {
            do_scan_stack_roots(mmtk)
        },
        WorkPacket::ScanStackRoot(p) => {
            do_scan_stack_root(mmtk, p.0)
        },
        WorkPacket::ScanVMSpecificRoots(_p) => {
            do_scan_vm_specific_roots(mmtk)
        },
        WorkPacket::ScanObjects(p) => {
            do_scan_objects(mmtk, p.buffer)
        },
        WorkPacket::ProcessModBuf(p) => {
            let ProcessModBuf { modified_nodes, modified_edges } = p;
            do_process_mod_buf(mmtk, modified_nodes, modified_edges)
        },
        WorkPacket::GenCopyModBuf(p) => {
            let crate::gencopy::GenCopyProcessModBuf { modified_nodes, modified_edges } = p;
            do_process_mod_buf(mmtk, modified_nodes, modified_edges)
        },
        WorkPacket::NurseryEdges(pkt) => {
            execute_edge_packet(mmtk, widx, pkt.base, false)
        },
        WorkPacket::MatureEdges(pkt) => {
            execute_edge_packet(mmtk, widx, pkt.base, true)
        },
    }
}

/// Global preparation. It proceeds exactly when no forwarding word is
/// installed; the semispace roles may then swap safely. Every worker is
/// unprepared across the swap, the plan prepares (a mature collection flips
/// the roles), one prepare packet per mutator enters the prepare bucket, and
/// one per-collector prepare enters every worker's local queue.
pub fn do_prepare(mmtk: &mut MMTK, widx: usize) -> (ok: bool)
    requires
        old(mmtk).wf(),
        widx < old(mmtk).workers@.len(),
    ensures
        final(mmtk).wf(),
        ok <==> (forall|o: ObjectReference|
            #[trigger] old(mmtk).heap.fwd_state(o) == ForwardingState::NotForwarded),
        !ok ==> *final(mmtk) == *old(mmtk),
        ok ==> {
            &&& final(mmtk).plan.hi == (if old(mmtk).plan.in_nursery_gc {
                old(mmtk).plan.hi
            } else {
                !old(mmtk).plan.hi
            })
            &&& final(mmtk).plan.tospace_cursor == (if old(mmtk).plan.in_nursery_gc {
                old(mmtk).plan.tospace_cursor
            } else {
                final(mmtk).plan.spec_tospace().start
            })
            &&& final(mmtk).plan == (GenCopy {
                hi: final(mmtk).plan.hi,
                tospace_cursor: final(mmtk).plan.tospace_cursor,
                ..old(mmtk).plan
            })
            &&& final(mmtk).heap == old(mmtk).heap
            &&& final(mmtk).mutators == old(mmtk).mutators
            &&& final(mmtk).scheduler.coordinator_queue == old(mmtk).scheduler.coordinator_queue
            &&& ({
                let b0 = bucket_of(old(mmtk).scheduler, WorkBucketStage::Prepare);
                let b1 = bucket_of(final(mmtk).scheduler, WorkBucketStage::Prepare);
                let m = old(mmtk).mutators@.len();
                &&& b1.len() == b0.len() + m
                &&& forall|k: int| 0 <= k < b0.len() ==> b1[k] == b0[k]
                &&& forall|k: int|
                    0 <= k < m ==> #[trigger] b1[b0.len() + k] == WorkPacket::PrepareMutator(
                        PrepareMutator { mutator: k as usize },
                    )
            })
            &&& forall|s: WorkBucketStage|
                s != WorkBucketStage::Prepare ==> bucket_of(#[trigger] final(mmtk).scheduler, s)
                    == bucket_of(old(mmtk).scheduler, s)
            &&& final(mmtk).workers@.len() == old(mmtk).workers@.len()
            &&& forall|k: int|
                0 <= k < old(mmtk).workers@.len() ==> {
                    let w0 = old(mmtk).workers@[k];
                    let w1 = #[trigger] final(mmtk).workers@[k];
                    &&& !w1.prepared
                    &&& w1.local_works@ == w0.local_works@.push(
                        WorkPacket::PrepareCollector(PrepareCollector),
                    )
                    &&& w1 == (GCWorker {
                        prepared: false,
                        local_works: w1.local_works,
                        ..w0
                    })
                }
        },
{
    // at the start of a collection no forwarding may be installed
    let fwd_keys = mmtk.heap.fwd.keys();
    let nk = fwd_keys.len();
    let mut i: usize = 0;
    while i < nk
        invariant
            0 <= i <= nk,
            nk == fwd_keys@.len(),
            mmtk.wf(),
            widx < mmtk.workers@.len(),
            *mmtk == *old(mmtk),
            forall|k: int|
                0 <= k < fwd_keys@.len() ==> mmtk.heap.fwd@.dom().contains(
                    #[trigger] fwd_keys@[k],
                ),
            forall|a: Address| mmtk.heap.fwd@.dom().contains(a) ==> fwd_keys@.contains(a),
            forall|k: int|
                0 <= k < i ==> mmtk.heap.fwd_state(#[trigger] fwd_keys@[k])
                    == ForwardingState::NotForwarded,
        decreases nk - i,
    {
        let st = mmtk.heap.forwarding_state(fwd_keys[i]);
        match st {
            ForwardingState::NotForwarded => {},
            _ => {
                proof {
                    assert(mmtk.heap.fwd_state(fwd_keys@[i as int])
                        != ForwardingState::NotForwarded);
                }
                return false;
            },
        }
        i = i + 1;
    }
    proof {
        assert forall|o: ObjectReference| #[trigger] mmtk.heap.fwd_state(o)
            == ForwardingState::NotForwarded by {
            if mmtk.heap.fwd@.dom().contains(o) {
                assert(fwd_keys@.contains(o));
                let k = choose|k: int| 0 <= k < fwd_keys@.len() && fwd_keys@[k] == o;
                assert(mmtk.heap.fwd_state(fwd_keys@[k]) == ForwardingState::NotForwarded);
            }
        }
    }
    // no worker is prepared across the role swap
    let wcount = mmtk.workers.len();
    let mut w: usize = 0;
    while w < wcount
        invariant
            0 <= w <= wcount,
            wcount == mmtk.workers@.len(),
            mmtk.workers@.len() == old(mmtk).workers@.len(),
            widx < mmtk.workers@.len(),
            mmtk.plan == old(mmtk).plan,
            mmtk.heap == old(mmtk).heap,
            mmtk.mutators == old(mmtk).mutators,
            mmtk.scheduler == old(mmtk).scheduler,
            mmtk.plan.wf(),
            valid_objects(mmtk.plan, mmtk.heap),
            mmtk.scheduler.wf(),
            forall|o: ObjectReference| #[trigger] mmtk.heap.fwd_state(o)
                == ForwardingState::NotForwarded,
            forall|k: int|
                0 <= k < w ==> #[trigger] mmtk.workers@[k] == (GCWorker {
                    prepared: false,
                    ..old(mmtk).workers@[k]
                }),
            forall|k: int| w <= k < wcount ==> #[trigger] mmtk.workers@[k] == old(mmtk).workers@[k],
        decreases wcount - w,
    {
        mmtk.workers[w].prepared = false;
        w = w + 1;
    }
    let ghost plan0 = mmtk.plan;
    let tls = mmtk.workers[widx].tls;
    mmtk.plan.prepare(tls);
    proof {
        lemma_world_after_prepare(plan0, mmtk.plan, mmtk.heap, mmtk.workers@);
    }
    let mcount = mmtk.mutators.len();
    let mut m: usize = 0;
    while m < mcount
        invariant
            0 <= m <= mcount,
            mcount == mmtk.mutators@.len(),
            mmtk.wf(),
            widx < mmtk.workers@.len(),
            mmtk.plan == (GenCopy {
                hi: mmtk.plan.hi,
                tospace_cursor: mmtk.plan.tospace_cursor,
                ..old(mmtk).plan
            }),
            mmtk.plan.hi == (if old(mmtk).plan.in_nursery_gc {
                old(mmtk).plan.hi
            } else {
                !old(mmtk).plan.hi
            }),
            mmtk.plan.tospace_cursor == (if old(mmtk).plan.in_nursery_gc {
                old(mmtk).plan.tospace_cursor
            } else {
                mmtk.plan.spec_tospace().start
            }),
            mmtk.heap == old(mmtk).heap,
            mmtk.mutators == old(mmtk).mutators,
            mmtk.workers@.len() == old(mmtk).workers@.len(),
            forall|k: int|
                0 <= k < mmtk.workers@.len() ==> #[trigger] mmtk.workers@[k] == (GCWorker {
                    prepared: false,
                    ..old(mmtk).workers@[k]
                }),
            mmtk.scheduler.coordinator_queue == old(mmtk).scheduler.coordinator_queue,
            ({
                let b0 = bucket_of(old(mmtk).scheduler, WorkBucketStage::Prepare);
                let b1 = bucket_of(mmtk.scheduler, WorkBucketStage::Prepare);
                &&& b1.len() == b0.len() + m
                &&& forall|k: int| 0 <= k < b0.len() ==> b1[k] == b0[k]
                &&& forall|k: int|
                    0 <= k < m ==> #[trigger] b1[b0.len() + k] == WorkPacket::PrepareMutator(
                        PrepareMutator { mutator: k as usize },
                    )
            }),
            forall|s: WorkBucketStage|
                s != WorkBucketStage::Prepare ==> bucket_of(#[trigger] mmtk.scheduler, s)
                    == bucket_of(old(mmtk).scheduler, s),
        decreases mcount - m,
    {
        let ghost b_prev = bucket_of(mmtk.scheduler, WorkBucketStage::Prepare);
        mmtk.scheduler.add(
            WorkBucketStage::Prepare,
            WorkPacket::PrepareMutator(PrepareMutator::new(m)),
        );
        proof {
            let b1 = bucket_of(mmtk.scheduler, WorkBucketStage::Prepare);
            assert(b1 == b_prev.push(WorkPacket::PrepareMutator(PrepareMutator { mutator: m })));
        }
        m = m + 1;
    }
    let wc2 = mmtk.workers.len();
    let mut w2: usize = 0;
    while w2 < wc2
        invariant
            0 <= w2 <= wc2,
            wc2 == mmtk.workers@.len(),
            mmtk.wf(),
            widx < mmtk.workers@.len(),
            mmtk.plan == (GenCopy {
                hi: mmtk.plan.hi,
                tospace_cursor: mmtk.plan.tospace_cursor,
                ..old(mmtk).plan
            }),
            mmtk.plan.hi == (if old(mmtk).plan.in_nursery_gc {
                old(mmtk).plan.hi
            } else {
                !old(mmtk).plan.hi
            }),
            mmtk.plan.tospace_cursor == (if old(mmtk).plan.in_nursery_gc {
                old(mmtk).plan.tospace_cursor
            } else {
                mmtk.plan.spec_tospace().start
            }),
            mmtk.heap == old(mmtk).heap,
            mmtk.mutators == old(mmtk).mutators,
            mmtk.workers@.len() == old(mmtk).workers@.len(),
            mmtk.scheduler.coordinator_queue == old(mmtk).scheduler.coordinator_queue,
            ({
                let b0 = bucket_of(old(mmtk).scheduler, WorkBucketStage::Prepare);
                let b1 = bucket_of(mmtk.scheduler, WorkBucketStage::Prepare);
                let mc = old(mmtk).mutators@.len();
                &&& b1.len() == b0.len() + mc
                &&& forall|k: int| 0 <= k < b0.len() ==> b1[k] == b0[k]
                &&& forall|k: int|
                    0 <= k < mc ==> #[trigger] b1[b0.len() + k] == WorkPacket::PrepareMutator(
                        PrepareMutator { mutator: k as usize },
                    )
            }),
            forall|s: WorkBucketStage|
                s != WorkBucketStage::Prepare ==> bucket_of(#[trigger] mmtk.scheduler, s)
                    == bucket_of(old(mmtk).scheduler, s),
            forall|k: int|
                0 <= k < w2 ==> {
                    let w0 = old(mmtk).workers@[k];
                    let w1 = #[trigger] mmtk.workers@[k];
                    &&& !w1.prepared
                    &&& w1.local_works@ == w0.local_works@.push(
                        WorkPacket::PrepareCollector(PrepareCollector),
                    )
                    &&& w1 == (GCWorker { prepared: false, local_works: w1.local_works, ..w0 })
                },
            forall|k: int|
                w2 <= k < wc2 ==> #[trigger] mmtk.workers@[k] == (GCWorker {
                    prepared: false,
                    ..old(mmtk).workers@[k]
                }),
        decreases wc2 - w2,
    {
        mmtk.workers[w2].local_works.push(WorkPacket::PrepareCollector(PrepareCollector::new()));
        w2 = w2 + 1;
    }
    true
}

/// Stops the world. A non-coordinator worker requeues the packet for the
/// coordinator and does nothing else. The coordinator proceeds exactly when
/// the scanned-stacks counter stands at zero: it pauses every mutator,
/// prepares them if the host scans in a safepoint and they are not yet
/// prepared, seeds the stack-scan packets (one single-threaded packet, or
/// one per mutator), and always seeds the host-specific root scan.
pub fn do_stop_mutators(mmtk: &mut MMTK, widx: usize) -> (ok: bool)
    requires
        old(mmtk).wf(),
        widx < old(mmtk).workers@.len(),
    ensures
        final(mmtk).wf(),
        // picked up away from the coordinator: requeued, nothing else
        !old(mmtk).workers@[widx as int].coordinator ==> ok && final(mmtk).scheduler.coordinator_queue@ == old(mmtk).scheduler.coordinator_queue@.push(
            WorkPacket::StopMutators(StopMutators),
        ) && final(mmtk).scheduler.work_buckets == old(mmtk).scheduler.work_buckets && final(mmtk).plan == old(mmtk).plan && final(mmtk).heap == old(mmtk).heap && final(mmtk).workers
            == old(mmtk).workers && final(mmtk).mutators == old(mmtk).mutators,
        old(mmtk).workers@[widx as int].coordinator ==> {
            &&& (ok <==> old(mmtk).plan.scanned_stacks == 0)
            &&& (!ok ==> *final(mmtk) == *old(mmtk))
            &&& (ok ==> {
                let m = old(mmtk).mutators@.len();
                let prep = old(mmtk).scan_mutators_in_safepoint && !old(mmtk).plan.stacks_prepared;
                &&& final(mmtk).plan == old(mmtk).plan
                &&& final(mmtk).heap == old(mmtk).heap
                &&& final(mmtk).workers == old(mmtk).workers
                &&& final(mmtk).scheduler.coordinator_queue == old(mmtk).scheduler.coordinator_queue
                // every mutator is paused; prepared if the host asked
                &&& final(mmtk).mutators@.len() == m
                &&& forall|k: int|
                    0 <= k < m ==> #[trigger] final(mmtk).mutators@[k] == (Mutator {
                        paused: true,
                        prepared: prep || old(mmtk).mutators@[k].prepared,
                        ..old(mmtk).mutators@[k]
                    })
                // the root-scan packets seeded into the prepare bucket
                &&& ({
                    let b0 = bucket_of(old(mmtk).scheduler, WorkBucketStage::Prepare);
                    let b1 = bucket_of(final(mmtk).scheduler, WorkBucketStage::Prepare);
                    let scan = old(mmtk).scan_mutators_in_safepoint;
                    let single = old(mmtk).single_thread_mutator_scanning;
                    &&& forall|k: int| 0 <= k < b0.len() ==> b1[k] == b0[k]
                    &&& (scan && !single ==> b1.len() == b0.len() + m + 1 && (forall|k: int|
                        0 <= k < m ==> #[trigger] b1[b0.len() + k] == WorkPacket::ScanStackRoot(
                            ScanStackRoot(k as usize),
                        )) && b1.last() == WorkPacket::ScanVMSpecificRoots(ScanVMSpecificRoots))
                    &&& (scan && single ==> b1.len() == b0.len() + 2 && b1[b0.len() as int]
                        == WorkPacket::ScanStackRoots(ScanStackRoots) && b1.last()
                        == WorkPacket::ScanVMSpecificRoots(ScanVMSpecificRoots))
                    &&& (!scan ==> b1.len() == b0.len() + 1 && b1.last()
                        == WorkPacket::ScanVMSpecificRoots(ScanVMSpecificRoots))
                })
                &&& forall|s: WorkBucketStage|
                    s != WorkBucketStage::Prepare ==> bucket_of(
                        #[trigger] final(mmtk).scheduler,
                        s,
                    ) == bucket_of(old(mmtk).scheduler, s)
            })
        },
{
    if mmtk.workers[widx].is_coordinator() {
        if mmtk.plan.scanned_stacks != 0 {
            return false;
        }
        let mcount = mmtk.mutators.len();
        let mut i: usize = 0;
        while i < mcount
            invariant
                0 <= i <= mcount,
                mcount == mmtk.mutators@.len(),
                mmtk.wf(),
                widx < mmtk.workers@.len(),
                mmtk.plan == old(mmtk).plan,
                mmtk.heap == old(mmtk).heap,
                mmtk.workers == old(mmtk).workers,
                mmtk.scheduler == old(mmtk).scheduler,
                mmtk.scan_mutators_in_safepoint == old(mmtk).scan_mutators_in_safepoint,
                mmtk.single_thread_mutator_scanning == old(mmtk).single_thread_mutator_scanning,
                mmtk.mutators@.len() == old(mmtk).mutators@.len(),
                forall|k: int|
                    0 <= k < i ==> #[trigger] mmtk.mutators@[k] == (Mutator {
                        paused: true,
                        ..old(mmtk).mutators@[k]
                    }),
                forall|k: int|
                    i <= k < mcount ==> #[trigger] mmtk.mutators@[k] == old(mmtk).mutators@[k],
            decreases mcount - i,
        {
            mmtk.mutators[i].paused = true;
            i = i + 1;
        }
        if mmtk.scan_mutators_in_safepoint {
            if !mmtk.plan.stacks_prepared {
                let mut j: usize = 0;
                while j < mcount
                    invariant
                        0 <= j <= mcount,
                        mcount == mmtk.mutators@.len(),
                        mmtk.wf(),
                        widx < mmtk.workers@.len(),
                        mmtk.plan == old(mmtk).plan,
                        mmtk.heap == old(mmtk).heap,
                        mmtk.workers == old(mmtk).workers,
                        mmtk.scheduler == old(mmtk).scheduler,
                        mmtk.scan_mutators_in_safepoint == old(mmtk).scan_mutators_in_safepoint,
                        mmtk.single_thread_mutator_scanning == old(mmtk).single_thread_mutator_scanning,
                        mmtk.mutators@.len() == old(mmtk).mutators@.len(),
                        forall|k: int|
                            0 <= k < j ==> #[trigger] mmtk.mutators@[k] == (Mutator {
                                paused: true,
                                prepared: true,
                                ..old(mmtk).mutators@[k]
                            }),
                        forall|k: int|
                            j <= k < mcount ==> #[trigger] mmtk.mutators@[k] == (Mutator {
                                paused: true,
                                ..old(mmtk).mutators@[k]
                            }),
                    decreases mcount - j,
                {
                    let tls = mmtk.mutators[j].tls;
                    mmtk.mutators[j].prepare(tls);
                    j = j + 1;
                }
            }
            if mmtk.single_thread_mutator_scanning {
                mmtk.scheduler.add(
                    WorkBucketStage::Prepare,
                    WorkPacket::ScanStackRoots(ScanStackRoots::new()),
                );
            } else {
                let mut k: usize = 0;
                while k < mcount
                    invariant
                        0 <= k <= mcount,
                        mcount == old(mmtk).mutators@.len(),
                        mmtk.wf(),
                        widx < mmtk.workers@.len(),
                        mmtk.plan == old(mmtk).plan,
                        mmtk.heap == old(mmtk).heap,
                        mmtk.workers == old(mmtk).workers,
                        mmtk.mutators@.len() == old(mmtk).mutators@.len(),
                        mmtk.scan_mutators_in_safepoint == old(mmtk).scan_mutators_in_safepoint,
                        mmtk.single_thread_mutator_scanning == old(mmtk).single_thread_mutator_scanning,
                        mmtk.scheduler.coordinator_queue == old(mmtk).scheduler.coordinator_queue,
                        ({
                            let b0 = bucket_of(old(mmtk).scheduler, WorkBucketStage::Prepare);
                            let b1 = bucket_of(mmtk.scheduler, WorkBucketStage::Prepare);
                            &&& b1.len() == b0.len() + k
                            &&& forall|q: int| 0 <= q < b0.len() ==> b1[q] == b0[q]
                            &&& forall|q: int|
                                0 <= q < k ==> #[trigger] b1[b0.len() + q]
                                    == WorkPacket::ScanStackRoot(ScanStackRoot(q as usize))
                        }),
                        forall|s: WorkBucketStage|
                            s != WorkBucketStage::Prepare ==> bucket_of(
                                #[trigger] mmtk.scheduler,
                                s,
                            ) == bucket_of(old(mmtk).scheduler, s),
                        forall|q: int|
                            0 <= q < mcount ==> #[trigger] mmtk.mutators@[q] == (Mutator {
                                paused: true,
                                prepared: (old(mmtk).scan_mutators_in_safepoint && !old(mmtk).plan.stacks_prepared) || old(mmtk).mutators@[q].prepared,
                                ..old(mmtk).mutators@[q]
                            }),
                    decreases mcount - k,
                {
                    let ghost b_prev = bucket_of(mmtk.scheduler, WorkBucketStage::Prepare);
                    mmtk.scheduler.add(
                        WorkBucketStage::Prepare,
                        WorkPacket::ScanStackRoot(ScanStackRoot(k)),
                    );
                    proof {
                        let b1 = bucket_of(mmtk.scheduler, WorkBucketStage::Prepare);
                        assert(b1 == b_prev.push(
                            WorkPacket::ScanStackRoot(ScanStackRoot(k)),
                        ));
                    }
                    k = k + 1;
                }
            }
        }
        mmtk.scheduler.add(
            WorkBucketStage::Prepare,
            WorkPacket::ScanVMSpecificRoots(ScanVMSpecificRoots::new()),
        );
        true
    } else {
        mmtk.scheduler.add_coordinator_work(WorkPacket::StopMutators(StopMutators::new()));
        true
    }
}

/// Rebinds the executing worker's copy context to a fresh block of the
/// current tospace and marks the worker prepared. The block is checked clear
/// of sized objects and installed forwarding words; a dirty block is a plan
/// bug and faults, leaving the worker unprepared.
pub fn do_prepare_collector(mmtk: &mut MMTK, widx: usize) -> (ok: bool)
    requires
        old(mmtk).wf(),
        widx < old(mmtk).workers@.len(),
    ensures
        final(mmtk).wf(),
        final(mmtk).heap == old(mmtk).heap,
        final(mmtk).mutators == old(mmtk).mutators,
        final(mmtk).scheduler == old(mmtk).scheduler,
        final(mmtk).workers@.len() == old(mmtk).workers@.len(),
        forall|k: int|
            0 <= k < old(mmtk).workers@.len() && k != widx ==> #[trigger] final(mmtk).workers@[k]
                == old(mmtk).workers@[k],
        // the plan only hands out more of the tospace
        final(mmtk).plan == (GenCopy {
            tospace_cursor: final(mmtk).plan.tospace_cursor,
            ..old(mmtk).plan
        }),
        old(mmtk).plan.tospace_cursor <= final(mmtk).plan.tospace_cursor,
        ok ==> {
            let w1 = final(mmtk).workers@[widx as int];
            &&& w1.prepared
            &&& w1.copy.ss.cursor == old(mmtk).plan.tospace_cursor
            &&& w1.copy.ss.limit == final(mmtk).plan.tospace_cursor
            &&& w1 == (GCWorker { prepared: true, copy: w1.copy, ..old(mmtk).workers@[widx as int] })
        },
        !ok ==> !final(mmtk).workers@[widx as int].prepared,
    {
            let mut cc = GenCopyCopyContext::new();
            core::mem::swap(&mut cc, &mut mmtk.workers[widx].copy);
            let ghost plan0 = mmtk.plan;
            mmtk.workers[widx].prepared = false;
            cc.prepare(&mut mmtk.plan);
            proof {
                lemma_world_plan_compat(plan0, mmtk.plan, mmtk.heap, mmtk.workers@);
            }
            // the fresh block must be clear of sized objects ...
            let size_keys = mmtk.heap.sizes.keys();
            let nk = size_keys.len();
            let mut i: usize = 0;
            while i < nk
                invariant
                    0 <= i <= nk,
                    nk == size_keys@.len(),
                    mmtk.wf(),
                    widx < mmtk.workers@.len(),
                    mmtk.workers@.len() == old(mmtk).workers@.len(),
                    mmtk.heap == old(mmtk).heap,
                    mmtk.mutators == old(mmtk).mutators,
                    mmtk.scheduler == old(mmtk).scheduler,
                    mmtk.plan == (GenCopy {
                        tospace_cursor: mmtk.plan.tospace_cursor,
                        ..old(mmtk).plan
                    }),
                    old(mmtk).plan.tospace_cursor <= mmtk.plan.tospace_cursor,
                    forall|k2: int|
                        0 <= k2 < old(mmtk).workers@.len() && k2 != widx
                            ==> #[trigger] mmtk.workers@[k2] == old(mmtk).workers@[k2],
                    !mmtk.workers@[widx as int].prepared,
                    cc.ss.cursor <= cc.ss.limit,
                    forall|k: int|
                        0 <= k < size_keys@.len() ==> mmtk.heap.sizes@.dom().contains(
                            #[trigger] size_keys@[k],
                        ),
                    forall|a: Address|
                        mmtk.heap.sizes@.dom().contains(a) ==> size_keys@.contains(a),
                    forall|k: int|
                        0 <= k < i ==> {
                            let o = #[trigger] size_keys@[k];
                            o + mmtk.heap.sizes@[o] <= cc.ss.cursor || cc.ss.limit <= o
                        },
                decreases nk - i,
            {
                let o = size_keys[i];
                let b = mmtk.heap.object_size(o);
                if o > usize::MAX - b {
                    return false;
                }
                if !(o + b <= cc.ss.cursor || cc.ss.limit <= o) {
                    return false;
                }
                i = i + 1;
            }
            // ... and of installed forwarding words
            let fwd_keys = mmtk.heap.fwd.keys();
            let fk = fwd_keys.len();
            let mut j: usize = 0;
            while j < fk
                invariant
                    0 <= j <= fk,
                    fk == fwd_keys@.len(),
                    mmtk.wf(),
                    widx < mmtk.workers@.len(),
                    mmtk.workers@.len() == old(mmtk).workers@.len(),
                    mmtk.heap == old(mmtk).heap,
                    mmtk.mutators == old(mmtk).mutators,
                    mmtk.scheduler == old(mmtk).scheduler,
                    mmtk.plan == (GenCopy {
                        tospace_cursor: mmtk.plan.tospace_cursor,
                        ..old(mmtk).plan
                    }),
                    old(mmtk).plan.tospace_cursor <= mmtk.plan.tospace_cursor,
                    forall|k2: int|
                        0 <= k2 < old(mmtk).workers@.len() && k2 != widx
                            ==> #[trigger] mmtk.workers@[k2] == old(mmtk).workers@[k2],
                    !mmtk.workers@[widx as int].prepared,
                    cc.ss.cursor <= cc.ss.limit,
                    forall|k: int|
                        0 <= k < fwd_keys@.len() ==> mmtk.heap.fwd@.dom().contains(
                            #[trigger] fwd_keys@[k],
                        ),
                    forall|a: Address| mmtk.heap.fwd@.dom().contains(a) ==> fwd_keys@.contains(a),
                    forall|k: int|
                        0 <= k < j ==> !(cc.ss.cursor <= #[trigger] fwd_keys@[k] < cc.ss.limit)
                            || mmtk.heap.fwd_state(fwd_keys@[k]) == ForwardingState::NotForwarded,
                decreases fk - j,
            {
                let a = fwd_keys[j];
                if cc.ss.cursor <= a && a < cc.ss.limit {
                    let s = mmtk.heap.forwarding_state(a);
                    match s {
                        ForwardingState::NotForwarded => {},
                        _ => {
                            return false;
                        },
                    }
                }
                j = j + 1;
            }
            proof {
                assert forall|o: ObjectReference|
                    #[trigger] mmtk.heap.sizes@.dom().contains(o) && mmtk.plan.spec_tospace().holds(
                    o) implies o + mmtk.heap.sizes@[o] <= cc.ss.cursor || cc.ss.limit <= o by {
                    assert(size_keys@.contains(o));
                    let k = choose|k: int| 0 <= k < size_keys@.len() && size_keys@[k] == o;
                    assert(size_keys@[k] == o);
                }
                assert forall|a: Address|
                    cc.ss.cursor <= a < cc.ss.limit implies #[trigger] mmtk.heap.fwd_state(a)
                        == ForwardingState::NotForwarded by {
                    if mmtk.heap.fwd@.dom().contains(a) {
                        assert(fwd_keys@.contains(a));
                        let k = choose|k: int| 0 <= k < fwd_keys@.len() && fwd_keys@[k] == a;
                        assert(fwd_keys@[k] == a);
                    }
                }
            }
            mmtk.workers[widx].copy = cc;
            mmtk.workers[widx].prepared = true;
            proof {
                assert forall|i2: int|
                    0 <= i2 < mmtk.workers@.len() implies worker_ok(
                    mmtk.plan,
                    mmtk.heap,
                    #[trigger] mmtk.workers@[i2],
                ) by {
                    if i2 != widx {
                        assert(mmtk.workers@[i2] == old(mmtk).workers@[i2]);
                        assert(worker_ok(old(mmtk).plan, mmtk.heap, old(mmtk).workers@[i2]));
                    }
                }
                assert forall|i2: int, j2: int|
                    0 <= i2 < mmtk.workers@.len() && 0 <= j2 < mmtk.workers@.len() && i2 != j2 && (
                    #[trigger] mmtk.workers@[i2]).prepared && (
                    #[trigger] mmtk.workers@[j2]).prepared implies
                    mmtk.workers@[i2].copy.ss.limit <= mmtk.workers@[j2].copy.ss.cursor
                    || mmtk.workers@[j2].copy.ss.limit <= mmtk.workers@[i2].copy.ss.cursor by {
                    if i2 != widx && j2 != widx {
                        assert(old(mmtk).workers@[i2].prepared && old(mmtk).workers@[j2].prepared);
                    } else {
                        let other = if i2 == widx { j2 } else { i2 };
                        assert(worker_ok(old(mmtk).plan, mmtk.heap, old(mmtk).workers@[other]));
                    }
                }
            }
            true
        }

/// Global release: the per-collection metadata of the vacated spaces is
/// dropped, one release packet per mutator enters the release bucket, one
/// per-collector release enters every worker's local queue, and the
/// reference processors are cleared.
pub fn do_release(mmtk: &mut MMTK, widx: usize) -> (ok: bool)
    requires
        old(mmtk).wf(),
        widx < old(mmtk).workers@.len(),
    ensures
        final(mmtk).wf(),
        ok,
        final(mmtk).plan == old(mmtk).plan,
        final(mmtk).heap.fwd@ == Map::<Address, ForwardingState>::empty(),
        final(mmtk).heap.marks@ == Map::<Address, bool>::empty(),
        final(mmtk).heap.mem@ == old(mmtk).heap.mem@,
        final(mmtk).heap.sizes@ == old(mmtk).heap.sizes@,
        final(mmtk).heap.meta == old(mmtk).heap.meta,
        final(mmtk).mutators == old(mmtk).mutators,
        final(mmtk).reference_processors@.len() == 0,
        final(mmtk).scheduler.coordinator_queue == old(mmtk).scheduler.coordinator_queue,
        ({
            let b0 = bucket_of(old(mmtk).scheduler, WorkBucketStage::Release);
            let b1 = bucket_of(final(mmtk).scheduler, WorkBucketStage::Release);
            let m = old(mmtk).mutators@.len();
            &&& b1.len() == b0.len() + m
            &&& forall|k: int| 0 <= k < b0.len() ==> b1[k] == b0[k]
            &&& forall|k: int|
                0 <= k < m ==> #[trigger] b1[b0.len() + k] == WorkPacket::ReleaseMutator(
                    ReleaseMutator { mutator: k as usize },
                )
        }),
        forall|s: WorkBucketStage|
            s != WorkBucketStage::Release ==> bucket_of(#[trigger] final(mmtk).scheduler, s)
                == bucket_of(old(mmtk).scheduler, s),
        final(mmtk).workers@.len() == old(mmtk).workers@.len(),
        forall|k: int|
            0 <= k < old(mmtk).workers@.len() ==> {
                let w0 = old(mmtk).workers@[k];
                let w1 = #[trigger] final(mmtk).workers@[k];
                &&& w1.local_works@ == w0.local_works@.push(
                    WorkPacket::ReleaseCollector(ReleaseCollector),
                )
                &&& w1 == (GCWorker { local_works: w1.local_works, ..w0 })
            },
{
    let tls = mmtk.workers[widx].tls;
    mmtk.plan.release(tls);
    let ghost h0 = mmtk.heap;
    mmtk.heap.reset_collection_metadata();
    proof {
        lemma_world_after_reset(mmtk.plan, h0, mmtk.heap, mmtk.workers@);
    }
    let mcount = mmtk.mutators.len();
    let mut m: usize = 0;
    while m < mcount
        invariant
            0 <= m <= mcount,
            mcount == mmtk.mutators@.len(),
            mmtk.wf(),
            mmtk.plan == old(mmtk).plan,
            mmtk.heap.fwd@ == Map::<Address, ForwardingState>::empty(),
            mmtk.heap.marks@ == Map::<Address, bool>::empty(),
            mmtk.heap.mem@ == old(mmtk).heap.mem@,
            mmtk.heap.sizes@ == old(mmtk).heap.sizes@,
            mmtk.heap.meta == old(mmtk).heap.meta,
            mmtk.mutators == old(mmtk).mutators,
            mmtk.workers == old(mmtk).workers,
            mmtk.reference_processors == old(mmtk).reference_processors,
            mmtk.scheduler.coordinator_queue == old(mmtk).scheduler.coordinator_queue,
            ({
                let b0 = bucket_of(old(mmtk).scheduler, WorkBucketStage::Release);
                let b1 = bucket_of(mmtk.scheduler, WorkBucketStage::Release);
                &&& b1.len() == b0.len() + m
                &&& forall|k: int| 0 <= k < b0.len() ==> b1[k] == b0[k]
                &&& forall|k: int|
                    0 <= k < m ==> #[trigger] b1[b0.len() + k] == WorkPacket::ReleaseMutator(
                        ReleaseMutator { mutator: k as usize },
                    )
            }),
            forall|s: WorkBucketStage|
                s != WorkBucketStage::Release ==> bucket_of(#[trigger] mmtk.scheduler, s)
                    == bucket_of(old(mmtk).scheduler, s),
        decreases mcount - m,
    {
        let ghost b_prev = bucket_of(mmtk.scheduler, WorkBucketStage::Release);
        mmtk.scheduler.add(
            WorkBucketStage::Release,
            WorkPacket::ReleaseMutator(ReleaseMutator::new(m)),
        );
        proof {
            let b1 = bucket_of(mmtk.scheduler, WorkBucketStage::Release);
            assert(b1 == b_prev.push(WorkPacket::ReleaseMutator(ReleaseMutator { mutator: m })));
        }
        m = m + 1;
    }
    let wc = mmtk.workers.len();
    let mut w: usize = 0;
    while w < wc
        invariant
            0 <= w <= wc,
            wc == mmtk.workers@.len(),
            mmtk.wf(),
            widx < mmtk.workers@.len(),
            mmtk.plan == old(mmtk).plan,
            mmtk.heap.fwd@ == Map::<Address, ForwardingState>::empty(),
            mmtk.heap.marks@ == Map::<Address, bool>::empty(),
            mmtk.heap.mem@ == old(mmtk).heap.mem@,
            mmtk.heap.sizes@ == old(mmtk).heap.sizes@,
            mmtk.heap.meta == old(mmtk).heap.meta,
            mmtk.mutators == old(mmtk).mutators,
            mmtk.workers@.len() == old(mmtk).workers@.len(),
            mmtk.reference_processors == old(mmtk).reference_processors,
            mmtk.scheduler.coordinator_queue == old(mmtk).scheduler.coordinator_queue,
            ({
                let b0 = bucket_of(old(mmtk).scheduler, WorkBucketStage::Release);
                let b1 = bucket_of(mmtk.scheduler, WorkBucketStage::Release);
                let mc = old(mmtk).mutators@.len();
                &&& b1.len() == b0.len() + mc
                &&& forall|k: int| 0 <= k < b0.len() ==> b1[k] == b0[k]
                &&& forall|k: int|
                    0 <= k < mc ==> #[trigger] b1[b0.len() + k] == WorkPacket::ReleaseMutator(
                        ReleaseMutator { mutator: k as usize },
                    )
            }),
            forall|s: WorkBucketStage|
                s != WorkBucketStage::Release ==> bucket_of(#[trigger] mmtk.scheduler, s)
                    == bucket_of(old(mmtk).scheduler, s),
            forall|k: int|
                0 <= k < w ==> {
                    let w0 = old(mmtk).workers@[k];
                    let w1 = #[trigger] mmtk.workers@[k];
                    &&& w1.local_works@ == w0.local_works@.push(
                        WorkPacket::ReleaseCollector(ReleaseCollector),
                    )
                    &&& w1 == (GCWorker { local_works: w1.local_works, ..w0 })
                },
            forall|k: int| w <= k < wc ==> #[trigger] mmtk.workers@[k] == old(mmtk).workers@[k],
        decreases wc - w,
    {
        mmtk.workers[w].local_works.push(WorkPacket::ReleaseCollector(ReleaseCollector::new()));
        w = w + 1;
    }
    mmtk.reference_processors.clear();
    true
}

/// Lays out the collection's phases: status to prepare, the stop-the-world
/// packet to the coordinator, and one packet each for global prepare,
/// global release and the end of the collection in their buckets.
pub fn do_schedule_collection(mmtk: &mut MMTK) -> (ok: bool)
    requires
        old(mmtk).wf(),
    ensures
        final(mmtk).wf(),
        ok,
        final(mmtk).plan == (GenCopy { gc_status: GcStatus::GcPrepare, ..old(mmtk).plan }),
        final(mmtk).heap == old(mmtk).heap,
        final(mmtk).workers == old(mmtk).workers,
        final(mmtk).mutators == old(mmtk).mutators,
        final(mmtk).scheduler.coordinator_queue@ == old(mmtk).scheduler.coordinator_queue@.push(
            WorkPacket::StopMutators(StopMutators),
        ),
        bucket_of(final(mmtk).scheduler, WorkBucketStage::Prepare) == bucket_of(
            old(mmtk).scheduler,
            WorkBucketStage::Prepare,
        ).push(WorkPacket::Prepare(Prepare)),
        bucket_of(final(mmtk).scheduler, WorkBucketStage::Release) == bucket_of(
            old(mmtk).scheduler,
            WorkBucketStage::Release,
        ).push(WorkPacket::Release(Release)),
        bucket_of(final(mmtk).scheduler, WorkBucketStage::Final) == bucket_of(
            old(mmtk).scheduler,
            WorkBucketStage::Final,
        ).push(WorkPacket::EndOfGC(EndOfGC)),
        bucket_of(final(mmtk).scheduler, WorkBucketStage::Unconstrained) == bucket_of(
            old(mmtk).scheduler,
            WorkBucketStage::Unconstrained,
        ),
        bucket_of(final(mmtk).scheduler, WorkBucketStage::Closure) == bucket_of(
            old(mmtk).scheduler,
            WorkBucketStage::Closure,
        ),
        bucket_of(final(mmtk).scheduler, WorkBucketStage::RefClosure) == bucket_of(
            old(mmtk).scheduler,
            WorkBucketStage::RefClosure,
        ),
{
    let ghost plan0 = mmtk.plan;
    mmtk.plan.set_gc_status(GcStatus::GcPrepare);
    proof {
        lemma_world_plan_compat(plan0, mmtk.plan, mmtk.heap, mmtk.workers@);
    }
    mmtk.scheduler.add_coordinator_work(WorkPacket::StopMutators(StopMutators::new()));
    mmtk.scheduler.add(WorkBucketStage::Prepare, WorkPacket::Prepare(Prepare::new()));
    mmtk.scheduler.add(WorkBucketStage::Release, WorkPacket::Release(Release::new()));
    mmtk.scheduler.add(WorkBucketStage::Final, WorkPacket::EndOfGC(EndOfGC));
    true
}

/// Ends the collection: the status returns to `NotInGC` and every mutator
/// is resumed.
pub fn do_end_of_gc(mmtk: &mut MMTK) -> (ok: bool)
    requires
        old(mmtk).wf(),
    ensures
        final(mmtk).wf(),
        ok,
        final(mmtk).plan == (GenCopy { gc_status: GcStatus::NotInGC, ..old(mmtk).plan }),
        final(mmtk).heap == old(mmtk).heap,
        final(mmtk).scheduler == old(mmtk).scheduler,
        final(mmtk).workers == old(mmtk).workers,
        final(mmtk).mutators@.len() == old(mmtk).mutators@.len(),
        forall|k: int|
            0 <= k < old(mmtk).mutators@.len() ==> #[trigger] final(mmtk).mutators@[k] == (Mutator {
                paused: false,
                ..old(mmtk).mutators@[k]
            }),
{
    let ghost plan0 = mmtk.plan;
    mmtk.plan.set_gc_status(GcStatus::NotInGC);
    proof {
        lemma_world_plan_compat(plan0, mmtk.plan, mmtk.heap, mmtk.workers@);
    }
    let mcount = mmtk.mutators.len();
    let mut i: usize = 0;
    while i < mcount
        invariant
            0 <= i <= mcount,
            mcount == mmtk.mutators@.len(),
            mmtk.wf(),
            mmtk.plan == (GenCopy { gc_status: GcStatus::NotInGC, ..old(mmtk).plan }),
            mmtk.heap == old(mmtk).heap,
            mmtk.scheduler == old(mmtk).scheduler,
            mmtk.workers == old(mmtk).workers,
            mmtk.mutators@.len() == old(mmtk).mutators@.len(),
            forall|k: int|
                0 <= k < i ==> #[trigger] mmtk.mutators@[k] == (Mutator {
                    paused: false,
                    ..old(mmtk).mutators@[k]
                }),
            forall|k: int|
                i <= k < mcount ==> #[trigger] mmtk.mutators@[k] == old(mmtk).mutators@[k],
        decreases mcount - i,
    {
        mmtk.mutators[i].paused = false;
        i = i + 1;
    }
    true
}

/// Whether a packet is a fresh edge packet of the given kind over the given
/// slots, with the given root marking.
pub open spec fn is_edge_packet(
    p: WorkPacket,
    nursery: bool,
    edges: Seq<Address>,
    roots: bool,
) -> bool {
    if nursery {
        p matches WorkPacket::NurseryEdges(pkt) && pkt.base.edges@ == edges && pkt.base.roots
            == roots && pkt.base.nodes@.len() == 0
    } else {
        p matches WorkPacket::MatureEdges(pkt) && pkt.base.edges@ == edges && pkt.base.roots
            == roots && pkt.base.nodes@.len() == 0
    }
}

/// Whether a packet is a fresh root edge packet of the given kind.
pub open spec fn is_root_edge_packet(p: WorkPacket, nursery: bool, roots: Seq<Address>) -> bool {
    is_edge_packet(p, nursery, roots, true)
}

/// The single-threaded stack scan: every mutator's roots become one edge
/// packet of the current collection kind in the closure bucket, and the
/// status is set directly to proper, without barrier arithmetic.
pub fn do_scan_stack_roots(mmtk: &mut MMTK) -> (ok: bool)
    requires
        old(mmtk).wf(),
    ensures
        final(mmtk).wf(),
        ok,
        final(mmtk).plan == (GenCopy { gc_status: GcStatus::GcProper, ..old(mmtk).plan }),
        final(mmtk).heap == old(mmtk).heap,
        final(mmtk).workers == old(mmtk).workers,
        final(mmtk).mutators == old(mmtk).mutators,
        final(mmtk).scheduler.coordinator_queue == old(mmtk).scheduler.coordinator_queue,
        ({
            let b0 = bucket_of(old(mmtk).scheduler, WorkBucketStage::Closure);
            let b1 = bucket_of(final(mmtk).scheduler, WorkBucketStage::Closure);
            let m = old(mmtk).mutators@.len();
            &&& b1.len() == b0.len() + m
            &&& forall|k: int| 0 <= k < b0.len() ==> b1[k] == b0[k]
            &&& forall|k: int|
                0 <= k < m ==> is_root_edge_packet(
                    #[trigger] b1[b0.len() + k],
                    old(mmtk).plan.in_nursery_gc,
                    old(mmtk).mutators@[k].root_slots@,
                )
        }),
        forall|s: WorkBucketStage|
            s != WorkBucketStage::Closure ==> bucket_of(#[trigger] final(mmtk).scheduler, s)
                == bucket_of(old(mmtk).scheduler, s),
{
    let mcount = mmtk.mutators.len();
    let mut i: usize = 0;
    while i < mcount
        invariant
            0 <= i <= mcount,
            mcount == mmtk.mutators@.len(),
            mmtk.wf(),
            mmtk.plan == old(mmtk).plan,
            mmtk.heap == old(mmtk).heap,
            mmtk.workers == old(mmtk).workers,
            mmtk.mutators == old(mmtk).mutators,
            mmtk.scheduler.coordinator_queue == old(mmtk).scheduler.coordinator_queue,
            ({
                let b0 = bucket_of(old(mmtk).scheduler, WorkBucketStage::Closure);
                let b1 = bucket_of(mmtk.scheduler, WorkBucketStage::Closure);
                &&& b1.len() == b0.len() + i
                &&& forall|k: int| 0 <= k < b0.len() ==> b1[k] == b0[k]
                &&& forall|k: int|
                    0 <= k < i ==> is_root_edge_packet(
                        #[trigger] b1[b0.len() + k],
                        old(mmtk).plan.in_nursery_gc,
                        old(mmtk).mutators@[k].root_slots@,
                    )
            }),
            forall|s: WorkBucketStage|
                s != WorkBucketStage::Closure ==> bucket_of(#[trigger] mmtk.scheduler, s)
                    == bucket_of(old(mmtk).scheduler, s),
        decreases mcount - i,
    {
        let roots = clone_addresses(&mmtk.mutators[i].root_slots);
        let ghost b_prev = bucket_of(mmtk.scheduler, WorkBucketStage::Closure);
        enqueue_closure_edges(mmtk, roots, true);
        proof {
            let b1 = bucket_of(mmtk.scheduler, WorkBucketStage::Closure);
            assert(b1.drop_last() == b_prev);
            assert forall|k: int| 0 <= k < b1.len() - 1 implies b1[k] == b_prev[k] by {
                assert(b1.drop_last()[k] == b1[k]);
            }
        }
        i = i + 1;
    }
    let ghost plan0 = mmtk.plan;
    mmtk.plan.set_gc_status(GcStatus::GcProper);
    proof {
        lemma_world_plan_compat(plan0, mmtk.plan, mmtk.heap, mmtk.workers@);
    }
    true
}

/// Drives the host's own root enumeration: its roots become one root edge
/// packet of the current collection kind in the closure bucket.
pub fn do_scan_vm_specific_roots(mmtk: &mut MMTK) -> (ok: bool)
    requires
        old(mmtk).wf(),
    ensures
        final(mmtk).wf(),
        ok,
        final(mmtk).plan == old(mmtk).plan,
        final(mmtk).heap == old(mmtk).heap,
        final(mmtk).workers == old(mmtk).workers,
        final(mmtk).mutators == old(mmtk).mutators,
        final(mmtk).scheduler.coordinator_queue == old(mmtk).scheduler.coordinator_queue,
        bucket_of(final(mmtk).scheduler, WorkBucketStage::Closure).len() == bucket_of(
            old(mmtk).scheduler,
            WorkBucketStage::Closure,
        ).len() + 1,
        is_root_edge_packet(
            bucket_of(final(mmtk).scheduler, WorkBucketStage::Closure).last(),
            old(mmtk).plan.in_nursery_gc,
            old(mmtk).vm_roots@,
        ),
        forall|s: WorkBucketStage|
            s != WorkBucketStage::Closure ==> bucket_of(#[trigger] final(mmtk).scheduler, s)
                == bucket_of(old(mmtk).scheduler, s),
{
    let roots = clone_addresses(&mmtk.vm_roots);
    enqueue_closure_edges(mmtk, roots, true);
    true
}

/// Scans one mutator's stack: its roots become an edge packet, and the
/// scanned-stacks barrier advances one step. The counter wraps by
/// subtraction of the mutator count, and the status turns to proper exactly
/// when the counter reaches that count: once per collection, on the final
/// stack.
pub fn do_scan_stack_root(mmtk: &mut MMTK, i: usize) -> (ok: bool)
    requires
        old(mmtk).wf(),
    ensures
        final(mmtk).wf(),
        final(mmtk).workers@.len() == old(mmtk).workers@.len(),
        final(mmtk).mutators@.len() == old(mmtk).mutators@.len(),
        ok ==> {
            let m = old(mmtk).mutators@.len();
            let c = old(mmtk).plan.scanned_stacks;
            &&& final(mmtk).plan.scanned_stacks == crate::scheduler::scan_step(c as nat, m as nat)
            &&& (c + 1 >= m ==> final(mmtk).plan.gc_status == GcStatus::GcProper)
            &&& (c + 1 < m ==> final(mmtk).plan.gc_status == old(mmtk).plan.gc_status)
        },
{
    if i >= mmtk.mutators.len() {
        return false;
    }
    if mmtk.plan.scanned_stacks == usize::MAX {
        return false;
    }
    let roots = clone_addresses(&mmtk.mutators[i].root_slots);
    enqueue_root_edges(mmtk, roots);
    mmtk.mutators[i].flush();
    let mutators_count = mmtk.mutators.len();
    let ghost plan0 = mmtk.plan;
    let old_count = mmtk.plan.scanned_stacks;
    mmtk.plan.scanned_stacks = old_count + 1;
    proof {
        lemma_world_plan_compat(plan0, mmtk.plan, mmtk.heap, mmtk.workers@);
    }
    if old_count + 1 >= mutators_count {
        // the barrier: the counter wraps by subtraction, never by reset
        let current = mmtk.plan.scanned_stacks;
        if current >= mutators_count {
            let ghost plan1 = mmtk.plan;
            mmtk.plan.scanned_stacks = current - mutators_count;
            mmtk.plan.set_gc_status(GcStatus::GcProper);
            proof {
                lemma_world_plan_compat(plan1, mmtk.plan, mmtk.heap, mmtk.workers@);
            }
        }
    }
    true
}

/// The remembered-set processor. On a nursery collection the recorded
/// objects become a scan packet and the recorded slots a fresh root edge
/// packet, both in the closure bucket. On a mature collection it does
/// nothing at all: the full-heap closure subsumes the remembered set.
pub fn do_process_mod_buf(
    mmtk: &mut MMTK,
    modified_nodes: Vec<ObjectReference>,
    modified_edges: Vec<Address>,
) -> (ok: bool)
    requires
        old(mmtk).wf(),
    ensures
        final(mmtk).wf(),
        ok,
        !old(mmtk).plan.in_nursery_gc ==> *final(mmtk) == *old(mmtk),
        // on a nursery collection: one scan packet over the recorded objects
        // and one fresh root edge packet over the recorded slots, both at the
        // back of the closure bucket; nothing else changes
        old(mmtk).plan.in_nursery_gc ==> {
            let b0 = bucket_of(old(mmtk).scheduler, WorkBucketStage::Closure);
            let b1 = bucket_of(final(mmtk).scheduler, WorkBucketStage::Closure);
            &&& final(mmtk).plan == old(mmtk).plan
            &&& final(mmtk).heap == old(mmtk).heap
            &&& final(mmtk).workers == old(mmtk).workers
            &&& final(mmtk).mutators == old(mmtk).mutators
            &&& final(mmtk).scheduler.coordinator_queue == old(mmtk).scheduler.coordinator_queue
            &&& b1.len() == b0.len() + 2
            &&& forall|k: int| 0 <= k < b0.len() ==> b1[k] == b0[k]
            &&& (b1[b0.len() as int] matches WorkPacket::ScanObjects(sp) && sp.buffer@
                == modified_nodes@ && !sp.concurrent)
            &&& is_root_edge_packet(b1.last(), true, modified_edges@)
            &&& forall|s: WorkBucketStage|
                s != WorkBucketStage::Closure ==> bucket_of(#[trigger] final(mmtk).scheduler, s)
                    == bucket_of(old(mmtk).scheduler, s)
        },
{
    if mmtk.plan.in_nursery() {
        mmtk.scheduler.add(
            WorkBucketStage::Closure,
            WorkPacket::ScanObjects(ScanObjects::new(modified_nodes, false)),
        );
        mmtk.scheduler.add(
            WorkBucketStage::Closure,
            WorkPacket::NurseryEdges(GenCopyNurseryProcessEdges::new(modified_edges, true)),
        );
    }
    true
}

/// Scans a buffer of objects: every word of each object becomes a slot of
/// one fresh edge packet of the current collection kind, queued at the back
/// of the closure bucket. An empty buffer is a no-op; an unsized object in
/// the buffer is a plan bug and faults.
pub fn do_scan_objects(mmtk: &mut MMTK, buffer: Vec<ObjectReference>) -> (ok: bool)
    requires
        old(mmtk).wf(),
    ensures
        final(mmtk).wf(),
        buffer@.len() == 0 ==> ok && *final(mmtk) == *old(mmtk),
        !ok ==> *final(mmtk) == *old(mmtk),
        ok && buffer@.len() > 0 ==> {
            let b0 = bucket_of(old(mmtk).scheduler, WorkBucketStage::Closure);
            let b1 = bucket_of(final(mmtk).scheduler, WorkBucketStage::Closure);
            &&& final(mmtk).plan == old(mmtk).plan
            &&& final(mmtk).heap == old(mmtk).heap
            &&& final(mmtk).workers == old(mmtk).workers
            &&& final(mmtk).mutators == old(mmtk).mutators
            &&& final(mmtk).scheduler.coordinator_queue == old(mmtk).scheduler.coordinator_queue
            &&& b1.len() == b0.len() + 1
            &&& forall|k: int| 0 <= k < b0.len() ==> b1[k] == b0[k]
            // the appended packet's slots all lie inside sized objects
            &&& (exists|edges: Seq<Address>|
                is_edge_packet(#[trigger] b1.last(), old(mmtk).plan.in_nursery_gc, edges, false)
                    && (forall|k: int|
                    0 <= k < edges.len() ==> within_some_object(
                        old(mmtk).heap,
                        #[trigger] edges[k],
                    )))
            &&& forall|s: WorkBucketStage|
                s != WorkBucketStage::Closure ==> bucket_of(#[trigger] final(mmtk).scheduler, s)
                    == bucket_of(old(mmtk).scheduler, s)
        },
{
    if buffer.len() == 0 {
        return true;
    }
    let edges = scan_object_fields(&mmtk.heap, &buffer);
    match edges {
        None => false,
        Some(edges) => {
            enqueue_closure_edges(mmtk, edges, false);
            true
        },
    }
}

/// Copies a list of slot addresses.
fn clone_addresses(v: &Vec<Address>) -> (r: Vec<Address>)
    ensures
        r@ == v@,
{
    let n = v.len();
    let mut r: Vec<Address> = Vec::new();
    let mut i: usize = 0;
    while i < n
        invariant
            0 <= i <= n,
            n == v@.len(),
            r@ == v@.take(i as int),
        decreases n - i,
    {
        r.push(v[i]);
        proof {
            assert(r@ =~= v@.take(i + 1));
        }
        i = i + 1;
    }
    proof {
        assert(v@.take(n as int) =~= v@);
    }
    r
}

/// Wraps a root-slot list in an edge packet of the current collection kind
/// and queues it into the closure bucket.
fn enqueue_root_edges(mmtk: &mut MMTK, roots: Vec<Address>)
    requires
        old(mmtk).wf(),
    ensures
        final(mmtk).wf(),
        final(mmtk).plan == old(mmtk).plan,
        final(mmtk).heap == old(mmtk).heap,
        final(mmtk).workers == old(mmtk).workers,
        final(mmtk).mutators == old(mmtk).mutators,
        final(mmtk).scheduler.coordinator_queue == old(mmtk).scheduler.coordinator_queue,
        bucket_of(final(mmtk).scheduler, WorkBucketStage::Closure).len() == bucket_of(
            old(mmtk).scheduler,
            WorkBucketStage::Closure,
        ).len() + 1,
        bucket_of(final(mmtk).scheduler, WorkBucketStage::Closure).drop_last() == bucket_of(
            old(mmtk).scheduler,
            WorkBucketStage::Closure,
        ),
        is_root_edge_packet(
            bucket_of(final(mmtk).scheduler, WorkBucketStage::Closure).last(),
            old(mmtk).plan.in_nursery_gc,
            roots@,
        ),
        forall|s: WorkBucketStage|
            s != WorkBucketStage::Closure ==> bucket_of(#[trigger] final(mmtk).scheduler, s)
                == bucket_of(old(mmtk).scheduler, s),
{
    enqueue_closure_edges(mmtk, roots, true)
}

/// Queues one fresh edge packet of the current collection kind at the back
/// of the closure bucket; nothing else changes.
fn enqueue_closure_edges(mmtk: &mut MMTK, edges: Vec<Address>, roots: bool)
    requires
        old(mmtk).wf(),
    ensures
        final(mmtk).wf(),
        final(mmtk).plan == old(mmtk).plan,
        final(mmtk).heap == old(mmtk).heap,
        final(mmtk).workers == old(mmtk).workers,
        final(mmtk).mutators == old(mmtk).mutators,
        final(mmtk).scheduler.coordinator_queue == old(mmtk).scheduler.coordinator_queue,
        bucket_of(final(mmtk).scheduler, WorkBucketStage::Closure).len() == bucket_of(
            old(mmtk).scheduler,
            WorkBucketStage::Closure,
        ).len() + 1,
        bucket_of(final(mmtk).scheduler, WorkBucketStage::Closure).drop_last() == bucket_of(
            old(mmtk).scheduler,
            WorkBucketStage::Closure,
        ),
        is_edge_packet(
            bucket_of(final(mmtk).scheduler, WorkBucketStage::Closure).last(),
            old(mmtk).plan.in_nursery_gc,
            edges@,
            roots,
        ),
        forall|s: WorkBucketStage|
            s != WorkBucketStage::Closure ==> bucket_of(#[trigger] final(mmtk).scheduler, s)
                == bucket_of(old(mmtk).scheduler, s),
{
    if mmtk.plan.in_nursery() {
        mmtk.scheduler.add(
            WorkBucketStage::Closure,
            WorkPacket::NurseryEdges(GenCopyNurseryProcessEdges::new(edges, roots)),
        );
    } else {
        mmtk.scheduler.add(
            WorkBucketStage::Closure,
            WorkPacket::MatureEdges(GenCopyMatureProcessEdges::new(edges, roots)),
        );
    }
}

/// Runs one edge packet on a worker: validates every slot and the copy room
/// in the current state, drains the packet, and turns the discovered objects
/// into a scan packet.
pub fn execute_edge_packet(
    mmtk: &mut MMTK,
    widx: usize,
    base: crate::edges::ProcessEdgesBase,
    mature: bool,
) -> (ok: bool)
    requires
        old(mmtk).wf(),
        widx < old(mmtk).workers@.len(),
    ensures
        final(mmtk).wf(),
        final(mmtk).workers@.len() == old(mmtk).workers@.len(),
        final(mmtk).mutators@.len() == old(mmtk).mutators@.len(),
        !ok ==> final(mmtk).heap == old(mmtk).heap,
        // the packet drained: every one of its slots holds a traced
        // reference — never a nursery address, and on a mature collection
        // never a fromspace address
        ok ==> forall|j: int|
            0 <= j < base.edges@.len() ==> {
                let w = final(mmtk).heap.slot(#[trigger] base.edges@[j]);
                &&& final(mmtk).heap.has_slot(base.edges@[j])
                &&& !final(mmtk).plan.nursery.holds(w)
                &&& (mature ==> !final(mmtk).plan.spec_fromspace().holds(w))
                &&& (w != 0 ==> final(mmtk).plan.spec_tospace().holds(w) || (mature && final(mmtk).plan.common.holds(w)))
            },
        ok ==> final(mmtk).plan == old(mmtk).plan,
        // what the packet discovered is handed onward: either nothing was
        // discovered, or exactly one scan packet joins the closure bucket
        ok ==> ({
            let b0 = bucket_of(old(mmtk).scheduler, WorkBucketStage::Closure);
            let b1 = bucket_of(final(mmtk).scheduler, WorkBucketStage::Closure);
            ||| b1 == b0
            ||| (b1.len() == b0.len() + 1 && (forall|k: int| 0 <= k < b0.len() ==> b1[k] == b0[k])
                && (b1.last() matches WorkPacket::ScanObjects(sp) && !sp.concurrent))
        }),
        ok ==> final(mmtk).scheduler.coordinator_queue == old(mmtk).scheduler.coordinator_queue
            && (forall|s: WorkBucketStage|
            s != WorkBucketStage::Closure ==> bucket_of(#[trigger] final(mmtk).scheduler, s)
                == bucket_of(old(mmtk).scheduler, s)),
{
    let mut base = base;
    base.set_worker(widx);
    if !mmtk.workers[widx].prepared {
        return false;
    }
    if !mmtk.plan.gc_in_progress_proper() {
        return false;
    }
    let ghost ws0 = mmtk.workers@;
    let ghost h0 = mmtk.heap;
    let mut cc = GenCopyCopyContext::new();
    core::mem::swap(&mut cc, &mut mmtk.workers[widx].copy);
    let ghost cc0 = cc;
    proof {
        assert(worker_ok(mmtk.plan, mmtk.heap, ws0[widx as int]));
        assert(trace_inv(mmtk.plan, mmtk.heap, cc));
    }
    if !validate_edges(mature, &mmtk.plan, &mmtk.heap, &cc, &base.edges) {
        mmtk.workers[widx].copy = cc;
        proof {
            assert(mmtk.workers@ =~= old(mmtk).workers@);
        }
        return false;
    }
    crate::edges::process_edges_work(mature, &mut base, &mmtk.plan, &mut mmtk.heap, &mut cc);
    let ghost cc1 = cc;
    mmtk.workers[widx].copy = cc;
    proof {
        assert(mmtk.workers@ =~= ws0.update(
            widx as int,
            GCWorker { copy: cc1, ..ws0[widx as int] },
        ));
        lemma_world_after_edge_packet(
            mature,
            mmtk.plan,
            h0,
            mmtk.heap,
            ws0,
            mmtk.workers@,
            widx as int,
            cc1,
        );
    }
    // what the packet discovered becomes a scan packet
    let mut nodes: Vec<ObjectReference> = Vec::new();
    core::mem::swap(&mut nodes, &mut base.nodes);
    if nodes.len() > 0 {
        mmtk.scheduler.add(
            WorkBucketStage::Closure,
            WorkPacket::ScanObjects(ScanObjects::new(nodes, false)),
        );
    }
    true
}

/// The index of the first worker with queued local work.
fn find_local_work(workers: &Vec<GCWorker>) -> (r: Option<usize>)
    ensures
        r matches Some(i) ==> i < workers@.len() && workers@[i as int].local_works@.len() > 0,
        r is None ==> forall|i: int|
            0 <= i < workers@.len() ==> (#[trigger] workers@[i]).local_works@.len() == 0,
{
    let n = workers.len();
    let mut i: usize = 0;
    while i < n
        invariant
            0 <= i <= n,
            n == workers@.len(),
            forall|k: int| 0 <= k < i ==> (#[trigger] workers@[k]).local_works@.len() == 0,
        decreases n - i,
    {
        if workers[i].local_works.len() > 0 {
            return Some(i);
        }
        i = i + 1;
    }
    None
}

/// The lowest open bucket holding work: lower buckets drain first.
fn first_nonempty_bucket(sched: &Scheduler) -> (r: Option<usize>)
    requires
        sched.wf(),
    ensures
        r matches Some(b) ==> b < NUM_STAGES && (sched.work_buckets@[b as int])@.len() > 0,
        r is None ==> forall|s: int|
            0 <= s < NUM_STAGES ==> (#[trigger] sched.work_buckets@[s])@.len() == 0,
{
    let mut s: usize = 0;
    while s < NUM_STAGES
        invariant
            0 <= s <= NUM_STAGES,
            sched.wf(),
            forall|k: int| 0 <= k < s ==> (#[trigger] sched.work_buckets@[k])@.len() == 0,
        decreases NUM_STAGES - s,
    {
        if sched.work_buckets[s].len() > 0 {
            return Some(s);
        }
        s = s + 1;
    }
    None
}

/// The coordinator worker's index.
fn find_coordinator(workers: &Vec<GCWorker>) -> (r: Option<usize>)
    ensures
        r matches Some(i) ==> i < workers@.len() && workers@[i as int].coordinator,
{
    let n = workers.len();
    let mut i: usize = 0;
    while i < n
        invariant
            0 <= i <= n,
            n == workers@.len(),
        decreases n - i,
    {
        if workers[i].is_coordinator() {
            return Some(i);
        }
        i = i + 1;
    }
    None
}

/// Requests a collection of the given kind: the coordinator will run
/// `ScheduleCollection`, which lays out the phases.
pub fn schedule_collection(mmtk: &mut MMTK, nursery: bool)
    requires
        old(mmtk).wf(),
    ensures
        final(mmtk).wf(),
        final(mmtk).plan.in_nursery_gc == nursery,
        final(mmtk).workers@.len() == old(mmtk).workers@.len(),
        final(mmtk).mutators@.len() == old(mmtk).mutators@.len(),
        // exactly one scheduling packet is handed to the coordinator
        final(mmtk).scheduler.coordinator_queue@ == old(mmtk).scheduler.coordinator_queue@.push(WorkPacket::ScheduleCollection(ScheduleCollection)),
        final(mmtk).scheduler.work_buckets == old(mmtk).scheduler.work_buckets,
        final(mmtk).heap == old(mmtk).heap,
        final(mmtk).workers == old(mmtk).workers,
        final(mmtk).mutators == old(mmtk).mutators,
        final(mmtk).plan == (GenCopy { in_nursery_gc: nursery, ..old(mmtk).plan }),
{
    let ghost plan0 = mmtk.plan;
    mmtk.plan.in_nursery_gc = nursery;
    proof {
        lemma_world_plan_compat(plan0, mmtk.plan, mmtk.heap, mmtk.workers@);
    }
    mmtk.scheduler.add_coordinator_work(
        WorkPacket::ScheduleCollection(ScheduleCollection),
    );
}

/// Drives the collection to completion: worker-local packets first, then
/// coordinator work, then the lowest bucket with work; a bucket opens only
/// when every lower one has drained. `Complete` means every queue is empty.
/// The fuel bounds the packets executed; `Fault` reports an invariant
/// violation that a collector under a controlled host treats as fatal.
/// Nothing is queued anywhere: no coordinator work, no bucket work, no
/// worker-local work.
pub open spec fn no_work(m: MMTK) -> bool {
    &&& m.scheduler.coordinator_queue@.len() == 0
    &&& forall|s: int|
        0 <= s < NUM_STAGES ==> (#[trigger] m.scheduler.work_buckets@[s])@.len() == 0
    &&& forall|i: int|
        0 <= i < m.workers@.len() ==> (#[trigger] m.workers@[i]).local_works@.len() == 0
}

pub fn gc_run(mmtk: &mut MMTK, fuel: usize) -> (r: GcRunStatus)
    requires
        old(mmtk).wf(),
        old(mmtk).workers@.len() >= 1,
    ensures
        final(mmtk).wf(),
        final(mmtk).workers@.len() == old(mmtk).workers@.len(),
        final(mmtk).mutators@.len() == old(mmtk).mutators@.len(),
        r == GcRunStatus::Complete ==> no_work(*final(mmtk)),
        // no fuel, no work
        fuel == 0 ==> r == GcRunStatus::OutOfFuel && *final(mmtk) == *old(mmtk),
        // with nothing queued and any fuel at all, the run completes at once
        fuel >= 1 && no_work(*old(mmtk)) ==> r == GcRunStatus::Complete && *final(mmtk) == *old(mmtk),
{
    let mut steps: usize = 0;
    while steps < fuel
        invariant
            mmtk.wf(),
            mmtk.workers@.len() == old(mmtk).workers@.len(),
            mmtk.mutators@.len() == old(mmtk).mutators@.len(),
            mmtk.workers@.len() >= 1,
            0 <= steps <= fuel,
            steps == 0 ==> *mmtk == *old(mmtk),
            no_work(*old(mmtk)) ==> steps == 0 && *mmtk == *old(mmtk),
        decreases fuel - steps,
    {
        let li = find_local_work(&mmtk.workers);
        match li {
            Some(i) => {
                let p = mmtk.workers[i].local_works.remove(0);
                if !execute_packet(mmtk, i, p) {
                    return GcRunStatus::Fault;
                }
            },
            None => {
                if mmtk.scheduler.coordinator_queue.len() > 0 {
                    let p = mmtk.scheduler.coordinator_queue.remove(0);
                    let ci = find_coordinator(&mmtk.workers);
                    let widx = match ci {
                        Some(c) => c,
                        None => 0,
                    };
                    if !execute_packet(mmtk, widx, p) {
                        return GcRunStatus::Fault;
                    }
                } else {
                    let bi = first_nonempty_bucket(&mmtk.scheduler);
                    match bi {
                        None => {
                            return GcRunStatus::Complete;
                        },
                        Some(b) => {
                            let p = mmtk.scheduler.work_buckets[b].remove(0);
                            let widx = steps % mmtk.workers.len();
                            if !execute_packet(mmtk, widx, p) {
                                return GcRunStatus::Fault;
                            }
                        },
                    }
                }
            },
        }
        steps = steps + 1;
    }
    GcRunStatus::OutOfFuel
}

/// The bundle does not read the GC status, the collection kind, the barrier
/// counter or the stack flag: a plan differing only there satisfies it alike.
proof fn lemma_world_plan_compat(plan0: GenCopy, plan1: GenCopy, heap: Heap, ws: Seq<GCWorker>)
    requires
        world_wf(plan0, heap, ws),
        plan1.wf(),
        plan1.nursery == plan0.nursery,
        plan1.copyspace0 == plan0.copyspace0,
        plan1.copyspace1 == plan0.copyspace1,
        plan1.common == plan0.common,
        plan1.hi == plan0.hi,
        plan0.tospace_cursor <= plan1.tospace_cursor,
    ensures
        world_wf(plan1, heap, ws),
    {
        assert(plan1.spec_tospace() == plan0.spec_tospace());
        assert(plan1.spec_fromspace() == plan0.spec_fromspace());
        assert forall|o: ObjectReference| #[trigger] heap.sizes@.dom().contains(o)
            implies crate::trace::valid_object(plan1, heap, o) by {
            assert(crate::trace::valid_object(plan0, heap, o));
        }
        assert forall|o: ObjectReference|
            #[trigger] heap.fwd_state(o) matches ForwardingState::Forwarded(a) ==> a != 0
                && heap.sizes@.dom().contains(a) && plan1.spec_tospace().holds(a) by {}
        assert forall|i: int| 0 <= i < ws.len() implies worker_ok(plan1, heap, #[trigger] ws[i]) by {
            assert(worker_ok(plan0, heap, ws[i]));
        }
    }

/// Dropping the forwarding words and marks wholesale keeps the bundle: no
/// object loses a word or a size, and an empty forwarding table is quiescent.
proof fn lemma_world_after_reset(plan: GenCopy, h0: Heap, h1: Heap, ws: Seq<GCWorker>)
    requires
        world_wf(plan, h0, ws),
        h1.mem@ == h0.mem@,
        h1.sizes@ == h0.sizes@,
        h1.fwd@ == Map::<Address, ForwardingState>::empty(),
    ensures
        world_wf(plan, h1, ws),
    {
        assert forall|o: ObjectReference| #[trigger] h1.sizes@.dom().contains(o)
            implies crate::trace::valid_object(plan, h1, o) by {
            assert(h0.sizes@.dom().contains(o));
            assert(crate::trace::valid_object(plan, h0, o));
            assert forall|off: usize|
                0 <= off < h1.sizes@[o] && crate::constants::word_aligned(off)
                implies h1.has_slot((o + off) as usize) by {
                assert(h0.has_slot((o + off) as usize));
            }
        }
        assert forall|o: ObjectReference| #[trigger] h1.fwd_state(o)
            != ForwardingState::BeingForwarded by {
            assert(!h1.fwd@.dom().contains(o));
        }
        assert forall|i: int| 0 <= i < ws.len() implies worker_ok(plan, h1, #[trigger] ws[i]) by {
            if ws[i].prepared {
                assert(worker_ok(plan, h0, ws[i]));
                assert forall|o: ObjectReference|
                    #[trigger] h1.sizes@.dom().contains(o) && plan.spec_tospace().holds(o)
                    implies o + h1.sizes@[o] <= ws[i].copy.ss.cursor || ws[i].copy.ss.limit
                        <= o by {
                    assert(h0.sizes@.dom().contains(o));
                }
                assert forall|a: Address|
                    ws[i].copy.ss.cursor <= a < ws[i].copy.ss.limit implies #[trigger] h1.fwd_state(
                    a) == ForwardingState::NotForwarded by {
                    assert(!h1.fwd@.dom().contains(a));
                }
            }
        }
    }

/// A collection's preparation may flip the semispace roles and move the
/// hand-out cursor: with no forwarding installed and no worker prepared the
/// bundle carries over to the reshaped plan.
proof fn lemma_world_after_prepare(plan0: GenCopy, plan1: GenCopy, heap: Heap, ws: Seq<GCWorker>)
    requires
        plan0.wf(),
        plan1.wf(),
        valid_objects(plan0, heap),
        plan1.nursery == plan0.nursery,
        plan1.copyspace0 == plan0.copyspace0,
        plan1.copyspace1 == plan0.copyspace1,
        plan1.common == plan0.common,
        forall|o: ObjectReference| #[trigger] heap.fwd_state(o) == ForwardingState::NotForwarded,
        forall|i: int| 0 <= i < ws.len() ==> !(#[trigger] ws[i]).prepared,
    ensures
        world_wf(plan1, heap, ws),
    {
        assert forall|o: ObjectReference| #[trigger] heap.sizes@.dom().contains(o)
            implies crate::trace::valid_object(plan1, heap, o) by {
            assert(crate::trace::valid_object(plan0, heap, o));
            assert(crate::trace::object_space_ok(plan1, o, heap.sizes@[o]));
        }
    }

/// After one worker's edge packet, every other worker's block is still free:
/// the copies landed in the executing worker's own block, and forwarding
/// changed only in the evacuated spaces and there.
proof fn lemma_world_after_edge_packet(
    mature: bool,
    plan: GenCopy,
    h0: Heap,
    h1: Heap,
    ws0: Seq<GCWorker>,
    ws1: Seq<GCWorker>,
    widx: int,
    cc1: GenCopyCopyContext,
)
    requires
        world_wf(plan, h0, ws0),
        0 <= widx < ws0.len(),
        ws0[widx].prepared,
        ws1 == ws0.update(widx, GCWorker { copy: cc1, ..ws0[widx] }),
        trace_inv(plan, h1, cc1),
        cc1.ss.limit == ws0[widx].copy.ss.limit,
        ws0[widx].copy.ss.cursor <= cc1.ss.cursor,
        // locality of the packet's effects
        forall|o: ObjectReference|
            !crate::trace::evacuated(mature, plan, o) && !(
            ws0[widx].copy.ss.cursor <= o < cc1.ss.cursor) ==> #[trigger] h1.fwd_state(o)
                == h0.fwd_state(o),
        forall|o: ObjectReference| #[trigger] h1.sizes@.dom().contains(o)
            ==> h0.sizes@.dom().contains(o) || (ws0[widx].copy.ss.cursor <= o < cc1.ss.cursor),
        forall|o: ObjectReference| #[trigger] h0.sizes@.dom().contains(o)
            ==> h1.sizes@.dom().contains(o) && h1.sizes@[o] == h0.sizes@[o],
    ensures
        world_wf(plan, h1, ws1),
    {
        let cc0 = ws0[widx].copy;
        assert(cc_ok(plan, cc1));
        assert(cc1.ss.cursor <= cc1.ss.limit);
        assert forall|i: int| 0 <= i < ws1.len() implies worker_ok(plan, h1, #[trigger] ws1[i]) by {
            if i == widx {
                assert(ws1[i].copy == cc1);
                assert(block_free(plan, h1, cc1));
                assert(cc1.ss.limit <= plan.tospace_cursor) by {
                    assert(worker_ok(plan, h0, ws0[widx]));
                }
            } else {
                assert(ws1[i] == ws0[i]);
                assert(worker_ok(plan, h0, ws0[i]));
                if ws0[i].prepared {
                    let cci = ws0[i].copy;
                    // the two blocks are disjoint
                    assert(cc0.ss.limit <= cci.ss.cursor || cci.ss.limit <= cc0.ss.cursor);
                    assert forall|o: ObjectReference|
                        #[trigger] h1.sizes@.dom().contains(o) && plan.spec_tospace().holds(o)
                        implies o + h1.sizes@[o] <= cci.ss.cursor || cci.ss.limit <= o by {
                        if h0.sizes@.dom().contains(o) {
                            assert(h1.sizes@[o] == h0.sizes@[o]);
                        } else {
                            // a fresh copy: it lies in the executing worker's
                            // block, wholly below its new cursor
                            assert(cc0.ss.cursor <= o < cc1.ss.cursor);
                            assert(o + h1.sizes@[o] <= cc1.ss.cursor || cc1.ss.limit <= o) by {
                                assert(block_free(plan, h1, cc1));
                            }
                            assert(o + h1.sizes@[o] <= cc1.ss.cursor);
                        }
                    }
                    assert forall|a: Address|
                        cci.ss.cursor <= a < cci.ss.limit implies #[trigger] h1.fwd_state(a)
                            == ForwardingState::NotForwarded by {
                        assert(cci.bound_in(plan));
                        assert(plan.spec_tospace().start <= a < plan.spec_tospace().end);
                        assert(!crate::trace::evacuated(mature, plan, a));
                        assert(!(cc0.ss.cursor <= a < cc1.ss.cursor));
                        assert(h1.fwd_state(a) == h0.fwd_state(a));
                        assert(h0.fwd_state(a) == ForwardingState::NotForwarded) by {
                            assert(worker_ok(plan, h0, ws0[i]));
                        }
                    }
                }
            }
        }
        assert forall|i: int, j: int|
            0 <= i < ws1.len() && 0 <= j < ws1.len() && i != j && (#[trigger] ws1[i]).prepared && (
            #[trigger] ws1[j]).prepared implies ws1[i].copy.ss.limit <= ws1[j].copy.ss.cursor
            || ws1[j].copy.ss.limit <= ws1[i].copy.ss.cursor by {
            assert(ws0[i].prepared && ws0[j].prepared);
        }
    }

} // verus!
