//! The GC work-packet scheduler: ordered buckets drained lowest first, a
//! coordinator queue for serialized packets, per-worker local queues for
//! work bound to one worker's copy context, and the packet catalog that
//! drives a collection from stop-the-world to mutator resume.

use vstd::prelude::*;

verus! {

use vstd::arithmetic::div_mod::{lemma_fundamental_div_mod_converse, lemma_small_mod};
use crate::constants::{Address, ObjectReference, OpaquePointer};
use crate::copy_context::GenCopyCopyContext;
use crate::gencopy::{GenCopyNurseryProcessEdges, GenCopyMatureProcessEdges, GenCopyProcessModBuf};

/// The bucket order; a bucket opens only when every lower one has drained.
#[derive(Clone, Copy, PartialEq, Eq, Structural)]
pub enum WorkBucketStage {
    Unconstrained,
    Prepare,
    Closure,
    RefClosure,
    Release,
    Final,
}

pub const NUM_STAGES: usize = 6;

/// The bucket index of a stage.
pub open spec fn spec_stage_index(s: WorkBucketStage) -> usize {
    match s {
        WorkBucketStage::Unconstrained => 0,
        WorkBucketStage::Prepare => 1,
        WorkBucketStage::Closure => 2,
        WorkBucketStage::RefClosure => 3,
        WorkBucketStage::Release => 4,
        WorkBucketStage::Final => 5,
    }
}

#[verifier::when_used_as_spec(spec_stage_index)]
pub fn stage_index(s: WorkBucketStage) -> (r: usize)
    ensures
        r == spec_stage_index(s),
        r < NUM_STAGES,
{
    match s {
        WorkBucketStage::Unconstrained => 0,
        WorkBucketStage::Prepare => 1,
        WorkBucketStage::Closure => 2,
        WorkBucketStage::RefClosure => 3,
        WorkBucketStage::Release => 4,
        WorkBucketStage::Final => 5,
    }
}

/// Tells the plan to lay out the collection's phases.
pub struct ScheduleCollection;

/// Global preparation; fans out per-mutator and per-collector prepares.
pub struct Prepare;

impl Prepare {
    pub fn new() -> (r: Prepare) {
        Prepare
    }
}

/// Prepares one mutator, named by index.
pub struct PrepareMutator {
    pub mutator: usize,
}

impl PrepareMutator {
    pub fn new(mutator: usize) -> (r: PrepareMutator)
        ensures
            r.mutator == mutator,
    {
        PrepareMutator { mutator }
    }
}

/// Rebinds the executing worker's own copy context; runs from the worker's
/// local queue.
pub struct PrepareCollector;

impl PrepareCollector {
    pub fn new() -> (r: PrepareCollector) {
        PrepareCollector
    }
}

/// Global release; fans out per-mutator and per-collector releases.
pub struct Release;

impl Release {
    pub fn new() -> (r: Release) {
        Release
    }
}

/// Releases one mutator, named by index.
pub struct ReleaseMutator {
    pub mutator: usize,
}

impl ReleaseMutator {
    pub fn new(mutator: usize) -> (r: ReleaseMutator)
        ensures
            r.mutator == mutator,
    {
        ReleaseMutator { mutator }
    }
}

/// Releases the executing worker's copy context (a no-op by design).
pub struct ReleaseCollector;

impl ReleaseCollector {
    pub fn new() -> (r: ReleaseCollector) {
        ReleaseCollector
    }
}

/// Pauses all mutators and seeds the root-scanning packets. Coordinator
/// work: a non-coordinator worker requeues it for the coordinator.
pub struct StopMutators;

impl StopMutators {
    pub fn new() -> (r: StopMutators) {
        StopMutators
    }
}

/// Ends the collection: status back to `NotInGC`, mutators resumed.
pub struct EndOfGC;

/// Scans every mutator stack from one packet (single-threaded scanning).
pub struct ScanStackRoots;

impl ScanStackRoots {
    pub fn new() -> (r: ScanStackRoots) {
        ScanStackRoots
    }
}

/// Scans one mutator's stack and takes part in the scanned-stacks barrier.
pub struct ScanStackRoot(pub usize);

/// Drives the host's own root enumeration.
pub struct ScanVMSpecificRoots;

impl ScanVMSpecificRoots {
    pub fn new() -> (r: ScanVMSpecificRoots) {
        ScanVMSpecificRoots
    }
}

/// Scans a buffer of objects, producing their field slots as new edge work.
pub struct ScanObjects {
    pub buffer: Vec<ObjectReference>,
    pub concurrent: bool,
}

impl ScanObjects {
    pub fn new(buffer: Vec<ObjectReference>, concurrent: bool) -> (r: ScanObjects)
        ensures
            r.buffer == buffer,
            r.concurrent == concurrent,
    {
        ScanObjects { buffer, concurrent }
    }
}

/// The generic remembered-set processor: acts only on nursery collections.
pub struct ProcessModBuf {
    pub modified_nodes: Vec<ObjectReference>,
    pub modified_edges: Vec<Address>,
}

impl ProcessModBuf {
    pub fn new(modified_nodes: Vec<ObjectReference>, modified_edges: Vec<Address>) -> (r:
        ProcessModBuf)
        ensures
            r.modified_nodes == modified_nodes,
            r.modified_edges == modified_edges,
    {
        ProcessModBuf { modified_nodes, modified_edges }
    }
}

/// One queued unit of collection work.
pub enum WorkPacket {
    ScheduleCollection(ScheduleCollection),
    Prepare(Prepare),
    PrepareMutator(PrepareMutator),
    PrepareCollector(PrepareCollector),
    Release(Release),
    ReleaseMutator(ReleaseMutator),
    ReleaseCollector(ReleaseCollector),
    StopMutators(StopMutators),
    EndOfGC(EndOfGC),
    ScanStackRoots(ScanStackRoots),
    ScanStackRoot(ScanStackRoot),
    ScanVMSpecificRoots(ScanVMSpecificRoots),
    ScanObjects(ScanObjects),
    ProcessModBuf(ProcessModBuf),
    GenCopyModBuf(GenCopyProcessModBuf),
    NurseryEdges(GenCopyNurseryProcessEdges),
    MatureEdges(GenCopyMatureProcessEdges),
}

/// A collector thread: its ordinal, whether it is the coordinator, its
/// local queue of worker-bound packets, and its own copy context.
pub struct GCWorker {
    pub ordinal: usize,
    pub coordinator: bool,
    pub tls: OpaquePointer,
    pub local_works: Vec<WorkPacket>,
    pub copy: GenCopyCopyContext,
    pub prepared: bool,
}

impl GCWorker {
    pub fn new(ordinal: usize, coordinator: bool) -> (r: GCWorker)
        ensures
            r.ordinal == ordinal,
            r.coordinator == coordinator,
            r.local_works@.len() == 0,
            r.copy.ss.cursor == 0,
            r.copy.ss.limit == 0,
            !r.prepared,
    {
        GCWorker {
            ordinal,
            coordinator,
            tls: 0,
            local_works: Vec::new(),
            copy: GenCopyCopyContext::new(),
            prepared: false,
        }
    }

    pub fn is_coordinator(&self) -> (r: bool)
        ensures
            r == self.coordinator,
    {
        self.coordinator
    }
}

/// One mutator thread as the collector sees it: its root slots, and the
/// prepared / paused flags the phases toggle.
pub struct Mutator {
    pub tls: OpaquePointer,
    pub root_slots: Vec<Address>,
    pub prepared: bool,
    pub paused: bool,
}

impl Mutator {
    pub fn new(tls: OpaquePointer, root_slots: Vec<Address>) -> (r: Mutator)
        ensures
            r.tls == tls,
            r.root_slots == root_slots,
            !r.prepared,
            !r.paused,
    {
        Mutator { tls, root_slots, prepared: false, paused: false }
    }

    pub fn prepare(&mut self, _tls: OpaquePointer)
        ensures
            *final(self) == (Mutator { prepared: true, ..*old(self) }),
    {
        self.prepared = true;
    }

    pub fn release(&mut self, _tls: OpaquePointer)
        ensures
            *final(self) == (Mutator { prepared: false, ..*old(self) }),
    {
        self.prepared = false;
    }

    /// Flushes the mutator's barrier buffers (drained by the mod-buf
    /// processor in this model, so nothing is left to move).
    pub fn flush(&mut self)
        ensures
            *final(self) == *old(self),
    {
    }
}

/// The sequential specification of one scanned-stacks barrier step: add one,
/// and on reaching the mutator count subtract it back out.
pub open spec fn scan_step(c: nat, m: nat) -> nat {
    if c + 1 >= m {
        (c + 1 - m) as nat
    } else {
        c + 1
    }
}

/// Iterates the barrier step.
pub open spec fn scan_iter(c: nat, m: nat, k: nat) -> nat
    decreases k,
{
    if k == 0 {
        c
    } else {
        scan_step(scan_iter(c, m, (k - 1) as nat), m)
    }
}

/// Each barrier step advances the counter by one, modulo the mutator count.
pub proof fn lemma_scan_step_mod(c: nat, m: nat)
    requires
        m >= 1,
        c < m,
    ensures
        scan_step(c, m) < m,
        scan_step(c, m) % m == (c + 1) % m,
{
    if c + 1 >= m {
        assert(c + 1 == m);
        lemma_fundamental_div_mod_converse((c + 1) as int, m as int, 1, 0);
        lemma_small_mod(0, m);
    } else {
        lemma_small_mod(c + 1, m);
    }
}

/// After any number of barrier steps the counter is congruent to its start
/// plus the number of steps, modulo the mutator count. In particular a
/// completed collection, whose every mutator scanned its stack exactly once,
/// returns the counter to a value congruent to its pre-collection value.
pub proof fn lemma_scan_iter_mod(c: nat, m: nat, k: nat)
    requires
        m >= 1,
        c < m,
    ensures
        scan_iter(c, m, k) < m,
        scan_iter(c, m, k) % m == (c + k) % m,
    decreases k,
{
    if k == 0 {
        lemma_small_mod(c, m);
    } else {
        lemma_scan_iter_mod(c, m, (k - 1) as nat);
        let prev = scan_iter(c, m, (k - 1) as nat);
        lemma_scan_step_mod(prev, m);
        assert(scan_step(prev, m) % m == (prev + 1) % m);
        assert((prev + 1) % m == (c + k) % m) by {
            lemma_add_mod_noop_nat(prev, 1, m);
            lemma_add_mod_noop_nat(c, (k - 1) as nat, m);
            lemma_small_mod(prev % m, m);
            lemma_add_mod_noop_nat((c + k - 1) as nat, 1, m);
        }
    }
}

/// Adding then taking the remainder commutes with taking remainders first.
proof fn lemma_add_mod_noop_nat(x: nat, y: nat, m: nat)
    requires
        m >= 1,
    ensures
        (x % m + y) % m == (x + y) % m,
{
    vstd::arithmetic::div_mod::lemma_add_mod_noop((x % m) as int, y as int, m as int);
    vstd::arithmetic::div_mod::lemma_mod_twice(x as int, m as int);
    vstd::arithmetic::div_mod::lemma_add_mod_noop(x as int, y as int, m as int);
}

/// A completed collection scans each mutator's stack exactly once: after
/// one barrier step per mutator the counter stands exactly where it began.
pub proof fn lemma_counter_returns_after_collection(c: nat, m: nat)
    requires
        m >= 1,
        c < m,
    ensures
        scan_iter(c, m, m) == c,
{
    lemma_scan_iter_mod(c, m, m);
    lemma_small_mod(c, m);
    vstd::arithmetic::div_mod::lemma_mod_self_0(m as int);
    vstd::arithmetic::div_mod::lemma_add_mod_noop(c as int, m as int, m as int);
    lemma_small_mod(scan_iter(c, m, m), m);
}

/// Counting from zero, the barrier reaches the mutator count exactly on the
/// last scan: the transition to `GcProper` fires once, after the final
/// mutator's stack is scanned, and never before.
pub proof fn lemma_scan_barrier_fires_once(m: nat, j: nat)
    requires
        m >= 1,
        j < m,
    ensures
        scan_iter(0, m, j) == j,
        (scan_iter(0, m, j) + 1 >= m) <==> (j == m - 1),
    decreases j,
{
    if j > 0 {
        lemma_scan_barrier_fires_once(m, (j - 1) as nat);
    }
}

} // verus!
