//! The modelled heap a collection works over: slot memory, object sizes, the
//! per-object forwarding word, and the interior-pointer side metadata.

use vstd::prelude::*;

verus! {

use crate::constants::{Address, ObjectReference, BYTES_IN_WORD, word_aligned};
use crate::table::Table;
use crate::metadata::MetaSpace;

/// The state held in an object's forwarding word. `BeingForwarded` is the
/// transient claim installed while the winner of a forwarding race copies.
#[derive(Clone, Copy, PartialEq, Eq, Structural, Debug)]
pub enum ForwardingState {
    NotForwarded,
    BeingForwarded,
    Forwarded(ObjectReference),
}

/// Slot memory, object sizes, forwarding words and side metadata.
pub struct Heap {
    pub mem: Table<usize>,
    pub fwd: Table<ForwardingState>,
    pub sizes: Table<usize>,
    pub marks: Table<bool>,
    pub meta: MetaSpace,
}

impl Heap {
    /// The forwarding state of an object; an object with no entry is
    /// unforwarded.
    pub open spec fn fwd_state(self, o: ObjectReference) -> ForwardingState {
        if self.fwd@.dom().contains(o) {
            self.fwd@[o]
        } else {
            ForwardingState::NotForwarded
        }
    }

    /// The value a slot holds.
    pub open spec fn slot(self, a: Address) -> usize {
        self.mem@[a]
    }

    /// Whether a slot exists.
    pub open spec fn has_slot(self, a: Address) -> bool {
        self.mem@.dom().contains(a)
    }

    pub fn new() -> (r: Heap)
        ensures
            r.mem@ == Map::<Address, usize>::empty(),
            r.fwd@ == Map::<Address, ForwardingState>::empty(),
            r.sizes@ == Map::<Address, usize>::empty(),
            r.marks@ == Map::<Address, bool>::empty(),
            r.meta.wf(),
            r.meta.chunks() == Set::<Address>::empty(),
            r.meta.bits() == Set::<Address>::empty(),
    {
        Heap {
            mem: Table::new(),
            fwd: Table::new(),
            sizes: Table::new(),
            marks: Table::new(),
            meta: MetaSpace::new(),
        }
    }

    /// Reads the reference a slot holds.
    pub fn load_slot(&self, a: Address) -> (r: ObjectReference)
        requires
            self.has_slot(a),
        ensures
            r == self.slot(a),
    {
        match self.mem.load(a) {
            Some(v) => v,
            None => 0,
        }
    }

    /// Stores a reference into a slot.
    pub fn store_slot(&mut self, a: Address, v: ObjectReference)
        ensures
            final(self).mem@ == old(self).mem@.insert(a, v),
            final(self).fwd@ == old(self).fwd@,
            final(self).sizes@ == old(self).sizes@,
            final(self).marks@ == old(self).marks@,
            final(self).meta == old(self).meta,
    {
        self.mem.store(a, v);
    }

    /// Reads an object's forwarding word.
    pub fn forwarding_state(&self, o: ObjectReference) -> (r: ForwardingState)
        ensures
            r == self.fwd_state(o),
    {
        match self.fwd.load(o) {
            Some(s) => s,
            None => ForwardingState::NotForwarded,
        }
    }

    /// The atomic claim on an object's forwarding word: succeeds exactly when
    /// the object is unforwarded, leaving it marked as being forwarded. A
    /// loser observes the claim or the installed pointer and does not copy.
    pub fn attempt_to_forward(&mut self, o: ObjectReference) -> (won: bool)
        ensures
            won == (old(self).fwd_state(o) == ForwardingState::NotForwarded),
            won ==> final(self).fwd@ == old(self).fwd@.insert(o, ForwardingState::BeingForwarded),
            !won ==> *final(self) == *old(self),
            final(self).mem@ == old(self).mem@,
            final(self).sizes@ == old(self).sizes@,
            final(self).marks@ == old(self).marks@,
            final(self).meta == old(self).meta,
    {
        let s = self.forwarding_state(o);
        match s {
            ForwardingState::NotForwarded => {
                self.fwd.store(o, ForwardingState::BeingForwarded);
                true
            },
            _ => false,
        }
    }

    /// Publishes the copy's address in the original's forwarding word.
    pub fn install_forwarding_pointer(&mut self, o: ObjectReference, new_o: ObjectReference)
        ensures
            final(self).fwd@ == old(self).fwd@.insert(o, ForwardingState::Forwarded(new_o)),
            final(self).mem@ == old(self).mem@,
            final(self).sizes@ == old(self).sizes@,
            final(self).marks@ == old(self).marks@,
            final(self).meta == old(self).meta,
    {
        self.fwd.store(o, ForwardingState::Forwarded(new_o));
    }

    /// Clears the forwarding bits in an object's header, leaving it observed
    /// as unforwarded by subsequent traces.
    pub fn clear_forwarding_bits(&mut self, o: ObjectReference)
        ensures
            final(self).fwd@ == old(self).fwd@.insert(o, ForwardingState::NotForwarded),
            final(self).mem@ == old(self).mem@,
            final(self).sizes@ == old(self).sizes@,
            final(self).marks@ == old(self).marks@,
            final(self).meta == old(self).meta,
    {
        self.fwd.store(o, ForwardingState::NotForwarded);
    }

    /// Records the size of a (new) object.
    pub fn set_object_size(&mut self, o: ObjectReference, bytes: usize)
        ensures
            final(self).sizes@ == old(self).sizes@.insert(o, bytes),
            final(self).mem@ == old(self).mem@,
            final(self).fwd@ == old(self).fwd@,
            final(self).marks@ == old(self).marks@,
            final(self).meta == old(self).meta,
    {
        self.sizes.store(o, bytes);
    }

    /// The byte size recorded for an object.
    pub fn object_size(&self, o: ObjectReference) -> (r: usize)
        requires
            self.sizes@.dom().contains(o),
        ensures
            r == self.sizes@[o],
    {
        match self.sizes.load(o) {
            Some(v) => v,
            None => 0,
        }
    }

    /// Whether a non-copying trace has already marked this object.
    pub open spec fn spec_marked(self, o: ObjectReference) -> bool {
        self.marks@.dom().contains(o) && self.marks@[o]
    }

    /// Reads an object's mark state.
    pub fn is_marked(&self, o: ObjectReference) -> (r: bool)
        ensures
            r == self.spec_marked(o),
    {
        match self.marks.load(o) {
            Some(m) => m,
            None => false,
        }
    }

    /// Marks an object as visited by a non-copying trace.
    pub fn set_mark(&mut self, o: ObjectReference)
        ensures
            final(self).marks@ == old(self).marks@.insert(o, true),
            final(self).mem@ == old(self).mem@,
            final(self).fwd@ == old(self).fwd@,
            final(self).sizes@ == old(self).sizes@,
            final(self).meta == old(self).meta,
    {
        self.marks.store(o, true);
    }

    /// Drops the per-collection metadata at release: the forwarding words of
    /// the vacated spaces vanish with their pages, and the mark state of a
    /// non-copying trace is good for one collection only.
    pub fn reset_collection_metadata(&mut self)
        ensures
            final(self).fwd@ == Map::<Address, ForwardingState>::empty(),
            final(self).marks@ == Map::<Address, bool>::empty(),
            final(self).mem@ == old(self).mem@,
            final(self).sizes@ == old(self).sizes@,
            final(self).meta == old(self).meta,
    {
        self.fwd = Table::new();
        self.marks = Table::new();
    }

    /// Copies `bytes` bytes of an object word by word from `from` to `to`.
    /// Afterwards every word of the target range holds the corresponding word
    /// of the source; no other slot changes.
    pub fn copy_object(&mut self, from: Address, to: Address, bytes: usize)
        requires
            word_aligned(from),
            word_aligned(to),
            word_aligned(bytes),
            from + bytes <= usize::MAX,
            to + bytes <= usize::MAX,
            from + bytes <= to || to + bytes <= from,
            forall|o: usize|
                0 <= o < bytes && word_aligned(o) ==> old(self).has_slot((from + o) as usize),
        ensures
            forall|o: usize|
                0 <= o < bytes && word_aligned(o) ==> final(self).has_slot((to + o) as usize)
                    && final(self).slot((to + o) as usize) == old(self).slot((from + o) as usize),
            forall|a: Address|
                !(to <= a < to + bytes) ==> (final(self).has_slot(a) == old(self).has_slot(a))
                    && (old(self).has_slot(a) ==> final(self).slot(a) == old(self).slot(a)),
            forall|a: Address| old(self).has_slot(a) ==> final(self).has_slot(a),
            final(self).fwd@ == old(self).fwd@,
            final(self).sizes@ == old(self).sizes@,
            final(self).marks@ == old(self).marks@,
            final(self).meta == old(self).meta,
    {
        let mut off: usize = 0;
        while off < bytes
            invariant
                word_aligned(off),
                0 <= off <= bytes,
                word_aligned(from),
                word_aligned(to),
                word_aligned(bytes),
                from + bytes <= usize::MAX,
                to + bytes <= usize::MAX,
                from + bytes <= to || to + bytes <= from,
                forall|o: usize|
                    0 <= o < bytes && word_aligned(o) ==> old(self).has_slot((from + o) as usize),
                forall|o: usize|
                    0 <= o < off && word_aligned(o) ==> self.has_slot((to + o) as usize)
                        && self.slot((to + o) as usize) == old(self).slot((from + o) as usize),
                forall|a: Address|
                    !(to <= a < to + bytes) ==> (self.has_slot(a) == old(self).has_slot(a)) && (
                    old(self).has_slot(a) ==> self.slot(a) == old(self).slot(a)),
                forall|a: Address| old(self).has_slot(a) ==> self.has_slot(a),
                forall|o: usize|
                    0 <= o < bytes && word_aligned(o) ==> self.has_slot((from + o) as usize)
                        && self.slot((from + o) as usize) == old(self).slot((from + o) as usize),
                self.fwd@ == old(self).fwd@,
                self.sizes@ == old(self).sizes@,
                self.marks@ == old(self).marks@,
                self.meta == old(self).meta,
            decreases bytes - off,
        {
            let v = self.load_slot(from + off);
            self.store_slot(to + off, v);
            proof {
                crate::constants::lemma_word_aligned_add(off, BYTES_IN_WORD);
            }
            off = off + BYTES_IN_WORD;
        }
    }
}

} // verus!
