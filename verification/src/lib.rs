//! A generational copying garbage collector core: nursery + semispace plan,
//! per-worker copy contexts, an edge-processing engine with interior-pointer
//! support, a remembered-set processor, and the work-packet scheduler that
//! drives a collection from stop-the-world through closure to release.
//!
//! The heap, the spaces, the forwarding words and the side metadata are
//! modelled as explicit data so that every transition of a collection can be
//! stated and proved.

pub mod bump;
pub mod constants;
pub mod copy_context;
pub mod edges;
pub mod gencopy;
pub mod heap;
pub mod interior;
pub mod metadata;
pub mod mmtk;
pub mod plan;
pub mod scheduler;
pub mod table;
pub mod trace;
