//! A hazard-pointer safe-memory-reclamation engine, modelled over plain
//! address values and verified.
//!
//! Reader threads publish the address they are about to dereference in a
//! shared registry of hazard-pointer records; writers retire replaced objects
//! into a per-domain retired list; a scan pass frees every retired object
//! whose address no active record guards. This crate verifies the
//! state-machine logic of that protocol: record acquisition and reuse, the
//! double-check load, the retire pipeline, and the scan partition. Objects
//! are identified by nonzero `usize` addresses (0 stands for null); deleters
//! are carried as tags that the caller maps back to actions.

mod domain;
mod holder;
mod object;
mod record;
mod reuse;

pub use domain::DEFAULT_SCAN_THRESHOLD;
pub use domain::HazPtrLinkedlist;
pub use holder::HazPtrHolder;
pub use holder::lemma_double_check_convergence;
pub use holder::slot_changes;
pub use object::Deleter;
pub use object::HazPtrObject;
pub use object::HazPtrWrapper;
pub use record::AtomicSlot;
pub use record::HazPtr;
pub use record::RetiredEntry;
pub use reuse::GuardOp;
pub use reuse::acquire_step;
pub use reuse::count_active;
pub use reuse::guard_step;
pub use reuse::guard_trace;
pub use reuse::lemma_acquire_is_step;
pub use reuse::lemma_record_reuse_bound;
pub use reuse::lemma_registry_only_grows;
pub use reuse::lemma_release_is_step;
pub use reuse::peak_active;
pub use reuse::release_step;
