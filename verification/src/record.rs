use vstd::prelude::*;

verus! {

/// One reusable hazard-pointer record: the unit of protection.
///
/// A record is created once, when a reader needs one and none is free, and is
/// never destroyed afterwards; it is only marked inactive and reused. It
/// protects an address `a` exactly while `active` is true and `ptr == a`.
/// Address 0 stands for null: no object is ever published at 0.
pub struct HazPtr {
    /// The address this record currently guards; 0 when it guards nothing.
    pub ptr: usize,
    /// Whether some holder currently owns this record.
    pub active: bool,
}

impl HazPtr {
    /// Publish `ptr` as the address this record protects, leaving the
    /// active flag as it was.
    pub fn guard(&mut self, ptr: usize)
        ensures
            final(self).ptr == ptr,
            final(self).active == old(self).active,
    {
        self.ptr = ptr;
    }
}

/// An object that was logically removed but not yet freed: its address,
/// tagged with the deletion action to run once no record guards it.
///
/// The deleter is carried as a tag chosen by the caller of `retire`, so that
/// one domain can reclaim heterogeneous object types through one uniform
/// retired list; the caller maps tags back to concrete destructors.
#[derive(Clone, Copy, PartialEq, Eq, Structural, Debug)]
pub struct RetiredEntry {
    /// The retired object's address; never 0.
    pub address: usize,
    /// Tag of the deletion action bound to this object at retire time.
    pub deleter: u64,
}

/// A shared pointer slot updated atomically by writers, modelled as the
/// single address it currently holds (0 for null).
///
/// Within this sequential model each call runs without interleaving, so a
/// slot read during a call is the slot's one current value; swapping the
/// slot and retiring the old address models a writer's replacement step.
pub struct AtomicSlot {
    /// The address the slot currently points to; 0 for null.
    pub value: usize,
}

impl AtomicSlot {
    /// A slot initially pointing at `value`.
    pub fn new(value: usize) -> (s: Self)
        ensures
            s.value == value,
    {
        AtomicSlot { value }
    }

    /// Read the slot's current address.
    pub fn load(&self) -> (r: usize)
        ensures
            r == self.value,
    {
        self.value
    }

    /// Point the slot at `value`.
    pub fn store(&mut self, value: usize)
        ensures
            final(self).value == value,
    {
        self.value = value;
    }

    /// Point the slot at `value` and hand back the address it held before:
    /// the writer's replacement step.
    pub fn swap(&mut self, value: usize) -> (r: usize)
        ensures
            final(self).value == value,
            r == old(self).value,
    {
        let prev = self.value;
        self.value = value;
        prev
    }
}

} // verus!
