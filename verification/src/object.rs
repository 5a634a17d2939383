use vstd::prelude::*;

use crate::domain::HazPtrLinkedlist;
use crate::record::RetiredEntry;

verus! {

/// A pluggable deletion action: the type-specific destructor that a scan
/// pass runs on each object proven unreachable.
///
/// The engine binds a deleter to each retired entry by tag and hands the
/// freed entries back from `scan`; implementors of this trait give those
/// tags an action. Each entry's deleter must be invoked exactly once, on
/// the scanning caller's side.
pub trait Deleter {
    /// Reclaim the object at `address`.
    fn delete(address: usize);
}

/// An object managed by hazard-pointer reclamation.
///
/// In this model an object is known by the nonzero address under which it
/// is published to atomic slots; 0 means the object was never published, so
/// no reader can hold a guard on it and there is nothing to retire.
pub trait HazPtrObject {
    /// The address under which the object is published, or 0.
    spec fn spec_address(&self) -> usize;

    /// The address under which the object is published, or 0.
    fn address(&self) -> (a: usize)
        ensures
            a == self.spec_address(),
    ;

    /// Retire the object into `list`: the caller asserts that no shared
    /// slot still points at it, so only in-flight guards may reference it.
    /// An object that was never published is not retired.
    fn retire(&self, list: &mut HazPtrLinkedlist, deleter: u64)
        ensures
            final(list).hazptrs@ == old(list).hazptrs@,
            final(list).scan_threshold == old(list).scan_threshold,
            self.spec_address() != 0 ==> final(list).retired@ == old(list).retired@.push(
                RetiredEntry { address: self.spec_address(), deleter },
            ),
            self.spec_address() == 0 ==> final(list).retired@ == old(list).retired@,
    {
        let a = self.address();
        if a != 0 {
            list.retire(a, deleter);
        }
    }
}

/// Wraps a caller's value for management by the shared default domain.
///
/// The wrapper pairs the value with the address under which it is
/// published; a wrapper made by `with_default_linkedlist` is not yet
/// published (address 0) until `publish_at` names its address.
pub struct HazPtrWrapper<T> {
    /// The wrapped value.
    pub inner: T,
    /// The nonzero address under which the value is published, or 0.
    pub address: usize,
}

impl<T> HazPtrWrapper<T> {
    /// Wrap `t` for the default domain, not yet published anywhere.
    pub fn with_default_linkedlist(t: T) -> (w: Self)
        ensures
            w.inner == t,
            w.address == 0,
    {
        HazPtrWrapper { inner: t, address: 0 }
    }

    /// Wrap `t` as published under `address`.
    pub fn publish_at(t: T, address: usize) -> (w: Self)
        ensures
            w.inner == t,
            w.address == address,
    {
        HazPtrWrapper { inner: t, address }
    }

    /// The wrapped value.
    pub fn inner(&self) -> (r: &T)
        ensures
            *r == self.inner,
    {
        &self.inner
    }

    /// The wrapped value, for in-place update; the published address stays.
    pub fn inner_mut(&mut self) -> (r: &mut T)
        ensures
            *r == old(self).inner,
            final(self).inner == *final(r),
            final(self).address == old(self).address,
    {
        &mut self.inner
    }
}

impl<T> HazPtrObject for HazPtrWrapper<T> {
    open spec fn spec_address(&self) -> usize {
        self.address
    }

    fn address(&self) -> (a: usize) {
        self.address
    }
}

} // verus!
