use vstd::prelude::*;

use crate::record::HazPtr;
use crate::record::RetiredEntry;

verus! {

/// How many retired entries accumulate before `needs_scan` recommends a
/// scan pass, unless the domain was configured otherwise.
pub const DEFAULT_SCAN_THRESHOLD: usize = 64;

/// One reclamation domain: the shared registry of hazard-pointer records and
/// the list of retired-but-not-yet-freed objects, with the scan-batching
/// threshold.
///
/// The registry only grows: records are reused through their active flag and
/// never unlinked, so its length is bounded by the peak number of records
/// ever held at once. Objects retired in one domain are checked only against
/// that domain's active records.
pub struct HazPtrLinkedlist {
    /// The registry of hazard-pointer records, in order of creation.
    pub hazptrs: Vec<HazPtr>,
    /// Objects logically removed but not yet freed.
    pub retired: Vec<RetiredEntry>,
    /// Retired-entry count at which `needs_scan` recommends scanning.
    pub scan_threshold: usize,
}

impl HazPtrLinkedlist {
    /// An address is protected when some active record guards it.
    pub open spec fn protects(self, a: usize) -> bool {
        exists|j: int|
            0 <= j < self.hazptrs@.len() && (#[trigger] self.hazptrs@[j]).active
                && self.hazptrs@[j].ptr == a
    }

    /// The registry's active flags, in registry order.
    pub open spec fn flags(self) -> Seq<bool> {
        self.hazptrs@.map_values(|h: HazPtr| h.active)
    }

    /// What `acquire` does: when some record is inactive, the first such
    /// record is claimed in place; otherwise a fresh active record is
    /// appended. The retired list and threshold are untouched.
    pub open spec fn acquire_rel(pre: Self, post: Self, idx: usize) -> bool {
        &&& post.retired@ == pre.retired@
        &&& post.scan_threshold == pre.scan_threshold
        &&& idx < post.hazptrs@.len()
        &&& post.hazptrs@[idx as int].active
        &&& if exists|j: int| 0 <= j < pre.hazptrs@.len() && !(#[trigger] pre.hazptrs@[j]).active {
            &&& idx < pre.hazptrs@.len()
            &&& !pre.hazptrs@[idx as int].active
            &&& (forall|j: int| 0 <= j < idx ==> (#[trigger] pre.hazptrs@[j]).active)
            &&& post.hazptrs@ == pre.hazptrs@.update(
                idx as int,
                HazPtr { ptr: pre.hazptrs@[idx as int].ptr, active: true },
            )
        } else {
            &&& idx == pre.hazptrs@.len()
            &&& post.hazptrs@ == pre.hazptrs@.push(HazPtr { ptr: 0, active: true })
        }
    }

    /// What `scan` does: the retired list is partitioned against the
    /// records that were active when the scan ran. Nothing protected is
    /// freed, nothing unprotected is kept, and every entry goes to exactly
    /// one side (stated over multisets: the spec promises no order among
    /// retired entries).
    pub open spec fn scan_rel(pre: Self, post: Self, freed: Seq<RetiredEntry>) -> bool {
        &&& post.hazptrs@ == pre.hazptrs@
        &&& post.scan_threshold == pre.scan_threshold
        &&& freed.to_multiset().add(post.retired@.to_multiset()) == pre.retired@.to_multiset()
        &&& pre.retired@.len() == post.retired@.len() + freed.len()
        &&& (forall|k: int| 0 <= k < freed.len() ==> !pre.protects((#[trigger] freed[k]).address))
        &&& (forall|k: int|
            0 <= k < post.retired@.len() ==> pre.protects((#[trigger] post.retired@[k]).address))
    }

    /// A fresh, empty domain with the default scan threshold.
    pub fn new() -> (d: Self)
        ensures
            d.hazptrs@.len() == 0,
            d.retired@.len() == 0,
            d.scan_threshold == DEFAULT_SCAN_THRESHOLD,
    {
        HazPtrLinkedlist { hazptrs: Vec::new(), retired: Vec::new(), scan_threshold: DEFAULT_SCAN_THRESHOLD }
    }

    /// Configure the retired-entry count at which `needs_scan` recommends a
    /// scan: scanning every retire, every Kth retire, or only on explicit
    /// request is the caller's batching policy.
    pub fn set_scan_threshold(&mut self, threshold: usize)
        ensures
            final(self).scan_threshold == threshold,
            final(self).hazptrs@ == old(self).hazptrs@,
            final(self).retired@ == old(self).retired@,
    {
        self.scan_threshold = threshold;
    }

    /// How many retired entries are currently awaiting reclamation.
    pub fn retired_count(&self) -> (n: usize)
        ensures
            n == self.retired@.len(),
    {
        self.retired.len()
    }

    /// Whether enough entries have accumulated that a scan pass is due.
    pub fn needs_scan(&self) -> (r: bool)
        ensures
            r == (self.retired@.len() >= self.scan_threshold),
    {
        self.retired.len() >= self.scan_threshold
    }

    /// Find a free hazard-pointer record and claim it, or grow the registry.
    ///
    /// Walks the registry for the first inactive record and claims it by
    /// flipping its active flag; when every record is taken, a fresh active
    /// record is appended (published) instead. Acquisition never fails, and
    /// the registry grows only when every existing record is in use.
    pub fn acquire(&mut self) -> (idx: usize)
        ensures
            Self::acquire_rel(*old(self), *final(self), idx),
    {
        let n = self.hazptrs.len();
        let mut i: usize = 0;
        while i < n
            invariant
                n == self.hazptrs@.len(),
                i <= n,
                *self == *old(self),
                forall|j: int| 0 <= j < i ==> (#[trigger] self.hazptrs@[j]).active,
            decreases n - i,
        {
            if !self.hazptrs[i].active {
                let h = &mut self.hazptrs[i];
                h.active = true;
                return i;
            }
            i += 1;
        }
        self.hazptrs.push(HazPtr { ptr: 0, active: true });
        n
    }

    /// Return the record at `idx` to the free pool by clearing its active
    /// flag. The record is not unlinked or destroyed — only made reusable.
    pub fn release(&mut self, idx: usize)
        requires
            idx < old(self).hazptrs@.len(),
        ensures
            final(self).hazptrs@ == old(self).hazptrs@.update(
                idx as int,
                HazPtr { ptr: old(self).hazptrs@[idx as int].ptr, active: false },
            ),
            final(self).retired@ == old(self).retired@,
            final(self).scan_threshold == old(self).scan_threshold,
    {
        let h = &mut self.hazptrs[idx];
        h.active = false;
    }

    /// Append an object to the retired list: it is logically removed and
    /// will be freed by a later scan once no active record guards it.
    ///
    /// The caller asserts that the object at `address` is no longer
    /// reachable through any shared slot, so only in-flight guards may still
    /// reference it; an object always has a nonzero address (0 is null).
    pub fn retire(&mut self, address: usize, deleter: u64)
        requires
            address != 0,
        ensures
            final(self).retired@ == old(self).retired@.push(
                RetiredEntry { address, deleter },
            ),
            final(self).hazptrs@ == old(self).hazptrs@,
            final(self).scan_threshold == old(self).scan_threshold,
    {
        self.retired.push(RetiredEntry { address, deleter });
    }

    /// Reclamation pass: free every retired object that no active record
    /// guards, and keep the rest for a later scan.
    ///
    /// First snapshots every address guarded by an active record, then walks
    /// the retired list once, re-queuing each entry whose address is in the
    /// snapshot and handing back the others. The returned entries are the
    /// freed ones: the caller runs each entry's deleter exactly once.
    pub fn scan(&mut self) -> (freed: Vec<RetiredEntry>)
        ensures
            Self::scan_rel(*old(self), *final(self), freed@),
    {
        proof {
            broadcast use vstd::seq_lib::group_to_multiset_ensures;
            broadcast use vstd::multiset::group_multiset_axioms;
        }
        let ghost pre: HazPtrLinkedlist = *self;
        // Snapshot of every address currently guarded by an active record.
        let mut snap: Vec<usize> = Vec::new();
        let n = self.hazptrs.len();
        let mut i: usize = 0;
        while i < n
            invariant
                *self == pre,
                n == self.hazptrs@.len(),
                i <= n,
                forall|k: int| 0 <= k < snap@.len() ==> pre.protects(#[trigger] snap@[k]),
                forall|j: int|
                    0 <= j < i && (#[trigger] self.hazptrs@[j]).active ==> snap@.contains(
                        self.hazptrs@[j].ptr,
                    ),
            decreases n - i,
        {
            if self.hazptrs[i].active {
                let ghost oldsnap = snap@;
                snap.push(self.hazptrs[i].ptr);
                proof {
                    assert(snap@ == oldsnap.push(pre.hazptrs@[i as int].ptr));
                    assert forall|k: int| 0 <= k < snap@.len() implies pre.protects(
                        #[trigger] snap@[k],
                    ) by {
                        if k < oldsnap.len() {
                            assert(snap@[k] == oldsnap[k]);
                        } else {
                            assert(snap@[k] == pre.hazptrs@[i as int].ptr);
                            assert((#[trigger] pre.hazptrs@[i as int]).active
                                && pre.hazptrs@[i as int].ptr == snap@[k]);
                        }
                    }
                    assert forall|j: int|
                        0 <= j < i + 1 && (#[trigger] self.hazptrs@[j]).active implies snap@
                        .contains(self.hazptrs@[j].ptr) by {
                        if j < i {
                            let m = choose|m: int|
                                0 <= m < oldsnap.len() && oldsnap[m] == self.hazptrs@[j].ptr;
                            assert(snap@[m] == self.hazptrs@[j].ptr);
                        } else {
                            assert(snap@[oldsnap.len() as int] == self.hazptrs@[j].ptr);
                        }
                    }
                }
            }
            i += 1;
        }
        proof {
            assert forall|a: usize| snap@.contains(a) implies pre.protects(a) by {
                let k = choose|k: int| 0 <= k < snap@.len() && snap@[k] == a;
                assert(pre.protects(snap@[k]));
            }
            assert forall|a: usize| pre.protects(a) implies snap@.contains(a) by {
                let j = choose|j: int|
                    0 <= j < pre.hazptrs@.len() && (#[trigger] pre.hazptrs@[j]).active
                        && pre.hazptrs@[j].ptr == a;
            }
        }
        // Partition the retired list against the snapshot.
        let mut kept: Vec<RetiredEntry> = Vec::new();
        let mut freed: Vec<RetiredEntry> = Vec::new();
        let m = self.retired.len();
        let mut k: usize = 0;
        while k < m
            invariant
                *self == pre,
                m == self.retired@.len(),
                k <= m,
                forall|a: usize| #[trigger] snap@.contains(a) <==> pre.protects(a),
                freed@.to_multiset().add(kept@.to_multiset()) == self.retired@.take(
                    k as int,
                ).to_multiset(),
                freed@.len() + kept@.len() == k,
                forall|j: int|
                    0 <= j < freed@.len() ==> !pre.protects((#[trigger] freed@[j]).address),
                forall|j: int| 0 <= j < kept@.len() ==> pre.protects((#[trigger] kept@[j]).address),
            decreases m - k,
        {
            let e = self.retired[k];
            proof {
                broadcast use vstd::seq_lib::group_to_multiset_ensures;
                broadcast use vstd::multiset::group_multiset_axioms;

                assert(self.retired@.take(k + 1) =~= self.retired@.take(k as int).push(e));
            }
            if contains_addr(&snap, e.address) {
                kept.push(e);
                proof {
                    assert(freed@.to_multiset().add(kept@.to_multiset()) =~= self.retired@.take(
                        k + 1,
                    ).to_multiset());
                }
            } else {
                freed.push(e);
                proof {
                    assert(freed@.to_multiset().add(kept@.to_multiset()) =~= self.retired@.take(
                        k + 1,
                    ).to_multiset());
                }
            }
            k += 1;
        }
        proof {
            assert(self.retired@.take(m as int) =~= self.retired@);
        }
        self.retired = kept;
        freed
    }

    /// No premature reclamation: an object whose address some active record
    /// still guards when a scan runs is not freed by that scan — every
    /// retired entry at that address survives into the next retired list,
    /// as often as it was there before.
    pub proof fn lemma_no_premature_reclamation(
        pre: Self,
        post: Self,
        freed: Seq<RetiredEntry>,
        e: RetiredEntry,
    )
        requires
            Self::scan_rel(pre, post, freed),
            pre.protects(e.address),
        ensures
            !freed.contains(e),
            post.retired@.to_multiset().count(e) == pre.retired@.to_multiset().count(e),
    {
        broadcast use vstd::seq_lib::group_to_multiset_ensures;
        broadcast use vstd::multiset::group_multiset_axioms;

        assert(!freed.contains(e)) by {
            if freed.contains(e) {
                let k = choose|k: int| 0 <= k < freed.len() && freed[k] == e;
                assert(!pre.protects(freed[k].address));
            }
        }
        assert(freed.to_multiset().count(e) == 0);
    }

    /// Eventual reclamation: one scan suffices for an unguarded object — a
    /// scan that runs while no active record guards address `a` frees every
    /// retired entry at `a` and leaves none of them in the retired list.
    pub proof fn lemma_eventual_reclamation(
        pre: Self,
        post: Self,
        freed: Seq<RetiredEntry>,
        a: usize,
    )
        requires
            Self::scan_rel(pre, post, freed),
            !pre.protects(a),
        ensures
            forall|k: int|
                0 <= k < post.retired@.len() ==> (#[trigger] post.retired@[k]).address != a,
            forall|e: RetiredEntry|
                e.address == a ==> #[trigger] freed.to_multiset().count(e)
                    == pre.retired@.to_multiset().count(e),
    {
        broadcast use vstd::seq_lib::group_to_multiset_ensures;
        broadcast use vstd::multiset::group_multiset_axioms;

        assert forall|e: RetiredEntry| e.address == a implies #[trigger] freed.to_multiset().count(
            e,
        ) == pre.retired@.to_multiset().count(e) by {
            if post.retired@.to_multiset().count(e) > 0 {
                let k = choose|k: int| 0 <= k < post.retired@.len() && post.retired@[k] == e;
                assert(pre.protects(post.retired@[k].address));
            }
            assert(post.retired@.to_multiset().count(e) == 0);
        }
    }

    /// No double free: across two successive scans, an entry is freed at
    /// most as often as it stood in the retired list to begin with — what
    /// the first scan frees is gone from the list the second scan walks.
    pub proof fn lemma_no_double_free(
        s0: Self,
        s1: Self,
        s2: Self,
        freed1: Seq<RetiredEntry>,
        freed2: Seq<RetiredEntry>,
        e: RetiredEntry,
    )
        requires
            Self::scan_rel(s0, s1, freed1),
            Self::scan_rel(s1, s2, freed2),
        ensures
            freed1.to_multiset().count(e) + freed2.to_multiset().count(e)
                <= s0.retired@.to_multiset().count(e),
    {
        broadcast use vstd::multiset::group_multiset_axioms;

        assert(freed1.to_multiset().count(e) + s1.retired@.to_multiset().count(e)
            == s0.retired@.to_multiset().count(e));
        assert(freed2.to_multiset().count(e) + s2.retired@.to_multiset().count(e)
            == s1.retired@.to_multiset().count(e));
    }

    /// Administrative drain: free every retired entry unconditionally,
    /// ignoring guard state.
    ///
    /// For shutdown and tests only — the caller asserts that no concurrent
    /// reader remains, so no guard can still reference a retired object.
    pub fn reclaim_all(&mut self) -> (freed: Vec<RetiredEntry>)
        ensures
            freed@ == old(self).retired@,
            final(self).retired@.len() == 0,
            final(self).hazptrs@ == old(self).hazptrs@,
            final(self).scan_threshold == old(self).scan_threshold,
    {
        let mut drained: Vec<RetiredEntry> = Vec::new();
        core::mem::swap(&mut drained, &mut self.retired);
        drained
    }
}

/// Linear search of the snapshot for one address.
fn contains_addr(snap: &Vec<usize>, a: usize) -> (r: bool)
    ensures
        r == snap@.contains(a),
{
    let n = snap.len();
    let mut i: usize = 0;
    while i < n
        invariant
            n == snap@.len(),
            i <= n,
            forall|k: int| 0 <= k < i ==> snap@[k] != a,
        decreases n - i,
    {
        if snap[i] == a {
            return true;
        }
        i += 1;
    }
    false
}

} // verus!
