use vstd::prelude::*;

use crate::domain::HazPtrLinkedlist;
use crate::record::AtomicSlot;
use crate::record::HazPtr;

verus! {

/// The reader-side handle: owns the use of one hazard-pointer record for the
/// duration of a protected read.
///
/// A holder starts without a record and lazily acquires one from the domain
/// on first use; `release` hands the record back (clears its guarded address,
/// then marks it inactive), which is the only path that returns a record to
/// the free pool. Protection of a loaded reference lasts exactly as long as
/// the holder keeps its record.
pub struct HazPtrHolder {
    /// Index of the acquired record in the domain's registry, if any.
    pub record: Option<usize>,
}

impl HazPtrHolder {
    /// The holder's record index, or -1 when it holds none.
    pub open spec fn idx(self) -> int {
        match self.record {
            Some(i) => i as int,
            None => -1,
        }
    }

    /// The holder's record, if any, names a live, active registry slot.
    pub open spec fn wf(self, list: HazPtrLinkedlist) -> bool {
        match self.record {
            Some(i) => i < list.hazptrs@.len() && list.hazptrs@[i as int].active,
            None => true,
        }
    }

    /// The holder's record is active and currently guards address `a`.
    pub open spec fn guards(self, list: HazPtrLinkedlist, a: usize) -> bool {
        match self.record {
            Some(i) => i < list.hazptrs@.len() && list.hazptrs@[i as int].active
                && list.hazptrs@[i as int].ptr == a,
            None => false,
        }
    }

    /// A holder that has not yet acquired a record.
    pub fn new() -> (h: Self)
        ensures
            h.record is None,
    {
        HazPtrHolder { record: None }
    }

    /// The holder's hazard-pointer record, acquiring one from `list` on
    /// first use and reusing the same record afterwards.
    pub fn hazptr(&mut self, list: &mut HazPtrLinkedlist) -> (idx: usize)
        requires
            old(self).wf(*old(list)),
        ensures
            final(self).record == Some(idx),
            final(self).wf(*final(list)),
            idx < final(list).hazptrs@.len(),
            final(list).hazptrs@[idx as int].active,
            old(self).record is Some ==> final(self).record == old(self).record && *final(list)
                == *old(list),
            old(self).record is None ==> HazPtrLinkedlist::acquire_rel(
                *old(list),
                *final(list),
                idx,
            ),
    {
        match self.record {
            Some(i) => i,
            None => {
                let i = list.acquire();
                self.record = Some(i);
                i
            },
        }
    }

    /// Protected read: the double-check load protocol.
    ///
    /// Reads the slot for a candidate address, publishes it in the holder's
    /// record, then re-reads the slot; only when both reads agree is the
    /// address handed out, now guarded until the holder releases its record.
    /// The re-read is what closes the race in which a writer swaps the slot
    /// and retires the old object after the first read but before the guard
    /// is visible to a scan: such a writer changes the slot, the check
    /// fails, and the protocol retries with the new candidate. Within this
    /// sequential model no writer can interleave with the call, so the check
    /// is proved to succeed on the first pass and `load` always returns:
    /// `Some` of the slot's address, or `None` when the slot is null.
    pub fn load(&mut self, list: &mut HazPtrLinkedlist, slot: &AtomicSlot) -> (r: Option<usize>)
        requires
            old(self).wf(*old(list)),
        ensures
            r == (if slot.value == 0 {
                None::<usize>
            } else {
                Some(slot.value)
            }),
            final(self).guards(*final(list), slot.value),
            final(self).wf(*final(list)),
            final(self).record is Some,
            old(self).record is Some ==> final(self).record == old(self).record,
            final(list).retired@ == old(list).retired@,
            final(list).scan_threshold == old(list).scan_threshold,
            old(list).hazptrs@.len() <= final(list).hazptrs@.len() <= old(list).hazptrs@.len()
                + 1,
            final(list).hazptrs@.len() > old(list).hazptrs@.len() ==> (forall|j: int|
                0 <= j < old(list).hazptrs@.len() ==> (#[trigger] old(list).hazptrs@[j]).active),
            forall|j: int|
                0 <= j < old(list).hazptrs@.len() && j != final(self).idx()
                    ==> final(list).hazptrs@[j] == #[trigger] old(list).hazptrs@[j],
    {
        let idx = self.hazptr(list);
        let a = slot.load();
        let h = &mut list.hazptrs[idx];
        h.guard(a);
        let b = slot.load();
        if a == b {
            if a == 0 {
                None
            } else {
                Some(a)
            }
        } else {
            // a == slot.value == b: unreachable without an interleaved writer.
            vstd::pervasive::unreached()
        }
    }

    /// End the protection scope: clear the record's guarded address, release
    /// the record back to the domain's free pool, and forget it.
    ///
    /// Any address obtained from `load` through this holder is no longer
    /// protected once this returns.
    pub fn release(&mut self, list: &mut HazPtrLinkedlist)
        requires
            old(self).wf(*old(list)),
        ensures
            final(self).record is None,
            old(self).record is Some ==> final(list).hazptrs@ == old(list).hazptrs@.update(
                old(self).idx(),
                HazPtr { ptr: 0, active: false },
            ),
            old(self).record is None ==> *final(list) == *old(list),
            final(list).retired@ == old(list).retired@,
            final(list).scan_threshold == old(list).scan_threshold,
    {
        match self.record {
            Some(i) => {
                let h = &mut list.hazptrs[i];
                h.guard(0);
                list.release(i);
                self.record = None;
            },
            None => {},
        }
    }
}

/// How many times a slot changed value across the successive reads the
/// double-check protocol made of it.
pub open spec fn slot_changes(reads: Seq<usize>) -> nat
    decreases reads.len(),
{
    if reads.len() <= 1 {
        0
    } else {
        (if reads[0] != reads[1] {
            1nat
        } else {
            0
        }) + slot_changes(reads.drop_first())
    }
}

/// Double-check convergence: the protocol's retry loop is bounded by the
/// writer's rate. Let `reads` be the values the slot showed to the
/// protocol's successive reads — attempt `t` reads its candidate at
/// position `2 * t` and its validating re-read at `2 * t + 1`, and retries
/// only when the two differ. Every failing attempt witnesses a slot change,
/// so under a writer that changes the slot at most `c` times during the
/// call, some attempt among the first `c + 1` passes its re-check and the
/// protocol returns.
pub proof fn lemma_double_check_convergence(reads: Seq<usize>, c: nat)
    requires
        reads.len() >= 2 * c + 2,
        slot_changes(reads) <= c,
    ensures
        exists|t: int| 0 <= t <= c && reads[2 * t] == #[trigger] reads[2 * t + 1],
    decreases c,
{
    if reads[0] == reads[1] {
        assert(reads[2 * 0int] == reads[2 * 0int + 1]);
    } else {
        assert(slot_changes(reads) == 1 + slot_changes(reads.drop_first()));
        assert(slot_changes(reads.drop_first()) >= slot_changes(reads.drop_first().drop_first()));
        let rest = reads.drop_first().drop_first();
        assert(slot_changes(rest) <= c - 1);
        lemma_double_check_convergence(rest, (c - 1) as nat);
        let t0 = choose|t: int| 0 <= t <= c - 1 && rest[2 * t] == #[trigger] rest[2 * t + 1];
        assert(rest[2 * t0] == reads[2 * (t0 + 1)]);
        assert(rest[2 * t0 + 1] == reads[2 * (t0 + 1) + 1]);
        assert(reads[2 * (t0 + 1)] == reads[2 * (t0 + 1) + 1]);
    }
}

impl Default for HazPtrHolder {
    /// A holder that has not yet acquired a record.
    fn default() -> (h: Self)
        ensures
            h.record is None,
    {
        HazPtrHolder::new()
    }
}

} // verus!
