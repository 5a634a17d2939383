use vstd::prelude::*;

use crate::domain::HazPtrLinkedlist;

verus! {

/// One guard-lifecycle event against a domain's registry, seen at the level
/// of the registry's active flags: a reader claiming a record or handing one
/// back. Used only in proofs, to speak about whole histories of guard
/// traffic.
pub enum GuardOp {
    /// A record was claimed; the payload is the index claimed or created.
    Acquire(int),
    /// The record at the given index was made reusable.
    Release(int),
}

/// What claiming a record does to the registry's active flags: while any
/// record is free, some free record is claimed in place; only when every
/// record is taken does the registry grow by one active record. `acquire`
/// ensures this of its effect (see `lemma_acquire_is_step`).
pub open spec fn acquire_step(pre: Seq<bool>, idx: int, post: Seq<bool>) -> bool {
    if exists|j: int| 0 <= j < pre.len() && !(#[trigger] pre[j]) {
        &&& 0 <= idx < pre.len()
        &&& !pre[idx]
        &&& post == pre.update(idx, true)
    } else {
        &&& idx == pre.len()
        &&& post == pre.push(true)
    }
}

/// What releasing the record at `idx` does to the registry's active flags.
pub open spec fn release_step(pre: Seq<bool>, idx: int, post: Seq<bool>) -> bool {
    &&& 0 <= idx < pre.len()
    &&& post == pre.update(idx, false)
}

/// One step of guard traffic.
pub open spec fn guard_step(pre: Seq<bool>, op: GuardOp, post: Seq<bool>) -> bool {
    match op {
        GuardOp::Acquire(idx) => acquire_step(pre, idx, post),
        GuardOp::Release(idx) => release_step(pre, idx, post),
    }
}

/// A history of guard traffic: `states` are the successive registry flag
/// states, each consecutive pair related by the matching op.
pub open spec fn guard_trace(states: Seq<Seq<bool>>, ops: Seq<GuardOp>) -> bool {
    &&& states.len() == ops.len() + 1
    &&& forall|k: int|
        0 <= k < ops.len() ==> guard_step(states[k], #[trigger] ops[k], states[k + 1])
}

/// How many records are active (held by some guard) in a flag state.
pub open spec fn count_active(fl: Seq<bool>) -> nat
    decreases fl.len(),
{
    if fl.len() == 0 {
        0
    } else {
        count_active(fl.drop_last()) + if fl.last() {
            1nat
        } else {
            0
        }
    }
}

/// The largest number of simultaneously active records anywhere in a
/// history: the peak concurrent guard count.
pub open spec fn peak_active(states: Seq<Seq<bool>>) -> nat
    decreases states.len(),
{
    if states.len() == 0 {
        0
    } else {
        let rest = peak_active(states.drop_last());
        let here = count_active(states.last());
        if here >= rest {
            here
        } else {
            rest
        }
    }
}

proof fn lemma_count_active_all_active(fl: Seq<bool>)
    requires
        forall|j: int| 0 <= j < fl.len() ==> fl[j],
    ensures
        count_active(fl) == fl.len(),
    decreases fl.len(),
{
    if fl.len() > 0 {
        lemma_count_active_all_active(fl.drop_last());
    }
}

proof fn lemma_count_active_push(fl: Seq<bool>, b: bool)
    ensures
        count_active(fl.push(b)) == count_active(fl) + if b {
            1nat
        } else {
            0
        },
{
    assert(fl.push(b).drop_last() =~= fl);
    assert(fl.push(b).last() == b);
}

/// The registry never shrinks along guard traffic: records are only claimed,
/// created or made reusable, never destroyed. The registry's final size is
/// therefore the total number of records ever created.
pub proof fn lemma_registry_only_grows(states: Seq<Seq<bool>>, ops: Seq<GuardOp>, k1: int, k2: int)
    requires
        guard_trace(states, ops),
        0 <= k1 <= k2 < states.len(),
    ensures
        states[k1].len() <= states[k2].len(),
    decreases k2 - k1,
{
    if k1 < k2 {
        lemma_registry_only_grows(states, ops, k1, k2 - 1);
        assert(guard_step(states[k2 - 1], ops[k2 - 1], states[k2]));
    }
}

/// Record-reuse bound: along any history of guard traffic that starts from
/// a fresh, empty registry, the registry's final size is at most the peak
/// number of simultaneously active records. Since the registry only grows
/// and records are never destroyed, its final size is the total number of
/// records ever created: churn (many acquire/release rounds) does not grow
/// the registry beyond the peak concurrent guard count.
pub proof fn lemma_record_reuse_bound(states: Seq<Seq<bool>>, ops: Seq<GuardOp>)
    requires
        guard_trace(states, ops),
        states[0].len() == 0,
    ensures
        states.last().len() <= peak_active(states),
    decreases ops.len(),
{
    if ops.len() == 0 {
        assert(states.last() == states[0]);
    } else {
        let front = states.drop_last();
        assert(guard_trace(front, ops.drop_last())) by {
            assert forall|k: int|
                0 <= k < ops.drop_last().len() implies guard_step(
                front[k],
                #[trigger] ops.drop_last()[k],
                front[k + 1],
            ) by {
                assert(guard_step(states[k], ops[k], states[k + 1]));
            }
        }
        assert(front[0] == states[0]);
        lemma_record_reuse_bound(front, ops.drop_last());
        let pre = front.last();
        let post = states.last();
        assert(pre == states[states.len() - 2]);
        assert(guard_step(states[states.len() - 2], ops[ops.len() - 1], states[states.len() - 1]));
        assert(peak_active(states) >= peak_active(front));
        assert(peak_active(states) >= count_active(post));
        match ops[ops.len() - 1] {
            GuardOp::Acquire(idx) => {
                if exists|j: int| 0 <= j < pre.len() && !(#[trigger] pre[j]) {
                    assert(post.len() == pre.len());
                } else {
                    assert(forall|j: int| 0 <= j < pre.len() ==> pre[j]);
                    lemma_count_active_all_active(pre);
                    lemma_count_active_push(pre, true);
                    assert(count_active(post) == pre.len() + 1);
                    assert(post.len() == pre.len() + 1);
                }
            },
            GuardOp::Release(idx) => {
                assert(post.len() == pre.len());
            },
        }
    }
}

/// The effect `acquire` ensures of the registry is one `acquire_step` of
/// the registry's active flags, with the index it returned.
pub proof fn lemma_acquire_is_step(pre: HazPtrLinkedlist, post: HazPtrLinkedlist, idx: usize)
    requires
        HazPtrLinkedlist::acquire_rel(pre, post, idx),
    ensures
        acquire_step(pre.flags(), idx as int, post.flags()),
{
    if exists|j: int| 0 <= j < pre.hazptrs@.len() && !(#[trigger] pre.hazptrs@[j]).active {
        let j0 = choose|j: int| 0 <= j < pre.hazptrs@.len() && !(#[trigger] pre.hazptrs@[j]).active;
        assert(!pre.flags()[j0]);
        assert(post.flags() =~= pre.flags().update(idx as int, true));
    } else {
        assert forall|j: int| 0 <= j < pre.flags().len() implies pre.flags()[j] by {
            assert(pre.hazptrs@[j].active);
        }
        assert(post.flags() =~= pre.flags().push(true));
    }
}

/// Deactivating one record — what `release` ensures of the registry, with
/// or without the guarded address cleared first — is one `release_step` of
/// the registry's active flags.
pub proof fn lemma_release_is_step(pre: HazPtrLinkedlist, post: HazPtrLinkedlist, idx: usize)
    requires
        idx < pre.hazptrs@.len(),
        post.hazptrs@.len() == pre.hazptrs@.len(),
        !post.hazptrs@[idx as int].active,
        forall|j: int|
            0 <= j < pre.hazptrs@.len() && j != idx ==> post.hazptrs@[j] == #[trigger] pre.hazptrs@[j],
    ensures
        release_step(pre.flags(), idx as int, post.flags()),
{
    assert(post.flags() =~= pre.flags().update(idx as int, false));
}

} // verus!
