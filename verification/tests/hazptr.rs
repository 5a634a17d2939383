use hazptr::AtomicSlot;
use hazptr::Deleter;
use hazptr::HazPtrHolder;
use hazptr::HazPtrLinkedlist;
use hazptr::HazPtrObject;
use hazptr::HazPtrWrapper;

struct NullRejectingDeleter;

impl Deleter for NullRejectingDeleter {
    fn delete(address: usize) {
        assert!(address != 0);
    }
}

#[test]
fn looks_good_to_me() {
    let mut list = HazPtrLinkedlist::new();
    // Object A holds 42 and is published under address 1.
    let values = [(1usize, 42i32)];
    let mut x = AtomicSlot::new(1);
    let mut h = HazPtrHolder::default();
    let guarded = h.load(&mut list, &x).expect("not null");
    assert_eq!(values.iter().find(|(a, _)| *a == guarded).unwrap().1, 42);

    // A writer replaces A by a new object holding 999 and retires A.
    let replacement = HazPtrWrapper::publish_at(999i32, 2);
    let old = x.swap(2);
    list.retire(old, 7);
    assert_eq!(*replacement.inner(), 999);

    // A is still guarded, so a scan must not free it yet.
    let freed = list.scan();
    assert!(freed.is_empty());
    h.release(&mut list);
    let freed = list.scan();
    assert_eq!(freed.len(), 1);
    assert_eq!(freed[0].address, 1);
    assert_eq!(freed[0].deleter, 7);
}

#[test]
fn end_to_end_swap_retire_scan() {
    // Domain D; slot S initially pointing at object A (value 1).
    let mut d = HazPtrLinkedlist::new();
    let mut s = AtomicSlot::new(10);
    let object_values = [(10usize, 1i32), (20usize, 2i32)];
    let mut freed_a = false;

    // Reader R1 protects S and receives a reference to A.
    let mut r1 = HazPtrHolder::new();
    let a_ref = r1.load(&mut d, &s).expect("slot is not null");
    assert_eq!(a_ref, 10);

    // Writer W swaps S to object B (value 2) and retires A.
    let old = s.swap(20);
    assert_eq!(old, 10);
    d.retire(old, 1);

    // Before R1 releases its guard: A must not be freed, and R1's
    // reference still reads value 1.
    for entry in d.scan() {
        if entry.address == 10 {
            freed_a = true;
        }
    }
    assert!(!freed_a);
    assert_eq!(object_values.iter().find(|(a, _)| *a == a_ref).unwrap().1, 1);

    // After R1 releases its guard, a scan frees A.
    r1.release(&mut d);
    for entry in d.scan() {
        NullRejectingDeleter::delete(entry.address);
        if entry.address == 10 {
            freed_a = true;
        }
    }
    assert!(freed_a);
    assert_eq!(d.retired_count(), 0);
}

#[test]
fn eventual_reclamation_without_guards() {
    let mut d = HazPtrLinkedlist::new();
    d.retire(3, 30);
    d.retire(4, 40);
    d.retire(5, 50);
    assert_eq!(d.retired_count(), 3);
    let freed = d.scan();
    assert_eq!(freed.len(), 3);
    assert_eq!(d.retired_count(), 0);
    // Each deleter tag shows up exactly once.
    for tag in [30u64, 40, 50] {
        assert_eq!(freed.iter().filter(|e| e.deleter == tag).count(), 1);
    }
}

#[test]
fn no_double_free_across_scans() {
    let mut d = HazPtrLinkedlist::new();
    d.retire(8, 80);
    let first = d.scan();
    let second = d.scan();
    let frees = first.iter().chain(second.iter()).filter(|e| e.address == 8).count();
    assert_eq!(frees, 1);
}

#[test]
fn guarded_duplicate_entries_survive_together() {
    let mut d = HazPtrLinkedlist::new();
    let s = AtomicSlot::new(6);
    let mut h = HazPtrHolder::new();
    assert_eq!(h.load(&mut d, &s), Some(6));
    // The same address retired twice makes two entries; both stay while
    // guarded, and both are freed once the guard is gone.
    d.retire(6, 61);
    d.retire(6, 62);
    assert!(d.scan().is_empty());
    assert_eq!(d.retired_count(), 2);
    h.release(&mut d);
    let freed = d.scan();
    assert_eq!(freed.len(), 2);
    assert_eq!(freed.iter().filter(|e| e.deleter == 61).count(), 1);
    assert_eq!(freed.iter().filter(|e| e.deleter == 62).count(), 1);
}

#[test]
fn registry_growth_bounded_by_peak_guards() {
    let mut d = HazPtrLinkedlist::new();
    let s = AtomicSlot::new(9);
    // One reader churning through many load/release rounds reuses one record.
    for _ in 0..100 {
        let mut h = HazPtrHolder::new();
        assert_eq!(h.load(&mut d, &s), Some(9));
        h.release(&mut d);
    }
    assert_eq!(d.hazptrs.len(), 1);
    // Two overlapping readers need two records, and churn stays at two.
    for _ in 0..100 {
        let mut h1 = HazPtrHolder::new();
        let mut h2 = HazPtrHolder::new();
        assert_eq!(h1.load(&mut d, &s), Some(9));
        assert_eq!(h2.load(&mut d, &s), Some(9));
        h2.release(&mut d);
        h1.release(&mut d);
    }
    assert_eq!(d.hazptrs.len(), 2);
}

#[test]
fn acquire_reuses_first_inactive_record() {
    let mut d = HazPtrLinkedlist::new();
    assert_eq!(d.acquire(), 0);
    assert_eq!(d.acquire(), 1);
    assert_eq!(d.acquire(), 2);
    d.release(1);
    assert_eq!(d.acquire(), 1);
    d.release(0);
    d.release(2);
    assert_eq!(d.acquire(), 0);
    assert_eq!(d.hazptrs.len(), 3);
}

#[test]
fn holder_lazily_acquires_one_record() {
    let mut d = HazPtrLinkedlist::new();
    let mut h = HazPtrHolder::new();
    let idx = h.hazptr(&mut d);
    assert_eq!(idx, 0);
    assert_eq!(d.hazptrs.len(), 1);
    // Asking again reuses the same record instead of acquiring another.
    assert_eq!(h.hazptr(&mut d), 0);
    assert_eq!(d.hazptrs.len(), 1);
    h.release(&mut d);
}

#[test]
fn load_of_null_slot_returns_none() {
    let mut d = HazPtrLinkedlist::new();
    let s = AtomicSlot::new(0);
    let mut h = HazPtrHolder::new();
    assert_eq!(h.load(&mut d, &s), None);
    // The holder still acquired a record; releasing it frees the registry slot.
    assert_eq!(d.hazptrs.len(), 1);
    h.release(&mut d);
    assert_eq!(d.acquire(), 0);
}

#[test]
fn holder_reuses_its_record_across_loads() {
    let mut d = HazPtrLinkedlist::new();
    let mut s = AtomicSlot::new(5);
    let mut h = HazPtrHolder::new();
    assert_eq!(h.load(&mut d, &s), Some(5));
    s.store(11);
    assert_eq!(h.load(&mut d, &s), Some(11));
    assert_eq!(d.hazptrs.len(), 1);
    h.release(&mut d);
}

#[test]
fn scan_threshold_recommends_batched_scans() {
    let mut d = HazPtrLinkedlist::new();
    d.set_scan_threshold(2);
    d.retire(1, 0);
    assert!(!d.needs_scan());
    d.retire(2, 0);
    assert!(d.needs_scan());
    d.scan();
    assert!(!d.needs_scan());
}

#[test]
fn extreme_addresses_and_threshold() {
    let mut d = HazPtrLinkedlist::new();
    d.set_scan_threshold(usize::MAX);
    d.retire(usize::MAX, u64::MAX);
    assert!(!d.needs_scan());
    let freed = d.scan();
    assert_eq!(freed.len(), 1);
    assert_eq!(freed[0].address, usize::MAX);
    assert_eq!(freed[0].deleter, u64::MAX);
}

#[test]
fn reclaim_all_drains_even_guarded_entries() {
    let mut d = HazPtrLinkedlist::new();
    let s = AtomicSlot::new(3);
    let mut h = HazPtrHolder::new();
    assert_eq!(h.load(&mut d, &s), Some(3));
    d.retire(3, 33);
    assert!(d.scan().is_empty());
    // Shutdown drain ignores guard state: the caller asserts no readers remain.
    let freed = d.reclaim_all();
    assert_eq!(freed.len(), 1);
    assert_eq!(freed[0].address, 3);
    assert_eq!(d.retired_count(), 0);
    h.release(&mut d);
}

#[test]
fn wrapper_retires_only_once_published() {
    let mut d = HazPtrLinkedlist::new();
    let unpublished = HazPtrWrapper::with_default_linkedlist(17i32);
    assert_eq!(*unpublished.inner(), 17);
    assert_eq!(unpublished.address(), 0);
    unpublished.retire(&mut d, 5);
    assert_eq!(d.retired_count(), 0);

    let published = HazPtrWrapper::publish_at(18i32, 44);
    assert_eq!(published.address(), 44);
    published.retire(&mut d, 5);
    assert_eq!(d.retired_count(), 1);
    let freed = d.scan();
    assert_eq!(freed.len(), 1);
    assert_eq!(freed[0].address, 44);
    assert_eq!(freed[0].deleter, 5);
}
