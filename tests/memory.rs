use authengine::memory::{detect_memory_leak, memory_change, Stats};

fn zero() -> Stats {
    Stats { bytes_allocated: 0, allocations: 0, deallocations: 0 }
}

#[test]
fn change_between_samples() {
    let before = Stats { bytes_allocated: 100, allocations: 5, deallocations: 2 };
    let current = Stats { bytes_allocated: 80, allocations: 9, deallocations: 8 };
    let c = memory_change(before, current);
    assert_eq!(c.bytes_delta, -20);
    assert_eq!(c.allocations_delta, 4);
    assert_eq!(c.deallocations_delta, 6);
    assert_eq!(c.leaked_bytes, 72);
}

#[test]
fn leak_when_live_allocations_grow() {
    let before = Stats { bytes_allocated: 100, allocations: 5, deallocations: 2 };
    let current = Stats { bytes_allocated: 160, allocations: 10, deallocations: 4 };
    let l = detect_memory_leak(before, current).unwrap();
    assert_eq!(l.net_allocations, 3);
    assert_eq!(l.bytes, 60);
}

#[test]
fn no_leak_when_balanced() {
    let before = Stats { bytes_allocated: 100, allocations: 5, deallocations: 2 };
    let current = Stats { bytes_allocated: 200, allocations: 8, deallocations: 5 };
    assert!(detect_memory_leak(before, current).is_none());
    assert!(detect_memory_leak(zero(), zero()).is_none());
    let odd = Stats { bytes_allocated: 0, allocations: 0, deallocations: usize::MAX };
    assert!(detect_memory_leak(zero(), odd).is_none());
    assert_eq!(detect_memory_leak(odd, zero()).unwrap().net_allocations, usize::MAX as i128);
}
