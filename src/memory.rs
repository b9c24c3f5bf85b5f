//! Allocation counters sampled around a request, and what is reported of
//! their change.

use vstd::prelude::*;

verus! {

/// A sample of the allocator's counters.
#[derive(Debug, PartialEq, Eq, Structural, Clone, Copy)]
pub struct Stats {
    pub bytes_allocated: usize,
    pub allocations: usize,
    pub deallocations: usize,
}

/// How the counters moved between two samples.
#[derive(Debug, PartialEq, Eq, Structural, Clone, Copy)]
pub struct MemoryChange {
    pub bytes_delta: i128,
    pub allocations_delta: i128,
    pub deallocations_delta: i128,
    /// Bytes allocated less the number of deallocations, in the later sample.
    pub leaked_bytes: i128,
}

/// A suspected leak: allocations outnumber deallocations by more than before.
#[derive(Debug, PartialEq, Eq, Structural, Clone, Copy)]
pub struct LeakReport {
    pub net_allocations: i128,
    pub bytes: i128,
}

/// Allocations not yet matched by a deallocation.
pub open spec fn live_allocations(s: Stats) -> int {
    s.allocations - s.deallocations
}

/// The change from `before` to `current`.
pub fn memory_change(before: Stats, current: Stats) -> (c: MemoryChange)
    ensures
        c.bytes_delta == current.bytes_allocated - before.bytes_allocated,
        c.allocations_delta == current.allocations - before.allocations,
        c.deallocations_delta == current.deallocations - before.deallocations,
        c.leaked_bytes == current.bytes_allocated - current.deallocations,
{
    MemoryChange {
        bytes_delta: current.bytes_allocated as i128 - before.bytes_allocated as i128,
        allocations_delta: current.allocations as i128 - before.allocations as i128,
        deallocations_delta: current.deallocations as i128 - before.deallocations as i128,
        leaked_bytes: current.bytes_allocated as i128 - current.deallocations as i128,
    }
}

/// A leak report when more allocations are live in `current` than in
/// `before`, with how many more and the growth of the allocated bytes.
pub fn detect_memory_leak(before: Stats, current: Stats) -> (r: Option<LeakReport>)
    ensures
        r is Some <==> live_allocations(current) > live_allocations(before),
        match r {
            Some(l) => l.net_allocations == live_allocations(current) - live_allocations(before)
                && l.bytes == current.bytes_allocated - before.bytes_allocated,
            None => true,
        },
{
    let net: i128 = (current.allocations as i128 - current.deallocations as i128) - (
    before.allocations as i128 - before.deallocations as i128);
    if net > 0 {
        Some(
            LeakReport {
                net_allocations: net,
                bytes: current.bytes_allocated as i128 - before.bytes_allocated as i128,
            },
        )
    } else {
        None
    }
}

} // verus!
