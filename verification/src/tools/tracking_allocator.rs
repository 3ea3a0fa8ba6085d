//! Memory accounting for a tracking allocator: byte counts, their peak, and
//! the number of allocations and frees, for the Rust heap and for ThorVG.
use vstd::prelude::*;

verus! {

/// A snapshot of memory statistics.
#[derive(Debug, Clone, Copy, Default, PartialEq, Eq, Structural)]
pub struct MemoryStats {
    pub current_bytes: i64,
    pub peak_bytes: i64,
    pub total_allocs: u64,
    pub total_frees: u64,
}

/// Running counters of one allocation domain. The counters wrap around on
/// overflow, as atomic additions do.
#[derive(Debug)]
pub struct AllocStats {
    current_bytes: isize,
    peak_bytes: isize,
    total_allocs: u64,
    total_frees: u64,
}

/// Statistics with every counter at zero.
pub open spec fn zero_stats() -> MemoryStats {
    MemoryStats { current_bytes: 0, peak_bytes: 0, total_allocs: 0, total_frees: 0 }
}

/// The larger of two counts.
pub open spec fn max_of(a: isize, b: isize) -> isize {
    if a >= b {
        a
    } else {
        b
    }
}

impl AllocStats {
    /// Bytes currently allocated.
    pub closed spec fn current(&self) -> isize {
        self.current_bytes
    }

    /// The highest count of current bytes recorded.
    pub closed spec fn peak(&self) -> isize {
        self.peak_bytes
    }

    /// Allocations counted.
    pub closed spec fn allocs(&self) -> u64 {
        self.total_allocs
    }

    /// Frees counted.
    pub closed spec fn frees(&self) -> u64 {
        self.total_frees
    }

    /// The counters as a snapshot.
    pub open spec fn stats(&self) -> MemoryStats {
        MemoryStats {
            current_bytes: self.current() as i64,
            peak_bytes: self.peak() as i64,
            total_allocs: self.allocs(),
            total_frees: self.frees(),
        }
    }

    /// All counters at zero.
    pub fn new() -> (s: Self)
        ensures
            s.stats() == zero_stats(),
    {
        Self { current_bytes: 0, peak_bytes: 0, total_allocs: 0, total_frees: 0 }
    }

    /// Counts an allocation of `size` bytes: the current bytes grow by `size`,
    /// the peak becomes at least the new current, and one more allocation is counted.
    pub fn record_alloc(&mut self, size: usize)
        requires
            size <= isize::MAX,
        ensures
            final(self).current() == old(self).current().wrapping_add(size as isize),
            final(self).peak() == max_of(old(self).peak(), final(self).current()),
            final(self).allocs() == old(self).allocs().wrapping_add(1),
            final(self).frees() == old(self).frees(),
    {
        let current = self.current_bytes.wrapping_add(size as isize);
        self.current_bytes = current;
        self.total_allocs = self.total_allocs.wrapping_add(1);
        if current > self.peak_bytes {
            self.peak_bytes = current;
        }
    }

    /// Counts a free of `size` bytes: the current bytes shrink by `size` and
    /// one more free is counted.
    pub fn record_free(&mut self, size: usize)
        requires
            size <= isize::MAX,
        ensures
            final(self).current() == old(self).current().wrapping_sub(size as isize),
            final(self).peak() == old(self).peak(),
            final(self).allocs() == old(self).allocs(),
            final(self).frees() == old(self).frees().wrapping_add(1),
    {
        self.current_bytes = self.current_bytes.wrapping_sub(size as isize);
        self.total_frees = self.total_frees.wrapping_add(1);
    }

    /// Counts a reallocation from `old_size` to `new_size` bytes: one free and
    /// one allocation; the current bytes change by the difference, and the
    /// peak is raised only when the block grew.
    pub fn record_realloc(&mut self, old_size: usize, new_size: usize)
        requires
            old_size <= isize::MAX,
            new_size <= isize::MAX,
        ensures
            final(self).current() == old(self).current().wrapping_add(
                (new_size - old_size) as isize,
            ),
            final(self).peak() == if new_size > old_size {
                max_of(old(self).peak(), final(self).current())
            } else {
                old(self).peak()
            },
            final(self).allocs() == old(self).allocs().wrapping_add(1),
            final(self).frees() == old(self).frees().wrapping_add(1),
    {
        let delta = new_size as isize - old_size as isize;
        let current = self.current_bytes.wrapping_add(delta);
        self.current_bytes = current;
        self.total_frees = self.total_frees.wrapping_add(1);
        self.total_allocs = self.total_allocs.wrapping_add(1);
        if delta > 0 && current > self.peak_bytes {
            self.peak_bytes = current;
        }
    }

    /// The current counters.
    pub fn snapshot(&self) -> (s: MemoryStats)
        ensures
            s == self.stats(),
    {
        MemoryStats {
            current_bytes: self.current_bytes as i64,
            peak_bytes: self.peak_bytes as i64,
            total_allocs: self.total_allocs,
            total_frees: self.total_frees,
        }
    }

    /// Sets every counter back to zero.
    pub fn reset(&mut self)
        ensures
            final(self).stats() == zero_stats(),
    {
        self.current_bytes = 0;
        self.peak_bytes = 0;
        self.total_allocs = 0;
        self.total_frees = 0;
    }
}

/// An allocator that tracks memory usage (the allocation hooks and the
/// process-wide counters live with the host).
#[derive(Debug, Default)]
pub struct TrackingAllocator;

/// Whether two snapshots can be added without overflow.
pub open spec fn combinable(a: MemoryStats, b: MemoryStats) -> bool {
    &&& i64::MIN <= a.current_bytes + b.current_bytes <= i64::MAX
    &&& i64::MIN <= a.peak_bytes + b.peak_bytes <= i64::MAX
    &&& a.total_allocs + b.total_allocs <= u64::MAX
    &&& a.total_frees + b.total_frees <= u64::MAX
}

impl TrackingAllocator {
    /// The allocator.
    pub fn new() -> (t: Self) {
        Self
    }

    /// Heap and ThorVG statistics combined: every field is the sum.
    pub fn combine_with_tvg(&self, heap: MemoryStats, tvg: MemoryStats) -> (s: MemoryStats)
        requires
            combinable(heap, tvg),
        ensures
            s.current_bytes == heap.current_bytes + tvg.current_bytes,
            s.peak_bytes == heap.peak_bytes + tvg.peak_bytes,
            s.total_allocs == heap.total_allocs + tvg.total_allocs,
            s.total_frees == heap.total_frees + tvg.total_frees,
    {
        MemoryStats {
            current_bytes: heap.current_bytes + tvg.current_bytes,
            peak_bytes: heap.peak_bytes + tvg.peak_bytes,
            total_allocs: heap.total_allocs + tvg.total_allocs,
            total_frees: heap.total_frees + tvg.total_frees,
        }
    }
}

} // verus!
