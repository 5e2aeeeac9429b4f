//! A pool of device memory that caches released blocks for reuse.
//!
//! Requests are rounded up to a power of two (at least the pool's minimum
//! allocation). The bytes in use never exceed the pool's maximum size. An
//! allocation takes the smallest cached block that is large enough (of
//! equal blocks, the one released last), when handing it out keeps the
//! bytes in use within the maximum; failing that it allocates a new block
//! from the device. When the bytes in use plus the request would exceed
//! the maximum, the cache is trimmed (largest blocks first, of equal ones
//! the last released first) and the request is refused. Released blocks go
//! back to the cache; blocks dropped from the cache go back to the device.
//!
//! The cache is modelled as the multiset of its block sizes.

use vstd::prelude::*;
use vstd::multiset::Multiset;
use crate::cuda_error::CudaError;
use crate::device::CudaDevice;
use crate::memory::DeviceMemory;
use crate::report::two_to;
use crate::text::{decimal, push_decimal};

verus! {

broadcast use vstd::seq_lib::group_to_multiset_ensures;

/// Allocation statistics.
#[derive(Debug, Clone, Copy, PartialEq, Eq, Structural)]
pub struct PoolStats {
    /// Total allocations.
    pub total_allocations: u64,
    /// Cache hits (reused memory).
    pub cache_hits: u64,
    /// Cache misses (new allocations).
    pub cache_misses: u64,
    /// Total bytes allocated.
    pub total_bytes_allocated: u64,
    /// Current bytes in use.
    pub bytes_in_use: u64,
    /// Current bytes cached (free but not returned to driver).
    pub bytes_cached: u64,
}

impl PoolStats {
    /// All counters at zero.
    pub open spec fn spec_zero() -> PoolStats {
        PoolStats {
            total_allocations: 0,
            cache_hits: 0,
            cache_misses: 0,
            total_bytes_allocated: 0,
            bytes_in_use: 0,
            bytes_cached: 0,
        }
    }
}

impl Default for PoolStats {
    fn default() -> (r: Self)
        ensures
            r == PoolStats::spec_zero(),
    {
        PoolStats {
            total_allocations: 0,
            cache_hits: 0,
            cache_misses: 0,
            total_bytes_allocated: 0,
            bytes_in_use: 0,
            bytes_cached: 0,
        }
    }
}

// =============================================================================
// The model
// =============================================================================

/// The smallest power of two that is at least `x`, searching from `2^e`.
pub open spec fn pow2_from(x: nat, e: nat) -> nat
    decreases 64 - e,
{
    if e >= 64 || two_to(e) >= x {
        two_to(e)
    } else {
        pow2_from(x, e + 1)
    }
}

/// A request rounded up to the pool's granularity: at least the minimum
/// allocation, then up to the next power of two.
pub open spec fn rounded(size: u64, min_alloc: u64) -> nat {
    pow2_from(if size >= min_alloc { size as nat } else { min_alloc as nat }, 0)
}

/// The smallest cached size of at least `need`, if there is one.
pub open spec fn smallest_fit(ms: Multiset<u64>, need: nat) -> Option<u64> {
    if exists|v: u64| ms.contains(v) && v >= need {
        Some(
            choose|v: u64|
                ms.contains(v) && v >= need && forall|x: u64| ms.contains(x) && x >= need ==> v <= x,
        )
    } else {
        None
    }
}

/// A block given back is found again: once a block of `v` bytes is in the
/// cache, a request rounded to `v` bytes is served by a cached block of
/// exactly `v` bytes, whatever else the cache holds.
pub proof fn law_release_then_reuse(ms: Multiset<u64>, v: u64)
    ensures
        smallest_fit(ms.insert(v), v as nat) == Some(v),
{
    broadcast use vstd::multiset::group_multiset_axioms;

    let c = ms.insert(v);
    assert(c.contains(v));
    assert(exists|w: u64| c.contains(w) && w >= v);
    assert(forall|x: u64| c.contains(x) && x >= v ==> v <= x);
    let w = choose|w: u64|
        c.contains(w) && w >= v as nat && forall|x: u64| c.contains(x) && x >= v as nat ==> w <= x;
    assert(w <= v);
}

/// The largest cached size.
pub open spec fn largest(ms: Multiset<u64>) -> u64 {
    choose|v: u64| ms.contains(v) && forall|x: u64| ms.contains(x) ==> x <= v
}

/// Removing a held value takes one off the multiset's size.
pub proof fn lemma_remove_len(ms: Multiset<u64>, v: u64)
    requires
        ms.contains(v),
    ensures
        ms.remove(v).len() == ms.len() - 1,
{
    broadcast use vstd::multiset::group_multiset_axioms;

    assert(Multiset::singleton(v).subset_of(ms));
}

/// Dropping the largest cached blocks until `needed` bytes are freed or
/// the cache is empty: the cache left and the bytes freed.
pub open spec fn trim_run(ms: Multiset<u64>, freed: int, needed: int) -> (Multiset<u64>, int)
    decreases ms.len(),
{
    if freed >= needed || ms.len() == 0 {
        (ms, freed)
    } else {
        let m = largest(ms);
        if ms.contains(m) {
            proof {
                lemma_remove_len(ms, m);
            }
            trim_run(ms.remove(m), freed + m, needed)
        } else {
            (ms, freed)
        }
    }
}

/// Sum of a sequence of sizes.
pub open spec fn seq_sum(s: Seq<u64>) -> int
    decreases s.len(),
{
    if s.len() == 0 {
        0
    } else {
        seq_sum(s.drop_last()) + s.last()
    }
}

proof fn lemma_seq_sum_append(a: Seq<u64>, b: Seq<u64>)
    ensures
        seq_sum(a + b) == seq_sum(a) + seq_sum(b),
    decreases b.len(),
{
    if b.len() == 0 {
        assert(a + b =~= a);
    } else {
        lemma_seq_sum_append(a, b.drop_last());
        assert((a + b).drop_last() =~= a + b.drop_last());
    }
}

proof fn lemma_seq_sum_remove(s: Seq<u64>, i: int)
    requires
        0 <= i < s.len(),
    ensures
        seq_sum(s.remove(i)) == seq_sum(s) - s[i],
{
    let pre = s.take(i);
    let post = s.skip(i + 1);
    assert(s =~= pre + seq![s[i]] + post);
    assert(s.remove(i) =~= pre + post);
    lemma_seq_sum_append(pre + seq![s[i]], post);
    lemma_seq_sum_append(pre, seq![s[i]]);
    lemma_seq_sum_append(pre, post);
    let one = seq![s[i]];
    assert(one.drop_last() =~= Seq::<u64>::empty());
    assert(seq_sum(one.drop_last()) == 0);
    assert(seq_sum(one) == s[i]);
}

proof fn lemma_seq_sum_nonneg(s: Seq<u64>)
    ensures
        seq_sum(s) >= 0,
    decreases s.len(),
{
    if s.len() > 0 {
        lemma_seq_sum_nonneg(s.drop_last());
    }
}

proof fn lemma_seq_sum_bound(s: Seq<u64>, i: int)
    requires
        0 <= i < s.len(),
    ensures
        s[i] <= seq_sum(s),
        seq_sum(s) >= 0,
    decreases s.len(),
{
    lemma_seq_sum_nonneg(s);
    lemma_seq_sum_nonneg(s.drop_last());
    if i < s.len() - 1 {
        lemma_seq_sum_bound(s.drop_last(), i);
        assert(s.drop_last()[i] == s[i]);
    }
}

proof fn lemma_fit(s: Seq<u64>, need: nat, i: int)
    requires
        0 <= i < s.len(),
        s[i] >= need,
        forall|j: int| 0 <= j < s.len() && s[j] >= need ==> s[j] >= s[i],
    ensures
        smallest_fit(s.to_multiset(), need) == Some(s[i]),
{
    let ms = s.to_multiset();
    let w = s[i];
    assert(s.contains(w));
    assert(ms.contains(w));
    assert forall|x: u64| ms.contains(x) && x >= need implies w <= x by {
        assert(s.contains(x));
    }
    assert(ms.contains(w) && w >= need && forall|x: u64| ms.contains(x) && x >= need ==> w <= x);
    let v = choose|v: u64|
        ms.contains(v) && v >= need && forall|x: u64| ms.contains(x) && x >= need ==> v <= x;
    assert(v <= w);
    assert(w <= v);
}

proof fn lemma_no_fit(s: Seq<u64>, need: nat)
    requires
        forall|j: int| 0 <= j < s.len() ==> s[j] < need,
    ensures
        smallest_fit(s.to_multiset(), need) is None,
{
    let ms = s.to_multiset();
    assert forall|v: u64| ms.contains(v) implies v < need by {
        assert(s.contains(v));
    }
}

proof fn lemma_largest(s: Seq<u64>, i: int)
    requires
        0 <= i < s.len(),
        forall|j: int| 0 <= j < s.len() ==> s[j] <= s[i],
    ensures
        largest(s.to_multiset()) == s[i],
        s.to_multiset().contains(s[i]),
{
    let ms = s.to_multiset();
    let w = s[i];
    assert(s.contains(w));
    assert forall|x: u64| ms.contains(x) implies x <= w by {
        assert(s.contains(x));
    }
    assert(ms.contains(w) && forall|x: u64| ms.contains(x) ==> x <= w);
    let v = choose|v: u64| ms.contains(v) && forall|x: u64| ms.contains(x) ==> x <= v;
    assert(v >= w);
    assert(v <= w);
}

// =============================================================================
// Pooled memory
// =============================================================================

/// Memory taken from a pool: the block (until taken) and the size asked
/// for. It goes back to the pool through `MemoryPool::release`.
#[derive(Debug)]
pub struct PooledMemory {
    memory: Option<DeviceMemory>,
    requested_size: u64,
}

impl PooledMemory {
    /// The block held, if not taken.
    pub closed spec fn spec_memory(&self) -> Option<DeviceMemory> {
        self.memory
    }

    /// The size asked for.
    pub closed spec fn spec_requested(&self) -> u64 {
        self.requested_size
    }

    /// Get the requested size.
    pub fn requested_size(&self) -> (r: u64)
        ensures
            r == self.spec_requested(),
    {
        self.requested_size
    }

    /// The size of the block held (rounded up from the request), 0 once
    /// taken.
    pub fn allocated_size(&self) -> (r: u64)
        ensures
            r == match self.spec_memory() {
                Some(m) => m.spec_size(),
                None => 0,
            },
    {
        match &self.memory {
            Some(m) => m.size(),
            None => 0,
        }
    }

    /// Get underlying memory.
    pub fn memory(&self) -> (r: Option<&DeviceMemory>)
        ensures
            r == match self.spec_memory() {
                Some(m) => Some(&m),
                None => None,
            },
    {
        match &self.memory {
            Some(m) => Some(m),
            None => None,
        }
    }

    /// Get mutable underlying memory.
    pub fn memory_mut(&mut self) -> (r: Option<&mut DeviceMemory>)
        ensures
            old(self).spec_memory() is None ==> r is None && final(self).spec_memory() is None,
            old(self).spec_memory() matches Some(m) ==> (r matches Some(x) && *x == m
                && final(self).spec_memory() == Some(*final(x))),
            final(self).spec_requested() == old(self).spec_requested(),
    {
        match &mut self.memory {
            Some(m) => Some(m),
            None => None,
        }
    }

    /// Take the block out; the pool no longer gets it back.
    pub fn take(self) -> (r: Option<DeviceMemory>)
        ensures
            r == self.spec_memory(),
    {
        self.memory
    }
}

// =============================================================================
// Memory pool
// =============================================================================

/// GPU memory pool.
#[derive(Debug)]
pub struct MemoryPool {
    /// Device this pool manages.
    device: CudaDevice,
    /// Maximum pool size in bytes.
    max_size: u64,
    /// Minimum allocation size (smaller allocations are rounded up).
    min_alloc_size: u64,
    /// Cached (free) blocks.
    free_blocks: Vec<DeviceMemory>,
    /// Statistics.
    stats: PoolStats,
}

/// A cache hit: the block of size `v` is handed out and its bytes move
/// from cached to in use.
pub open spec fn hit_outcome(
    before: MemoryPool,
    after: MemoryPool,
    r: Result<PooledMemory, CudaError>,
    size: u64,
    v: u64,
) -> bool {
    let st = before.spec_stats();
    &&& r matches Ok(pm) && pm.spec_requested() == size && (pm.spec_memory() matches Some(m)
        && m.spec_size() == v && m.spec_device() == before.spec_device().spec_index())
    &&& after.cached() == before.cached().remove(v)
    &&& after.spec_stats() == (PoolStats {
        total_allocations: (st.total_allocations + 1) as u64,
        cache_hits: (st.cache_hits + 1) as u64,
        bytes_in_use: (st.bytes_in_use + v) as u64,
        bytes_cached: (st.bytes_cached - v) as u64,
        ..st
    })
    &&& after.spec_device().allocated() == before.spec_device().allocated()
}

/// Whether a new block of `need` bytes would take the bytes in use past
/// the maximum.
pub open spec fn over_limit(p: MemoryPool, need: nat) -> bool {
    p.spec_stats().bytes_in_use + need > p.spec_max_size()
}

/// The cached block a request of `need` bytes reuses: the smallest that
/// fits, provided handing it out keeps the bytes in use within the maximum.
pub open spec fn reuse_of(p: MemoryPool, need: nat) -> Option<u64> {
    match smallest_fit(p.cached(), need) {
        Some(v) => if over_limit(p, v as nat) {
            None
        } else {
            Some(v)
        },
        None => None,
    }
}

/// The cache and bytes freed when a miss of `need` bytes trims: trimmed
/// only when the bytes in use plus `need` exceed the maximum.
pub open spec fn miss_trim(before: MemoryPool, need: nat) -> (Multiset<u64>, int) {
    if over_limit(before, need) {
        trim_run(before.cached(), 0, need as int)
    } else {
        (before.cached(), 0int)
    }
}

/// A miss for `need` bytes. Over the limit: the cache is trimmed and the
/// request refused (with the trim's error when the trim fell short).
/// Within it: a new block from the device, or the device's error.
pub open spec fn miss_outcome(
    before: MemoryPool,
    after: MemoryPool,
    r: Result<PooledMemory, CudaError>,
    size: u64,
    need: nat,
) -> bool {
    let st = before.spec_stats();
    let dev = before.spec_device();
    let run = miss_trim(before, need);
    let over = over_limit(before, need);
    let held = dev.allocated() - run.1;
    let free = if held <= dev.total() {
        dev.total() - held
    } else {
        0
    };
    let missed = PoolStats {
        total_allocations: (st.total_allocations + 1) as u64,
        cache_misses: (st.cache_misses + 1) as u64,
        bytes_cached: (st.bytes_cached - run.1) as u64,
        ..st
    };
    &&& after.cached() == run.0
    &&& over ==> after.spec_stats() == missed && after.spec_device().allocated() == held
    &&& over && run.1 < need ==> (r matches Err(CudaError::PoolError(m)) && m@ == trim_message(
        need,
        run.1 as nat,
    ))
    &&& over && run.1 >= need ==> (r matches Err(CudaError::PoolError(m)) && m@ == limit_message(
        st.bytes_in_use as nat,
        need,
        before.spec_max_size() as nat,
    ))
    &&& !over && need > free ==> r == Err::<PooledMemory, CudaError>(
        CudaError::OutOfMemory { requested: need as u64, available: free as u64 },
    ) && after.spec_stats() == missed && after.spec_device().allocated() == held
    &&& !over && need <= free ==> (r matches Ok(pm) && pm.spec_requested() == size && (
    pm.spec_memory() matches Some(m) && m.spec_size() == need && m.spec_device()
        == dev.spec_index())) && after.spec_stats() == (PoolStats {
        total_bytes_allocated: (st.total_bytes_allocated + need) as u64,
        bytes_in_use: (st.bytes_in_use + need) as u64,
        ..missed
    }) && after.spec_device().allocated() == held + need
}

/// The message of a request refused because it would take the bytes in
/// use past the maximum.
pub open spec fn limit_message(in_use: nat, requested: nat, maximum: nat) -> Seq<char> {
    "Pool size limit exceeded: in use "@ + decimal(in_use) + ", requested "@ + decimal(requested)
        + ", maximum "@ + decimal(maximum)
}

/// The message of a trim that could not free enough.
pub open spec fn trim_message(needed: nat, freed: nat) -> Seq<char> {
    "Could not free enough memory: needed "@ + decimal(needed) + ", freed "@ + decimal(freed)
}

impl MemoryPool {
    /// Default minimum allocation size (256 KB).
    pub const DEFAULT_MIN_ALLOC: u64 = 262144;

    /// The sizes of the cached blocks.
    closed spec fn sizes(&self) -> Seq<u64> {
        self.free_blocks@.map_values(|m: DeviceMemory| m.spec_size())
    }

    /// The sizes of the cached blocks, as a multiset.
    pub closed spec fn cached(&self) -> Multiset<u64> {
        self.sizes().to_multiset()
    }

    /// The statistics.
    pub closed spec fn spec_stats(&self) -> PoolStats {
        self.stats
    }

    /// The device.
    pub closed spec fn spec_device(&self) -> CudaDevice {
        self.device
    }

    /// The maximum size.
    pub closed spec fn spec_max_size(&self) -> u64 {
        self.max_size
    }

    /// The minimum allocation.
    pub closed spec fn spec_min_alloc(&self) -> u64 {
        self.min_alloc_size
    }

    /// Invariant: cached blocks belong to the pool's device, the cached
    /// bytes are the total of the cached blocks, the minimum allocation has
    /// a power of two at or above it, the device holds at least the bytes
    /// in use and cached, and the bytes in use are within the maximum.
    pub closed spec fn wf(&self) -> bool {
        &&& forall|i: int|
            0 <= i < self.free_blocks@.len() ==> (#[trigger] self.free_blocks@[i]).spec_device()
                == self.device.spec_index()
        &&& self.stats.bytes_cached == seq_sum(self.sizes())
        &&& self.min_alloc_size <= 0x8000_0000_0000_0000
        &&& self.device.allocated() >= self.stats.bytes_in_use + self.stats.bytes_cached
        &&& self.stats.bytes_in_use <= self.max_size
    }

    /// Create a pool on a device with the default minimum allocation.
    pub fn new(device: CudaDevice, max_size: u64) -> (r: Self)
        ensures
            r.wf(),
            r.spec_device() == device,
            r.spec_max_size() == max_size,
            r.spec_min_alloc() == Self::DEFAULT_MIN_ALLOC,
            r.cached().len() == 0,
            r.spec_stats() == PoolStats::spec_zero(),
    {
        Self::with_min_alloc(device, max_size, Self::DEFAULT_MIN_ALLOC)
    }

    /// Create a pool with a custom minimum allocation size.
    pub fn with_min_alloc(device: CudaDevice, max_size: u64, min_alloc: u64) -> (r: Self)
        requires
            min_alloc <= 0x8000_0000_0000_0000,
        ensures
            r.wf(),
            r.spec_device() == device,
            r.spec_max_size() == max_size,
            r.spec_min_alloc() == min_alloc,
            r.cached().len() == 0,
            r.spec_stats() == PoolStats::spec_zero(),
    {
        let r = MemoryPool {
            device,
            max_size,
            min_alloc_size: min_alloc,
            free_blocks: Vec::new(),
            stats: PoolStats::default(),
        };
        assert(r.sizes() =~= Seq::<u64>::empty());
        r
    }

    /// Get device.
    pub fn device(&self) -> (r: &CudaDevice)
        ensures
            *r == self.spec_device(),
    {
        &self.device
    }

    /// Get maximum pool size.
    pub fn max_size(&self) -> (r: u64)
        ensures
            r == self.spec_max_size(),
    {
        self.max_size
    }

    /// Get statistics.
    pub fn stats(&self) -> (r: PoolStats)
        ensures
            r == self.spec_stats(),
    {
        self.stats
    }

    /// Current memory usage: bytes in use and bytes cached.
    pub fn memory_usage(&self) -> (r: (u64, u64))
        ensures
            r == (self.spec_stats().bytes_in_use, self.spec_stats().bytes_cached),
    {
        (self.stats.bytes_in_use, self.stats.bytes_cached)
    }

    /// Round a request up to the allocation granularity.
    pub fn round_size(&self, size: u64) -> (r: u64)
        requires
            size <= 0x8000_0000_0000_0000,
            self.wf(),
        ensures
            r == rounded(size, self.spec_min_alloc()),
    {
        let x = if size >= self.min_alloc_size {
            size
        } else {
            self.min_alloc_size
        };
        let mut p: u64 = 1;
        let mut e: u64 = 0;
        proof {
            reveal_with_fuel(two_to, 2);
        }
        while p < x
            invariant
                p == two_to(e as nat),
                e <= 63,
                x <= 0x8000_0000_0000_0000,
                pow2_from(x as nat, e as nat) == pow2_from(x as nat, 0),
                p <= 0x8000_0000_0000_0000,
                p < x ==> e < 63,
            decreases 63 - e,
        {
            proof {
                lemma_two_to_63(e as nat);
                if e == 62 {
                    lemma_two_to_value_62();
                }
                assert(two_to((e + 1) as nat) == 2 * two_to(e as nat));
            }
            p = p * 2;
            e = e + 1;
        }
        p
    }

    /// Index of the smallest cached block of at least `need` bytes; among
    /// blocks of that size, the one released last.
    fn find_fit(&self, need: u64) -> (r: Option<usize>)
        ensures
            r matches Some(i) ==> i < self.sizes().len() && self.sizes()[i as int] >= need
                && (forall|j: int|
                0 <= j < self.sizes().len() && self.sizes()[j] >= need ==> self.sizes()[j]
                    >= self.sizes()[i as int]) && (forall|j: int|
                i < j < self.sizes().len() && self.sizes()[j] >= need ==> self.sizes()[j]
                    > self.sizes()[i as int]),
            r is None ==> forall|j: int| 0 <= j < self.sizes().len() ==> self.sizes()[j] < need,
    {
        let mut best: Option<usize> = None;
        let mut i: usize = 0;
        while i < self.free_blocks.len()
            invariant
                i <= self.free_blocks@.len(),
                self.sizes().len() == self.free_blocks@.len(),
                best matches Some(b) ==> b < i && self.sizes()[b as int] >= need && (forall|j: int|
                    0 <= j < i && self.sizes()[j] >= need ==> self.sizes()[j] >= self.sizes()[b as int])
                    && (forall|j: int|
                    b < j < i && self.sizes()[j] >= need ==> self.sizes()[j] > self.sizes()[b as int]),
                best is None ==> forall|j: int| 0 <= j < i ==> self.sizes()[j] < need,
            decreases self.free_blocks@.len() - i,
        {
            let s = self.free_blocks[i].size();
            assert(s == self.sizes()[i as int]);
            if s >= need {
                match best {
                    Some(b) => {
                        if s <= self.free_blocks[b].size() {
                            best = Some(i);
                        }
                    },
                    None => {
                        best = Some(i);
                    },
                }
            }
            i = i + 1;
        }
        best
    }

    /// Index of a largest cached block; among blocks of that size, the one
    /// released last.
    fn find_largest(&self) -> (r: Option<usize>)
        ensures
            r matches Some(i) ==> i < self.sizes().len() && (forall|j: int|
                0 <= j < self.sizes().len() ==> self.sizes()[j] <= self.sizes()[i as int]) && (
            forall|j: int| i < j < self.sizes().len() ==> self.sizes()[j] < self.sizes()[i as int]),
            r is None ==> self.sizes().len() == 0,
    {
        if self.free_blocks.len() == 0 {
            return None;
        }
        let mut best: usize = 0;
        let mut i: usize = 1;
        while i < self.free_blocks.len()
            invariant
                1 <= i <= self.free_blocks@.len(),
                self.sizes().len() == self.free_blocks@.len(),
                best < i,
                forall|j: int| 0 <= j < i ==> self.sizes()[j] <= self.sizes()[best as int],
                forall|j: int| best < j < i ==> self.sizes()[j] < self.sizes()[best as int],
            decreases self.free_blocks@.len() - i,
        {
            if self.free_blocks[i].size() >= self.free_blocks[best].size() {
                best = i;
            }
            i = i + 1;
        }
        Some(best)
    }

    /// Take the cached block at `i` out of the cache.
    fn take_block(&mut self, i: usize) -> (r: DeviceMemory)
        requires
            old(self).wf(),
            i < old(self).sizes().len(),
        ensures
            r.spec_size() == old(self).sizes()[i as int],
            r.spec_device() == old(self).device.spec_index(),
            final(self).sizes() == old(self).sizes().remove(i as int),
            final(self).cached() == old(self).cached().remove(old(self).sizes()[i as int]),
            final(self).stats == (PoolStats {
                bytes_cached: (old(self).stats.bytes_cached - r.spec_size()) as u64,
                ..old(self).stats
            }),
            final(self).wf(),
            final(self).device == old(self).device,
            final(self).max_size == old(self).max_size,
            final(self).min_alloc_size == old(self).min_alloc_size,
    {
        let ghost before = self.sizes();
        proof {
            lemma_seq_sum_bound(before, i as int);
            lemma_seq_sum_remove(before, i as int);
        }
        let m = self.free_blocks.remove(i);
        assert(self.sizes() =~= before.remove(i as int));
        self.stats.bytes_cached = self.stats.bytes_cached - m.size();
        m
    }

    /// Drop the largest cached blocks, giving them back to the device,
    /// until `needed` bytes are freed; an error when the cache runs out
    /// first. The blocks dropped stay dropped either way.
    fn trim(&mut self, needed: u64) -> (r: Result<(), CudaError>)
        requires
            old(self).wf(),
        ensures
            final(self).wf(),
            final(self).cached() == trim_run(old(self).cached(), 0, needed as int).0,
            final(self).stats == (PoolStats {
                bytes_cached: (old(self).stats.bytes_cached - trim_run(
                    old(self).cached(),
                    0,
                    needed as int,
                ).1) as u64,
                ..old(self).stats
            }),
            r is Ok == (trim_run(old(self).cached(), 0, needed as int).1 >= needed),
            r matches Err(e) ==> e matches CudaError::PoolError(m) && m@ == trim_message(
                needed as nat,
                trim_run(old(self).cached(), 0, needed as int).1 as nat,
            ),
            final(self).device.spec_index() == old(self).device.spec_index(),
            final(self).device.spec_info() == old(self).device.spec_info(),
            final(self).device.allocated() == old(self).device.allocated() - trim_run(
                old(self).cached(),
                0,
                needed as int,
            ).1,
            final(self).max_size == old(self).max_size,
            final(self).min_alloc_size == old(self).min_alloc_size,
    {
        let ghost start = self.cached();
        let ghost start_stats = self.stats;
        let mut freed: u64 = 0;
        while freed < needed
            invariant
                self.wf(),
                trim_run(self.cached(), freed as int, needed as int) == trim_run(start, 0, needed as int),
                freed as int + self.stats.bytes_cached == start_stats.bytes_cached,
                freed as int + self.device.allocated() == old(self).device.allocated(),
                self.stats == (PoolStats { bytes_cached: self.stats.bytes_cached, ..start_stats }),
                self.device.spec_index() == old(self).device.spec_index(),
                self.device.spec_info() == old(self).device.spec_info(),
                self.max_size == old(self).max_size,
                self.min_alloc_size == old(self).min_alloc_size,
            ensures
                self.wf(),
                trim_run(self.cached(), freed as int, needed as int) == trim_run(start, 0, needed as int),
                trim_run(self.cached(), freed as int, needed as int) == (self.cached(), freed as int),
                freed as int + self.stats.bytes_cached == start_stats.bytes_cached,
                freed as int + self.device.allocated() == old(self).device.allocated(),
                self.stats == (PoolStats { bytes_cached: self.stats.bytes_cached, ..start_stats }),
                self.device.spec_index() == old(self).device.spec_index(),
                self.device.spec_info() == old(self).device.spec_info(),
                self.max_size == old(self).max_size,
                self.min_alloc_size == old(self).min_alloc_size,
            decreases self.free_blocks@.len(),
        {
            match self.find_largest() {
                Some(i) => {
                    let ghost ms = self.cached();
                    proof {
                        lemma_largest(self.sizes(), i as int);
                        lemma_remove_len(ms, self.sizes()[i as int]);
                        lemma_seq_sum_bound(self.sizes(), i as int);
                    }
                    let m = self.take_block(i);
                    let size = m.size();
                    m.release(&mut self.device);
                    freed = freed + size;
                },
                None => {
                    proof {
                        assert(self.sizes().to_multiset().len() == 0);
                    }
                    break;
                },
            }
        }
        if freed < needed {
            let mut msg = String::new();
            proof {
                reveal_strlit("Could not free enough memory: needed ");
                reveal_strlit(", freed ");
            }
            msg.append("Could not free enough memory: needed ");
            push_decimal(&mut msg, needed);
            msg.append(", freed ");
            push_decimal(&mut msg, freed);
            return Err(CudaError::PoolError(msg));
        }
        Ok(())
    }

    /// Allocate `size` bytes (rounded up). The smallest cached block that
    /// fits is reused when there is one and handing it out keeps the bytes
    /// in use within the maximum; otherwise a new block is allocated from
    /// the device. A request that would take the bytes in use past the
    /// maximum trims the cache and is refused.
    pub fn allocate(&mut self, size: u64) -> (r: Result<PooledMemory, CudaError>)
        requires
            old(self).wf(),
            size <= 0x8000_0000_0000_0000,
            old(self).spec_stats().total_allocations < u64::MAX,
            match reuse_of(*old(self), rounded(size, old(self).spec_min_alloc())) {
                Some(v) => old(self).spec_stats().cache_hits < u64::MAX,
                None => old(self).spec_stats().cache_misses < u64::MAX
                    && old(self).spec_stats().total_bytes_allocated + rounded(
                    size,
                    old(self).spec_min_alloc(),
                ) <= u64::MAX,
            },
        ensures
            final(self).wf(),
            final(self).spec_max_size() == old(self).spec_max_size(),
            final(self).spec_min_alloc() == old(self).spec_min_alloc(),
            final(self).spec_device().spec_index() == old(self).spec_device().spec_index(),
            final(self).spec_device().spec_info() == old(self).spec_device().spec_info(),
            final(self).spec_stats().bytes_in_use <= final(self).spec_max_size(),
            reuse_of(*old(self), rounded(size, old(self).spec_min_alloc())) matches Some(v)
                ==> hit_outcome(*old(self), *final(self), r, size, v),
            reuse_of(*old(self), rounded(size, old(self).spec_min_alloc())) is None
                ==> miss_outcome(
                *old(self),
                *final(self),
                r,
                size,
                rounded(size, old(self).spec_min_alloc()),
            ),
    {
        let rounded_size = self.round_size(size);
        match self.find_fit(rounded_size) {
            Some(i) => {
                proof {
                    lemma_fit(self.sizes(), rounded_size as nat, i as int);
                }
                if self.free_blocks[i].size() <= self.max_size - self.stats.bytes_in_use {
                    Ok(self.allocate_cached(i, size))
                } else {
                    self.allocate_new(size, rounded_size)
                }
            },
            None => {
                proof {
                    lemma_no_fit(self.sizes(), rounded_size as nat);
                }
                self.allocate_new(size, rounded_size)
            },
        }
    }

    /// Reuse the cached block at `i`.
    fn allocate_cached(&mut self, i: usize, size: u64) -> (r: PooledMemory)
        requires
            old(self).wf(),
            i < old(self).sizes().len(),
            old(self).stats.total_allocations < u64::MAX,
            old(self).stats.cache_hits < u64::MAX,
            old(self).stats.bytes_in_use + old(self).sizes()[i as int] <= old(self).max_size,
        ensures
            final(self).wf(),
            r.spec_requested() == size,
            r.spec_memory() matches Some(m) && m.spec_size() == old(self).sizes()[i as int]
                && m.spec_device() == old(self).device.spec_index(),
            final(self).cached() == old(self).cached().remove(old(self).sizes()[i as int]),
            final(self).stats == (PoolStats {
                total_allocations: (old(self).stats.total_allocations + 1) as u64,
                cache_hits: (old(self).stats.cache_hits + 1) as u64,
                bytes_in_use: (old(self).stats.bytes_in_use + old(self).sizes()[i as int]) as u64,
                bytes_cached: (old(self).stats.bytes_cached - old(self).sizes()[i as int]) as u64,
                ..old(self).stats
            }),
            final(self).device == old(self).device,
            final(self).max_size == old(self).max_size,
            final(self).min_alloc_size == old(self).min_alloc_size,
    {
        proof {
            lemma_seq_sum_bound(self.sizes(), i as int);
        }
        let memory = self.take_block(i);
        self.stats.total_allocations = self.stats.total_allocations + 1;
        self.stats.cache_hits = self.stats.cache_hits + 1;
        self.stats.bytes_in_use = self.stats.bytes_in_use + memory.size();
        PooledMemory { memory: Some(memory), requested_size: size }
    }

    /// Allocate a new block of `need` bytes from the device; when that
    /// would take the bytes in use past the maximum, trim the cache and
    /// refuse instead.
    #[verifier::rlimit(40)]
    fn allocate_new(&mut self, size: u64, need: u64) -> (r: Result<PooledMemory, CudaError>)
        requires
            old(self).wf(),
            old(self).stats.total_allocations < u64::MAX,
            old(self).stats.cache_misses < u64::MAX,
            old(self).stats.total_bytes_allocated + need <= u64::MAX,
        ensures
            final(self).wf(),
            final(self).max_size == old(self).max_size,
            final(self).min_alloc_size == old(self).min_alloc_size,
            final(self).device.spec_index() == old(self).device.spec_index(),
            final(self).device.spec_info() == old(self).device.spec_info(),
            miss_outcome(*old(self), *final(self), r, size, need as nat),
    {
        self.stats.total_allocations = self.stats.total_allocations + 1;
        self.stats.cache_misses = self.stats.cache_misses + 1;
        if need > self.max_size - self.stats.bytes_in_use {
            let in_use = self.stats.bytes_in_use;
            match self.trim(need) {
                Ok(()) => {},
                Err(e) => {
                    return Err(e);
                },
            }
            return Err(CudaError::PoolError(limit_text(in_use, need, self.max_size)));
        }
        let memory = match DeviceMemory::allocate(&mut self.device, need) {
            Ok(m) => m,
            Err(e) => {
                return Err(e);
            },
        };
        self.stats.total_bytes_allocated = self.stats.total_bytes_allocated + need;
        self.stats.bytes_in_use = self.stats.bytes_in_use + need;
        Ok(PooledMemory { memory: Some(memory), requested_size: size })
    }

    /// Return pooled memory to the pool: its block, unless taken, joins
    /// the cache and its bytes move from in use to cached.
    pub fn release(&mut self, pooled: PooledMemory)
        requires
            old(self).wf(),
            pooled.spec_memory() matches Some(m) ==> m.spec_device() == old(self).spec_device().spec_index()
                && m.spec_size() <= old(self).spec_stats().bytes_in_use,
        ensures
            final(self).wf(),
            final(self).spec_max_size() == old(self).spec_max_size(),
            final(self).spec_min_alloc() == old(self).spec_min_alloc(),
            final(self).spec_device() == old(self).spec_device(),
            match pooled.spec_memory() {
                Some(m) => final(self).cached() == old(self).cached().insert(m.spec_size())
                    && final(self).spec_stats() == (PoolStats {
                    bytes_in_use: (old(self).spec_stats().bytes_in_use - m.spec_size()) as u64,
                    bytes_cached: (old(self).spec_stats().bytes_cached + m.spec_size()) as u64,
                    ..old(self).spec_stats()
                }),
                None => final(self).cached() == old(self).cached() && final(self).spec_stats()
                    == old(self).spec_stats(),
            },
    {
        match pooled.memory {
            Some(memory) => {
                let size = memory.size();
                let ghost before = self.sizes();
                self.stats.bytes_in_use = self.stats.bytes_in_use - size;
                self.stats.bytes_cached = self.stats.bytes_cached + size;
                self.free_blocks.push(memory);
                proof {
                    assert(self.sizes() =~= before.push(size));
                    assert(self.sizes().drop_last() =~= before);
                }
            },
            None => {},
        }
    }

    /// Drop every cached block, giving it back to the device.
    pub fn clear_cache(&mut self)
        requires
            old(self).wf(),
        ensures
            final(self).wf(),
            final(self).cached().len() == 0,
            final(self).spec_stats() == (PoolStats { bytes_cached: 0, ..old(self).spec_stats() }),
            final(self).spec_device().allocated() == old(self).spec_device().allocated()
                - old(self).spec_stats().bytes_cached,
            final(self).spec_device().spec_index() == old(self).spec_device().spec_index(),
            final(self).spec_device().spec_info() == old(self).spec_device().spec_info(),
            final(self).spec_max_size() == old(self).spec_max_size(),
            final(self).spec_min_alloc() == old(self).spec_min_alloc(),
    {
        let ghost start = self.stats;
        let ghost dev0 = self.device.allocated();
        while self.free_blocks.len() > 0
            invariant
                self.wf(),
                self.stats == (PoolStats { bytes_cached: self.stats.bytes_cached, ..start }),
                dev0 - self.device.allocated() == start.bytes_cached - self.stats.bytes_cached,
                self.device.spec_index() == old(self).device.spec_index(),
                self.device.spec_info() == old(self).device.spec_info(),
                self.max_size == old(self).max_size,
                self.min_alloc_size == old(self).min_alloc_size,
            decreases self.free_blocks@.len(),
        {
            let last = self.free_blocks.len() - 1;
            let m = self.take_block(last);
            m.release(&mut self.device);
        }
        proof {
            assert(self.sizes() =~= Seq::<u64>::empty());
        }
    }
}

/// The message of a request refused at the pool's size limit.
fn limit_text(in_use: u64, requested: u64, maximum: u64) -> (r: String)
    ensures
        r@ == limit_message(in_use as nat, requested as nat, maximum as nat),
{
    let mut msg = String::new();
    proof {
        reveal_strlit("Pool size limit exceeded: in use ");
        reveal_strlit(", requested ");
        reveal_strlit(", maximum ");
    }
    msg.append("Pool size limit exceeded: in use ");
    push_decimal(&mut msg, in_use);
    msg.append(", requested ");
    push_decimal(&mut msg, requested);
    msg.append(", maximum ");
    push_decimal(&mut msg, maximum);
    msg
}

/// The maximum pool size bounds the bytes in use: in every pool reached
/// from a constructor through the pool's operations, the bytes in use are
/// at most the maximum.
pub proof fn law_in_use_within_max(p: MemoryPool)
    requires
        p.wf(),
    ensures
        p.spec_stats().bytes_in_use <= p.spec_max_size(),
{
}

proof fn lemma_two_to_63(e: nat)
    requires
        e <= 62,
    ensures
        two_to(e) <= 0x4000_0000_0000_0000,
    decreases 62 - e,
{
    if e < 62 {
        lemma_two_to_63(e + 1);
    } else {
        lemma_two_to_value_62();
    }
}

proof fn lemma_two_to_value_62()
    ensures
        two_to(62) == 0x4000_0000_0000_0000,
{
    reveal_with_fuel(two_to, 63);
}

} // verus!
