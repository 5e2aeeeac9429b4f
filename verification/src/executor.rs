//! State executor: carries out state decisions on the physical buffers that
//! hold each state.
//!
//! The executor owns the state manager (the logical books), the physical
//! buffer of each state (a device buffer, a host buffer, or the path of a
//! backing file on NVMe), the device, and counters of what it did. A move
//! between two of HBM, DRAM and NVMe allocates the buffer at the target,
//! puts it in place of the state's buffer (a replaced device buffer gives
//! its memory back to the device), and sets the state's location. A move
//! between any other two locations sets the location and leaves the
//! buffers as they are.

use vstd::prelude::*;
use crate::buffer::{bytes_of, product_fits, shape_product, shape_to_vec, CpuBuffer, GpuBuffer};
use crate::cuda_error::CudaError;
use crate::decision::{ExecutionPlan, StateDecision};
use crate::device::CudaDevice;
use crate::execution::ExecutorError;
use crate::state::ExecutionState;
use crate::state_manager::{
    all_bytes, lemma_all_bytes_nonneg, lemma_all_bytes_relocated, lemma_held_finite, lemma_tier_room, relocated, tier_total,
    StateManager,
};
use crate::types::{Action, DType, Location, StateId};

verus! {

/// Where a state's data physically lives.
#[derive(Debug)]
pub enum PhysicalBuffer {
    /// On the device.
    Gpu(GpuBuffer),
    /// In host memory.
    Cpu(CpuBuffer),
    /// In a backing file on NVMe, by its path.
    Nvme(String),
}

impl PhysicalBuffer {
    /// Bytes held: a buffer's memory size, 0 for a backing file.
    pub open spec fn spec_size(&self) -> u64 {
        match self {
            PhysicalBuffer::Gpu(b) => b.spec_memory().spec_size(),
            PhysicalBuffer::Cpu(b) => b.spec_memory().spec_size(),
            PhysicalBuffer::Nvme(_) => 0,
        }
    }

    /// Size in bytes (0 for a backing file, whose size is not looked up).
    pub fn size_bytes(&self) -> (r: u64)
        ensures
            r == self.spec_size(),
    {
        match self {
            PhysicalBuffer::Gpu(b) => b.size_bytes(),
            PhysicalBuffer::Cpu(b) => b.size_bytes(),
            PhysicalBuffer::Nvme(_) => 0,
        }
    }
}

/// Executor statistics. Counters do not wrap: the operations that raise
/// them require room.
#[derive(Debug, Clone, Copy, PartialEq, Eq, Structural)]
pub struct ExecutorStats {
    pub actions_executed: u64,
    pub moves_completed: u64,
    pub recomputes_completed: u64,
    pub evictions_completed: u64,
    pub bytes_transferred: u64,
    pub errors: u64,
}

impl ExecutorStats {
    /// All counters at zero.
    pub open spec fn spec_zero() -> ExecutorStats {
        ExecutorStats {
            actions_executed: 0,
            moves_completed: 0,
            recomputes_completed: 0,
            evictions_completed: 0,
            bytes_transferred: 0,
            errors: 0,
        }
    }
}

impl Default for ExecutorStats {
    fn default() -> (r: Self)
        ensures
            r == ExecutorStats::spec_zero(),
    {
        ExecutorStats {
            actions_executed: 0,
            moves_completed: 0,
            recomputes_completed: 0,
            evictions_completed: 0,
            bytes_transferred: 0,
            errors: 0,
        }
    }
}

// =============================================================================
// The rules of a move
// =============================================================================

/// The moves the executor carries out: between any two of HBM, DRAM and
/// NVMe.
pub open spec fn move_path_supported(from: Location, to: Location) -> bool {
    ||| from == Location::Hbm && to == Location::Dram
    ||| from == Location::Dram && to == Location::Hbm
    ||| from == Location::Hbm && to == Location::Nvme
    ||| from == Location::Nvme && to == Location::Hbm
    ||| from == Location::Dram && to == Location::Nvme
    ||| from == Location::Nvme && to == Location::Dram
}

/// The complaint when the state's buffer is not where the move reads from:
/// a move out of HBM into DRAM reads a device buffer, one out of DRAM into
/// HBM a host buffer, one out of NVMe into HBM or DRAM a backing file.
pub open spec fn source_mismatch(from: Location, to: Location, buf: PhysicalBuffer) -> Option<
    Seq<char>,
> {
    if from == Location::Hbm && to == Location::Dram && !(buf is Gpu) {
        Some("Source not on GPU"@)
    } else if from == Location::Dram && to == Location::Hbm && !(buf is Cpu) {
        Some("Source not on CPU"@)
    } else if from == Location::Nvme && (to == Location::Hbm || to == Location::Dram) && !(
    buf is Nvme) {
        Some("Source not on NVMe"@)
    } else {
        None
    }
}

/// The data type and shape a move allocates with: those of the source
/// buffer, or of the state when it comes from a backing file.
pub open spec fn move_layout(buf: PhysicalBuffer, s: ExecutionState) -> (DType, Seq<usize>) {
    match buf {
        PhysicalBuffer::Gpu(b) => (b.spec_dtype(), b.spec_shape()),
        PhysicalBuffer::Cpu(b) => (b.spec_dtype(), b.spec_shape()),
        PhysicalBuffer::Nvme(_) => (s.dtype, s.shape@),
    }
}

/// Bytes of a buffer with this data type and shape.
pub open spec fn layout_bytes(l: (DType, Seq<usize>)) -> int {
    bytes_of(shape_product(l.1), l.0)
}

/// A buffer of this data type and shape can be sized without overflow.
pub open spec fn layout_fits(l: (DType, Seq<usize>)) -> bool {
    product_fits(l.1) && layout_bytes(l) <= usize::MAX
}

/// The backing file of a state moved to NVMe.
pub open spec fn nvme_path(k: Seq<char>) -> Seq<char> {
    "/tmp/aether/state_"@ + k + ".bin"@
}

/// The buffer a move leaves in place at `target`: a host buffer or a device
/// buffer of the given layout, holding no state, or the state's backing
/// file.
pub open spec fn placed_buffer(
    b: Option<PhysicalBuffer>,
    target: Location,
    l: (DType, Seq<usize>),
    k: Seq<char>,
    device: i32,
) -> bool {
    match target {
        Location::Hbm => b matches Some(PhysicalBuffer::Gpu(g)) && g.spec_state_id() is None
            && g.spec_dtype() == l.0 && g.spec_shape() == l.1 && g.spec_memory().spec_size()
            == layout_bytes(l) && g.spec_memory().spec_device() == device,
        Location::Dram => b matches Some(PhysicalBuffer::Cpu(c)) && c.spec_state_id() is None
            && c.spec_dtype() == l.0 && c.spec_shape() == l.1 && c.spec_memory().spec_size()
            == layout_bytes(l),
        _ => b matches Some(PhysicalBuffer::Nvme(p)) && p@ == nvme_path(k),
    }
}

/// Device bytes after a replaced buffer is dropped: a device buffer gives
/// its memory back.
pub open spec fn after_drop(allocated: u64, buf: PhysicalBuffer) -> u64 {
    match buf {
        PhysicalBuffer::Gpu(g) => if allocated >= g.spec_memory().spec_size() {
            (allocated - g.spec_memory().spec_size()) as u64
        } else {
            0
        },
        _ => allocated,
    }
}

// =============================================================================
// Entries
// =============================================================================

/// Some entry is for `k`.
pub open spec fn has_entry(s: Seq<(StateId, PhysicalBuffer)>, k: Seq<char>) -> bool {
    exists|i: int| 0 <= i < s.len() && #[trigger] s[i].0@ == k
}

/// The buffer of the entry for `k`, if any.
pub open spec fn entry_for(s: Seq<(StateId, PhysicalBuffer)>, k: Seq<char>) -> Option<
    PhysicalBuffer,
> {
    if has_entry(s, k) {
        Some(s[choose|i: int| 0 <= i < s.len() && #[trigger] s[i].0@ == k].1)
    } else {
        None
    }
}

/// No two entries are for the same state.
pub open spec fn keys_unique(s: Seq<(StateId, PhysicalBuffer)>) -> bool {
    forall|i: int, j: int| 0 <= i < j < s.len() ==> s[i].0@ != s[j].0@
}

/// With unique keys, an entry is what its key finds.
proof fn lemma_entry_at(s: Seq<(StateId, PhysicalBuffer)>, i: int)
    requires
        keys_unique(s),
        0 <= i < s.len(),
    ensures
        entry_for(s, s[i].0@) == Some(s[i].1),
{
    assert(has_entry(s, s[i].0@));
    let j = choose|j: int| 0 <= j < s.len() && #[trigger] s[j].0@ == s[i].0@;
    assert(j == i);
}

/// Putting a new buffer in place of entry `i`, under the same key, changes
/// what that key finds and nothing else.
proof fn lemma_entry_update(s: Seq<(StateId, PhysicalBuffer)>, i: int, e: (StateId, PhysicalBuffer))
    requires
        keys_unique(s),
        0 <= i < s.len(),
        e.0@ == s[i].0@,
    ensures
        keys_unique(s.update(i, e)),
        entry_for(s.update(i, e), e.0@) == Some(e.1),
        forall|k: Seq<char>| k != e.0@ ==> #[trigger] entry_for(s.update(i, e), k) == entry_for(s, k),
{
    let t = s.update(i, e);
    assert forall|a: int, b: int| 0 <= a < b < t.len() implies t[a].0@ != t[b].0@ by {
        assert(s[a].0@ != s[b].0@);
    }
    lemma_entry_at(t, i);
    assert forall|k: Seq<char>| k != e.0@ implies #[trigger] entry_for(t, k) == entry_for(s, k) by {
        if has_entry(s, k) {
            let a = choose|a: int| 0 <= a < s.len() && #[trigger] s[a].0@ == k;
            assert(t[a] == s[a]);
            lemma_entry_at(s, a);
            lemma_entry_at(t, a);
        } else if has_entry(t, k) {
            let a = choose|a: int| 0 <= a < t.len() && #[trigger] t[a].0@ == k;
            assert(s[a] == t[a]);
        }
    }
}

/// Dropping entry `i` leaves its key with no entry and every other key as
/// it was.
proof fn lemma_entry_remove(s: Seq<(StateId, PhysicalBuffer)>, i: int)
    requires
        keys_unique(s),
        0 <= i < s.len(),
    ensures
        keys_unique(s.remove(i)),
        entry_for(s.remove(i), s[i].0@) is None,
        forall|k: Seq<char>| k != s[i].0@ ==> #[trigger] entry_for(s.remove(i), k) == entry_for(s, k),
{
    let t = s.remove(i);
    assert forall|a: int, b: int| 0 <= a < b < t.len() implies t[a].0@ != t[b].0@ by {
        let a2 = if a < i { a } else { a + 1 };
        let b2 = if b < i { b } else { b + 1 };
        assert(t[a] == s[a2] && t[b] == s[b2]);
        assert(s[a2].0@ != s[b2].0@);
    }
    if has_entry(t, s[i].0@) {
        let a = choose|a: int| 0 <= a < t.len() && #[trigger] t[a].0@ == s[i].0@;
        let a2 = if a < i { a } else { a + 1 };
        assert(t[a] == s[a2]);
    }
    assert forall|k: Seq<char>| k != s[i].0@ implies #[trigger] entry_for(t, k) == entry_for(s, k) by {
        if has_entry(s, k) {
            let a = choose|a: int| 0 <= a < s.len() && #[trigger] s[a].0@ == k;
            assert(a != i);
            let a1 = if a < i { a } else { a - 1 };
            assert(t[a1] == s[a]);
            lemma_entry_at(s, a);
            lemma_entry_at(t, a1);
        } else if has_entry(t, k) {
            let a = choose|a: int| 0 <= a < t.len() && #[trigger] t[a].0@ == k;
            let a2 = if a < i { a } else { a + 1 };
            assert(s[a2] == t[a]);
        }
    }
}

// =============================================================================
// Helpers
// =============================================================================

/// The backing-file path of a state.
fn nvme_path_text(id: &StateId) -> (r: String)
    ensures
        r@ == nvme_path(id@),
{
    proof {
        reveal_strlit("/tmp/aether/state_");
        reveal_strlit(".bin");
    }
    let mut s = String::new();
    s.append("/tmp/aether/state_");
    s.append(id.0.as_str());
    s.append(".bin");
    s
}

/// Whether the executor connects two locations.
fn path_supported(from: Location, to: Location) -> (r: bool)
    ensures
        r == move_path_supported(from, to),
{
    match (from, to) {
        (Location::Hbm, Location::Dram) => true,
        (Location::Dram, Location::Hbm) => true,
        (Location::Hbm, Location::Nvme) => true,
        (Location::Nvme, Location::Hbm) => true,
        (Location::Dram, Location::Nvme) => true,
        (Location::Nvme, Location::Dram) => true,
        _ => false,
    }
}

/// Checks that the buffer is where the move reads from.
fn check_source(from: Location, to: Location, buf: &PhysicalBuffer) -> (r: Result<(), String>)
    ensures
        r is Ok == source_mismatch(from, to, *buf) is None,
        r matches Err(m) ==> source_mismatch(from, to, *buf) == Some(m@),
{
    proof {
        reveal_strlit("Source not on GPU");
        reveal_strlit("Source not on CPU");
        reveal_strlit("Source not on NVMe");
    }
    let is_gpu = match buf {
        PhysicalBuffer::Gpu(_) => true,
        _ => false,
    };
    let is_cpu = match buf {
        PhysicalBuffer::Cpu(_) => true,
        _ => false,
    };
    let is_nvme = match buf {
        PhysicalBuffer::Nvme(_) => true,
        _ => false,
    };
    if from == Location::Hbm && to == Location::Dram && !is_gpu {
        Err(String::from_str("Source not on GPU"))
    } else if from == Location::Dram && to == Location::Hbm && !is_cpu {
        Err(String::from_str("Source not on CPU"))
    } else if from == Location::Nvme && (to == Location::Hbm || to == Location::Dram) && !is_nvme {
        Err(String::from_str("Source not on NVMe"))
    } else {
        Ok(())
    }
}

/// The data type and shape a move allocates with.
fn layout_of(buf: &PhysicalBuffer, s: &ExecutionState) -> (r: (DType, Vec<usize>))
    ensures
        r.0 == move_layout(*buf, *s).0,
        r.1@ == move_layout(*buf, *s).1,
{
    match buf {
        PhysicalBuffer::Gpu(b) => (b.dtype(), shape_to_vec(b.shape())),
        PhysicalBuffer::Cpu(b) => (b.dtype(), shape_to_vec(b.shape())),
        PhysicalBuffer::Nvme(_) => (s.dtype, shape_to_vec(s.shape.as_slice())),
    }
}

// =============================================================================
// The executor
// =============================================================================

/// Carries out state decisions on physical buffers.
pub struct StateExecutor {
    /// The logical books.
    state_manager: StateManager,
    /// The physical buffer of each state, one entry per state.
    buffers: Vec<(StateId, PhysicalBuffer)>,
    /// The device.
    device: CudaDevice,
    /// Statistics.
    stats: ExecutorStats,
}

impl StateExecutor {
    /// The state manager.
    pub closed spec fn manager(&self) -> StateManager {
        self.state_manager
    }

    /// The physical buffer of the state with identifier text `k`, if any.
    pub closed spec fn buffer(&self, k: Seq<char>) -> Option<PhysicalBuffer> {
        entry_for(self.buffers@, k)
    }

    /// The statistics.
    pub closed spec fn spec_stats(&self) -> ExecutorStats {
        self.stats
    }

    /// The device.
    pub closed spec fn spec_device(&self) -> CudaDevice {
        self.device
    }

    /// Invariant: the state manager's own, and one buffer entry per state.
    pub closed spec fn wf(&self) -> bool {
        &&& self.state_manager.wf()
        &&& keys_unique(self.buffers@)
    }

    /// `a` is well formed and keeps the books, buffers and device bytes of
    /// `b`.
    pub open spec fn same_but_stats(a: &StateExecutor, b: &StateExecutor) -> bool {
        &&& a.wf()
        &&& a.manager() == b.manager()
        &&& forall|k: Seq<char>| #[trigger] a.buffer(k) == b.buffer(k)
        &&& a.spec_device().allocated() == b.spec_device().allocated()
    }

    /// Nothing the executor keeps differs between `a` and `b`.
    pub open spec fn unchanged(a: &StateExecutor, b: &StateExecutor) -> bool {
        &&& Self::same_but_stats(a, b)
        &&& a.spec_stats() == b.spec_stats()
    }

    /// `e` with its statistics replaced by `st`.
    pub closed spec fn restat(e: StateExecutor, st: ExecutorStats) -> StateExecutor {
        StateExecutor { stats: st, ..e }
    }

    /// Replacing the statistics changes nothing else.
    pub proof fn lemma_restat(e: StateExecutor, st: ExecutorStats)
        ensures
            Self::restat(e, st).spec_stats() == st,
            Self::restat(e, st).manager() == e.manager(),
            Self::restat(e, st).spec_device() == e.spec_device(),
            forall|k: Seq<char>| #[trigger] Self::restat(e, st).buffer(k) == e.buffer(k),
            Self::restat(e, st).wf() == e.wf(),
    {
    }

    /// `after` with its action and error counts put back to those of
    /// `before`: what the decision itself did.
    pub open spec fn core_of(before: &StateExecutor, after: &StateExecutor) -> StateExecutor {
        Self::restat(
            *after,
            ExecutorStats {
                actions_executed: before.spec_stats().actions_executed,
                errors: before.spec_stats().errors,
                ..after.spec_stats()
            },
        )
    }

    /// An eviction of `id`: its buffer (if any) is dropped, a registered
    /// state's location becomes `Evicted`, and the eviction is counted.
    pub open spec fn evict_outcome(before: &StateExecutor, after: &StateExecutor, id: StateId) -> bool {
        let k = id@;
        let held = before.manager().held();
        &&& after.wf()
        &&& after.manager().held() == (if held.contains_key(k) {
            relocated(held, k, Location::Evicted)
        } else {
            held
        })
        &&& after.manager().capacities() == before.manager().capacities()
        &&& after.manager().counters() == before.manager().counters()
        &&& after.buffer(k) is None
        &&& forall|j: Seq<char>| j != k ==> #[trigger] after.buffer(j) == before.buffer(j)
        &&& after.spec_device().allocated() == match before.buffer(k) {
            Some(b) => after_drop(before.spec_device().allocated(), b),
            None => before.spec_device().allocated(),
        }
        &&& after.spec_stats() == (ExecutorStats {
            evictions_completed: (before.spec_stats().evictions_completed + 1) as u64,
            ..before.spec_stats()
        })
    }

    /// What a decision does: its action's effect, then one more action
    /// counted and, when it failed, one more error.
    pub open spec fn decision_outcome(
        before: &StateExecutor,
        after: &StateExecutor,
        d: StateDecision,
        r: Result<(), ExecutorError>,
    ) -> bool {
        let core = Self::core_of(before, after);
        &&& after.spec_stats().actions_executed == before.spec_stats().actions_executed + 1
        &&& after.spec_stats().errors == before.spec_stats().errors + (if r is Err {
            1int
        } else {
            0int
        })
        &&& match d.action {
            Action::Move | Action::Prefetch => match d.target_location {
                None => (r matches Err(ExecutorError::InvalidAction(m)) && m@
                    == "MOVE requires target_location"@) && Self::unchanged(&core, before),
                Some(t) => Self::move_outcome(before, &core, d.state_id, t, r),
            },
            Action::Recompute => r is Ok && Self::same_but_stats(&core, before) && core.spec_stats()
                == (ExecutorStats {
                recomputes_completed: (before.spec_stats().recomputes_completed + 1) as u64,
                ..before.spec_stats()
            }),
            Action::Evict => r is Ok && Self::evict_outcome(before, &core, d.state_id),
            _ => r is Ok && Self::unchanged(&core, before),
        }
    }

    /// The books after a move of the registered state `id` to `target`:
    /// its location is the target, and the move and its bytes are counted.
    pub open spec fn moved_books(before: &StateExecutor, after: &StateExecutor, id: StateId, target: Location) -> bool {
        let held = before.manager().held();
        &&& after.wf()
        &&& after.manager().held() == relocated(held, id@, target)
        &&& after.manager().capacities() == before.manager().capacities()
        &&& after.manager().counters() == before.manager().counters()
        &&& after.spec_stats() == (ExecutorStats {
            moves_completed: (before.spec_stats().moves_completed + 1) as u64,
            bytes_transferred: (before.spec_stats().bytes_transferred + held[id@].size_bytes) as u64,
            ..before.spec_stats()
        })
    }

    /// What a move of `id` to `target` does, on each input.
    pub open spec fn move_outcome(
        before: &StateExecutor,
        after: &StateExecutor,
        id: StateId,
        target: Location,
        r: Result<(), ExecutorError>,
    ) -> bool {
        let k = id@;
        let held = before.manager().held();
        if !held.contains_key(k) {
            r == Err::<(), ExecutorError>(ExecutorError::StateNotFound(id)) && Self::unchanged(
                after,
                before,
            )
        } else if before.buffer(k) is None {
            r == Err::<(), ExecutorError>(ExecutorError::BufferNotFound(id)) && Self::unchanged(
                after,
                before,
            )
        } else {
            let s = held[k];
            let buf = before.buffer(k).unwrap();
            let layout = move_layout(buf, s);
            let dev = before.spec_device();
            if !move_path_supported(s.location, target) {
                &&& r is Ok
                &&& Self::moved_books(before, after, id, target)
                &&& forall|j: Seq<char>| #[trigger] after.buffer(j) == before.buffer(j)
                &&& after.spec_device().allocated() == dev.allocated()
            } else if source_mismatch(s.location, target, buf) is Some {
                (r matches Err(ExecutorError::InvalidAction(m)) && Some(m@) == source_mismatch(
                    s.location,
                    target,
                    buf,
                )) && Self::unchanged(after, before)
            } else if target == Location::Hbm && layout_bytes(layout) > dev.spec_free() {
                (r matches Err(ExecutorError::CudaError(m)) && m@ == (CudaError::OutOfMemory {
                    requested: layout_bytes(layout) as u64,
                    available: dev.spec_free(),
                }).message_spec()) && Self::unchanged(after, before)
            } else {
                &&& r is Ok
                &&& Self::moved_books(before, after, id, target)
                &&& placed_buffer(after.buffer(k), target, layout, k, dev.spec_index())
                &&& forall|j: Seq<char>| j != k ==> #[trigger] after.buffer(j) == before.buffer(j)
                &&& after.spec_device().allocated() == if target == Location::Hbm {
                    (dev.allocated() + layout_bytes(layout)) as u64
                } else {
                    after_drop(dev.allocated(), buf)
                }
            }
        }
    }

    /// The room a move of `id` to `target` needs: its counters and the
    /// target tier's usage do not overflow, and a buffer it allocates can
    /// be sized.
    pub open spec fn move_fits(&self, id: StateId, target: Location) -> bool {
        let held = self.manager().held();
        let k = id@;
        held.contains_key(k) ==> {
            let s = held[k];
            &&& self.spec_stats().moves_completed < u64::MAX
            &&& self.spec_stats().bytes_transferred + s.size_bytes <= u64::MAX
            &&& target.spec_is_materialized() && s.location != target ==> tier_total(held, target)
                + s.size_bytes <= u64::MAX
            &&& (target == Location::Hbm || target == Location::Dram) ==> (self.buffer(k) matches Some(
                buf,
            ) ==> layout_fits(move_layout(buf, s)))
        }
    }

    /// An executor over a state manager and a device, with no buffers.
    pub fn new(state_manager: StateManager, device: CudaDevice) -> (r: Self)
        requires
            state_manager.wf(),
        ensures
            r.wf(),
            r.manager() == state_manager,
            r.spec_device() == device,
            r.spec_stats() == ExecutorStats::spec_zero(),
            forall|k: Seq<char>| #[trigger] r.buffer(k) is None,
    {
        StateExecutor { state_manager, buffers: Vec::new(), device, stats: ExecutorStats::default() }
    }

    /// Index of the entry for a state.
    fn find(&self, id: &StateId) -> (r: Option<usize>)
        requires
            self.wf(),
        ensures
            r matches Some(i) ==> i < self.buffers@.len() && self.buffers@[i as int].0@ == id@
                && self.buffer(id@) == Some(self.buffers@[i as int].1),
            r is None ==> self.buffer(id@) is None,
    {
        let mut i: usize = 0;
        while i < self.buffers.len()
            invariant
                self.wf(),
                i <= self.buffers@.len(),
                forall|j: int| 0 <= j < i ==> self.buffers@[j].0@ != id@,
            decreases self.buffers@.len() - i,
        {
            if self.buffers[i].0.same(id) {
                proof {
                    lemma_entry_at(self.buffers@, i as int);
                }
                return Some(i);
            }
            i = i + 1;
        }
        None
    }

    /// Register the physical buffer of a state, in place of any it had.
    pub fn register_buffer(&mut self, state_id: StateId, buffer: PhysicalBuffer)
        requires
            old(self).wf(),
        ensures
            final(self).wf(),
            final(self).buffer(state_id@) == Some(buffer),
            forall|j: Seq<char>| j != state_id@ ==> #[trigger] final(self).buffer(j) == old(
                self,
            ).buffer(j),
            final(self).manager() == old(self).manager(),
            final(self).spec_stats() == old(self).spec_stats(),
            final(self).spec_device() == old(self).spec_device(),
    {
        let ghost k = state_id@;
        match self.find(&state_id) {
            Some(i) => {
                let ghost before = self.buffers@;
                let e = (state_id, buffer);
                let _replaced = self.buffers.remove(i);
                self.buffers.insert(i, e);
                proof {
                    assert(self.buffers@ =~= before.update(i as int, e));
                    lemma_entry_update(before, i as int, e);
                }
            },
            None => {
                let ghost before = self.buffers@;
                let e = (state_id, buffer);
                self.buffers.push(e);
                proof {
                    let t = self.buffers@;
                    assert(t =~= before.push(e));
                    assert forall|a: int, b: int| 0 <= a < b < t.len() implies t[a].0@ != t[b].0@ by {
                        if b == t.len() - 1 {
                            assert(t[a] == before[a]);
                            assert(!(before[a].0@ == k) || has_entry(before, k));
                        }
                    }
                    lemma_entry_at(t, t.len() - 1);
                    assert forall|j: Seq<char>| j != k implies #[trigger] entry_for(t, j) == entry_for(
                        before,
                        j,
                    ) by {
                        if has_entry(before, j) {
                            let a = choose|a: int| 0 <= a < before.len() && #[trigger] before[a].0@ == j;
                            assert(t[a] == before[a]);
                            lemma_entry_at(before, a);
                            lemma_entry_at(t, a);
                        } else if has_entry(t, j) {
                            let a = choose|a: int| 0 <= a < t.len() && #[trigger] t[a].0@ == j;
                            assert(a < before.len());
                            assert(before[a] == t[a]);
                        }
                    }
                }
            },
        }
    }

    /// The physical buffer of a state, if registered.
    pub fn get_buffer(&self, state_id: &StateId) -> (r: Option<&PhysicalBuffer>)
        requires
            self.wf(),
        ensures
            r matches Some(b) ==> self.buffer(state_id@) == Some(*b),
            r is None ==> self.buffer(state_id@) is None,
    {
        match self.find(state_id) {
            Some(i) => Some(&self.buffers[i].1),
            None => None,
        }
    }

    /// The device buffer of a state, if its buffer is on the device.
    pub fn get_gpu_buffer(&self, state_id: &StateId) -> (r: Option<&GpuBuffer>)
        requires
            self.wf(),
        ensures
            r matches Some(b) ==> self.buffer(state_id@) == Some(PhysicalBuffer::Gpu(*b)),
            r is None ==> !(self.buffer(state_id@) matches Some(PhysicalBuffer::Gpu(_))),
    {
        match self.find(state_id) {
            Some(i) => match &self.buffers[i].1 {
                PhysicalBuffer::Gpu(b) => Some(b),
                _ => None,
            },
            None => None,
        }
    }

    /// The state manager.
    pub fn state_manager(&self) -> (r: &StateManager)
        ensures
            *r == self.manager(),
    {
        &self.state_manager
    }

    /// The device.
    pub fn device(&self) -> (r: &CudaDevice)
        ensures
            *r == self.spec_device(),
    {
        &self.device
    }

    /// Executor statistics.
    pub fn stats(&self) -> (r: ExecutorStats)
        ensures
            r == self.spec_stats(),
    {
        self.stats
    }
    /// Carry out a MOVE decision: the state's buffer is replaced by one at
    /// the target (a host or device buffer of the same layout, or a backing
    /// file), and the state's location becomes the target. Between two
    /// locations the executor does not connect, no buffer changes but the
    /// location and the move are still booked. Refused, with nothing
    /// changed, when the decision has no target, the state or its buffer is
    /// unknown, the buffer is not where the move reads from, or the device
    /// cannot hold the new buffer.
    pub fn execute_move(&mut self, decision: &StateDecision) -> (r: Result<(), ExecutorError>)
        requires
            old(self).wf(),
            decision.target_location matches Some(t) ==> old(self).move_fits(decision.state_id, t),
        ensures
            final(self).wf(),
            final(self).spec_device().spec_index() == old(self).spec_device().spec_index(),
            final(self).spec_device().spec_info() == old(self).spec_device().spec_info(),
            match decision.target_location {
                None => (r matches Err(ExecutorError::InvalidAction(m)) && m@
                    == "MOVE requires target_location"@) && Self::unchanged(final(self), old(self)),
                Some(t) => Self::move_outcome(old(self), final(self), decision.state_id, t, r),
            },
    {
        let target = match decision.target_location {
            Some(t) => t,
            None => {
                proof {
                    reveal_strlit("MOVE requires target_location");
                }
                return Err(
                    ExecutorError::InvalidAction(String::from_str("MOVE requires target_location")),
                );
            },
        };
        let state_id = &decision.state_id;
        let state = match self.state_manager.get(state_id) {
            Some(s) => s,
            None => {
                return Err(ExecutorError::StateNotFound(state_id.clone()));
            },
        };
        let i = match self.find(state_id) {
            Some(i) => i,
            None => {
                return Err(ExecutorError::BufferNotFound(state_id.clone()));
            },
        };
        let from = state.location;
        let size = state.size_bytes;
        if !path_supported(from, target) {
            self.state_manager.update_location(state_id, target);
            self.stats.moves_completed = self.stats.moves_completed + 1;
            self.stats.bytes_transferred = self.stats.bytes_transferred + size;
            return Ok(());
        }
        match check_source(from, target, &self.buffers[i].1) {
            Ok(()) => {},
            Err(m) => {
                return Err(ExecutorError::InvalidAction(m));
            },
        }
        let placed: PhysicalBuffer = if target == Location::Hbm {
            let layout = layout_of(&self.buffers[i].1, &state);
            match GpuBuffer::allocate(&mut self.device, layout.0, layout.1.as_slice()) {
                Ok(b) => PhysicalBuffer::Gpu(b),
                Err(e) => {
                    return Err(ExecutorError::CudaError(e.message()));
                },
            }
        } else if target == Location::Dram {
            let layout = layout_of(&self.buffers[i].1, &state);
            match CpuBuffer::allocate(layout.0, layout.1.as_slice()) {
                Ok(b) => PhysicalBuffer::Cpu(b),
                Err(e) => {
                    return Err(ExecutorError::CudaError(e.message()));
                },
            }
        } else {
            PhysicalBuffer::Nvme(nvme_path_text(state_id))
        };
        let ghost before = self.buffers@;
        let e = (state_id.clone(), placed);
        let replaced = self.buffers.remove(i);
        self.buffers.insert(i, e);
        proof {
            assert(self.buffers@ =~= before.update(i as int, e));
            lemma_entry_update(before, i as int, e);
        }
        match replaced.1 {
            PhysicalBuffer::Gpu(g) => g.release(&mut self.device),
            _ => {},
        }
        self.state_manager.update_location(state_id, target);
        self.stats.moves_completed = self.stats.moves_completed + 1;
        self.stats.bytes_transferred = self.stats.bytes_transferred + size;
        Ok(())
    }
    /// Carry out an EVICT decision: the state's buffer is dropped and its
    /// location becomes `Evicted`.
    fn execute_evict(&mut self, decision: &StateDecision) -> (r: Result<(), ExecutorError>)
        requires
            old(self).wf(),
            old(self).spec_stats().evictions_completed < u64::MAX,
        ensures
            r is Ok,
            Self::evict_outcome(old(self), final(self), decision.state_id),
            final(self).spec_device().spec_index() == old(self).spec_device().spec_index(),
            final(self).spec_device().spec_info() == old(self).spec_device().spec_info(),
    {
        let state_id = &decision.state_id;
        match self.find(state_id) {
            Some(i) => {
                let ghost before = self.buffers@;
                let entry = self.buffers.remove(i);
                proof {
                    lemma_entry_remove(before, i as int);
                }
                match entry.1 {
                    PhysicalBuffer::Gpu(g) => g.release(&mut self.device),
                    _ => {},
                }
            },
            None => {},
        }
        let _registered = self.state_manager.update_location(state_id, Location::Evicted);
        self.stats.evictions_completed = self.stats.evictions_completed + 1;
        Ok(())
    }

    /// Carry out a decision. KEEP, REPLICATE, APPROXIMATE and DELAY change
    /// nothing here; MOVE and PREFETCH move the state; RECOMPUTE is
    /// counted; EVICT drops the state's buffer. Every decision is counted,
    /// and every failure.
    pub fn execute_decision(&mut self, decision: &StateDecision) -> (r: Result<(), ExecutorError>)
        requires
            old(self).wf(),
            old(self).spec_stats().actions_executed < u64::MAX,
            old(self).spec_stats().errors < u64::MAX,
            decision.action is Move || decision.action is Prefetch ==> (
            decision.target_location matches Some(t) ==> old(self).move_fits(
                decision.state_id,
                t,
            )),
            decision.action is Recompute ==> old(self).spec_stats().recomputes_completed < u64::MAX,
            decision.action is Evict ==> old(self).spec_stats().evictions_completed < u64::MAX,
        ensures
            final(self).wf(),
            final(self).spec_device().spec_index() == old(self).spec_device().spec_index(),
            final(self).spec_device().spec_info() == old(self).spec_device().spec_info(),
            Self::decision_outcome(old(self), final(self), *decision, r),
    {
        let ghost start = self.stats;
        let result = match decision.action {
            Action::Move => self.execute_move(decision),
            Action::Prefetch => self.execute_move(decision),
            Action::Recompute => {
                self.stats.recomputes_completed = self.stats.recomputes_completed + 1;
                Ok(())
            },
            Action::Evict => self.execute_evict(decision),
            _ => Ok(()),
        };
        let ghost mid = *self;
        self.stats.actions_executed = self.stats.actions_executed + 1;
        if result.is_err() {
            self.stats.errors = self.stats.errors + 1;
        }
        proof {
            let core = Self::core_of(old(self), self);
            assert(core == mid);
        }
        result
    }
}



// =============================================================================
// Plans
// =============================================================================

/// A buffer's layout can be sized without overflow (a backing file has
/// none).
pub open spec fn buffer_layout_fits(b: PhysicalBuffer) -> bool {
    match b {
        PhysicalBuffer::Gpu(g) => layout_fits((g.spec_dtype(), g.spec_shape())),
        PhysicalBuffer::Cpu(c) => layout_fits((c.spec_dtype(), c.spec_shape())),
        PhysicalBuffer::Nvme(_) => true,
    }
}

impl StateExecutor {
    /// Room for `n` more decisions: each counter can rise `n` more times,
    /// the bytes moved can grow by the total size of all states `n` times,
    /// and every state's and buffer's layout can be sized.
    pub open spec fn plan_fits(&self, n: nat) -> bool {
        let held = self.manager().held();
        let st = self.spec_stats();
        &&& st.actions_executed + n <= u64::MAX
        &&& st.errors + n <= u64::MAX
        &&& st.moves_completed + n <= u64::MAX
        &&& st.recomputes_completed + n <= u64::MAX
        &&& st.evictions_completed + n <= u64::MAX
        &&& st.bytes_transferred + n * all_bytes(held) <= u64::MAX
        &&& all_bytes(held) <= u64::MAX
        &&& forall|k: Seq<char>|
            #[trigger] held.contains_key(k) ==> layout_fits((held[k].dtype, held[k].shape@))
        &&& forall|k: Seq<char>|
            #[trigger] self.buffer(k) matches Some(b) ==> buffer_layout_fits(b)
    }

    /// A run of the decisions `ds` from `trace[0]`: `trace[i + 1]` is what
    /// decision `i` left, with result `results[i]`; every result but the
    /// last is a success.
    pub open spec fn plan_run(
        trace: Seq<StateExecutor>,
        results: Seq<Result<(), ExecutorError>>,
        ds: Seq<StateDecision>,
    ) -> bool {
        &&& trace.len() == results.len() + 1
        &&& results.len() <= ds.len()
        &&& forall|i: int|
            0 <= i < results.len() ==> #[trigger] Self::decision_outcome(
                &trace[i],
                &trace[i + 1],
                ds[i],
                results[i],
            )
        &&& forall|i: int| 0 <= i < results.len() - 1 ==> (#[trigger] results[i]) is Ok
    }
}

/// With room for one more decision, the decision can be carried out.
proof fn lemma_fit_allows_decision(e: &StateExecutor, d: StateDecision, m: nat)
    requires
        e.wf(),
        e.plan_fits(m + 1),
    ensures
        e.spec_stats().actions_executed < u64::MAX,
        e.spec_stats().errors < u64::MAX,
        d.action is Move || d.action is Prefetch ==> (d.target_location matches Some(t)
            ==> e.move_fits(d.state_id, t)),
        d.action is Recompute ==> e.spec_stats().recomputes_completed < u64::MAX,
        d.action is Evict ==> e.spec_stats().evictions_completed < u64::MAX,
{
    let held = e.manager().held();
    let k = d.state_id@;
    lemma_held_finite(&e.manager());
    if let Some(t) = d.target_location {
        if held.contains_key(k) {
            lemma_tier_room(held, k, t);
            let a = all_bytes(held);
            assert(e.spec_stats().bytes_transferred + a <= u64::MAX) by (nonlinear_arith)
                requires
                    e.spec_stats().bytes_transferred + (m + 1) * a <= u64::MAX,
                    a >= 0,
            ;
            assert(layout_fits((held[k].dtype, held[k].shape@)));
        }
    }
}

/// A decision leaves room for one decision fewer.
proof fn lemma_decision_keeps_fit(
    before: &StateExecutor,
    after: &StateExecutor,
    d: StateDecision,
    r: Result<(), ExecutorError>,
    m: nat,
)
    requires
        before.wf(),
        after.wf(),
        before.plan_fits(m + 1),
        StateExecutor::decision_outcome(before, after, d, r),
    ensures
        after.plan_fits(m),
{
    let core = StateExecutor::core_of(before, after);
    let st = ExecutorStats {
        actions_executed: before.spec_stats().actions_executed,
        errors: before.spec_stats().errors,
        ..after.spec_stats()
    };
    StateExecutor::lemma_restat(*after, st);
    let held = before.manager().held();
    let k = d.state_id@;
    let a = all_bytes(held);
    lemma_held_finite(&before.manager());
    if held.contains_key(k) {
        lemma_tier_room(held, k, Location::Evicted);
        lemma_all_bytes_relocated(held, k, Location::Evicted);
        if let Some(t) = d.target_location {
            lemma_all_bytes_relocated(held, k, t);
        }
    }
    let b0 = before.spec_stats().bytes_transferred;
    let b1 = after.spec_stats().bytes_transferred;
    lemma_all_bytes_nonneg(held);
    assert(core.manager() == after.manager());
    assert(forall|j: Seq<char>| #[trigger] core.buffer(j) == after.buffer(j));
    assert(core.spec_stats() == st);
    assert(core.spec_stats().bytes_transferred == b1);
    if held.contains_key(k) {
        assert(held[k].size_bytes <= a);
        assert(b0 + a <= u64::MAX) by (nonlinear_arith)
            requires
                b0 + (m + 1) * a <= u64::MAX,
                a >= 0,
        ;
    }
    // What the decision did to the books, the bytes moved and the buffers.
    if (d.action is Move || d.action is Prefetch) && d.target_location is Some {
        let t = d.target_location.unwrap();
        assert(StateExecutor::move_outcome(before, &core, d.state_id, t, r));
        if !held.contains_key(k) || before.buffer(k) is None {
            assert(StateExecutor::unchanged(&core, before));
            assert(b1 == b0);
        } else {
            let sk = held[k];
            let buf = before.buffer(k).unwrap();
            assert(buffer_layout_fits(buf));
            assert(layout_fits(move_layout(buf, sk))) by {
                assert(held.contains_key(k));
            }
            if !move_path_supported(sk.location, t) {
                assert(StateExecutor::moved_books(before, &core, d.state_id, t));
                assert(b1 == b0 + sk.size_bytes);
            } else if source_mismatch(sk.location, t, buf) is Some || (t == Location::Hbm
                && layout_bytes(move_layout(buf, sk)) > before.spec_device().spec_free()) {
                assert(StateExecutor::unchanged(&core, before));
                assert(b1 == b0);
            } else {
                assert(StateExecutor::moved_books(before, &core, d.state_id, t));
                assert(b1 == b0 + sk.size_bytes);
                assert(buffer_layout_fits(core.buffer(k).unwrap()));
            }
        }
        assert(b1 <= b0 + a);
        assert forall|j: Seq<char>| j != k implies #[trigger] after.buffer(j) == before.buffer(j) by {
            assert(core.buffer(j) == after.buffer(j));
            assert(core.buffer(j) == before.buffer(j));
        }
        assert(after.buffer(k) is Some ==> buffer_layout_fits(after.buffer(k).unwrap()));
        assert(after.manager().held() == held || (held.contains_key(k)
            && after.manager().held() == relocated(held, k, t)));
    } else if d.action is Evict {
        assert(StateExecutor::evict_outcome(before, &core, d.state_id));
        assert(b1 == b0);
        assert forall|j: Seq<char>| j != k implies #[trigger] after.buffer(j) == before.buffer(j) by {
            assert(core.buffer(j) == after.buffer(j));
            assert(core.buffer(j) == before.buffer(j));
        }
        assert(after.buffer(k) is None);
        assert(after.manager().held() == held || (held.contains_key(k)
            && after.manager().held() == relocated(held, k, Location::Evicted)));
    } else if d.action is Recompute {
        assert(StateExecutor::same_but_stats(&core, before));
        assert(b1 == b0);
        assert forall|j: Seq<char>| #[trigger] after.buffer(j) == before.buffer(j) by {
            assert(core.buffer(j) == before.buffer(j));
        }
        assert(after.manager().held() == held);
    } else {
        assert(StateExecutor::unchanged(&core, before));
        assert(b1 == b0);
        assert forall|j: Seq<char>| #[trigger] after.buffer(j) == before.buffer(j) by {
            assert(core.buffer(j) == before.buffer(j));
        }
        assert(after.manager().held() == held);
    }
    assert(b1 + m * a <= u64::MAX) by (nonlinear_arith)
        requires
            b0 + (m + 1) * a <= u64::MAX,
            b1 <= b0 + a,
    ;
    assert(all_bytes(after.manager().held()) == a);
    assert forall|j: Seq<char>| #[trigger] after.manager().held().contains_key(j) implies layout_fits(
        (after.manager().held()[j].dtype, after.manager().held()[j].shape@),
    ) by {
        assert(held.contains_key(j));
    }
    assert forall|j: Seq<char>| #[trigger] after.buffer(j) is Some implies buffer_layout_fits(
        after.buffer(j).unwrap(),
    ) by {
        if j != k {
            assert(after.buffer(j) == before.buffer(j));
            assert(before.buffer(j) is Some);
        }
    }
}

impl StateExecutor {
    /// Carry out a plan's decisions in order, stopping at the first that
    /// fails and returning its error.
    pub fn execute_plan(&mut self, plan: &ExecutionPlan) -> (r: Result<(), ExecutorError>)
        requires
            old(self).wf(),
            old(self).plan_fits(plan.decisions@.len()),
        ensures
            final(self).wf(),
            final(self).spec_device().spec_index() == old(self).spec_device().spec_index(),
            final(self).spec_device().spec_info() == old(self).spec_device().spec_info(),
            exists|trace: Seq<StateExecutor>, results: Seq<Result<(), ExecutorError>>|
                #![trigger Self::plan_run(trace, results, plan.decisions@)]
                Self::plan_run(trace, results, plan.decisions@) && trace[0] == *old(self)
                    && trace.last() == *final(self) && (r is Ok ==> results.len()
                    == plan.decisions@.len() && forall|i: int|
                    0 <= i < results.len() ==> (#[trigger] results[i]) is Ok) && (r is Err ==> (
                results.len() > 0 && results.last() == r)),
    {
        let n = plan.decisions.len();
        let ghost trace: Seq<StateExecutor> = seq![*self];
        let ghost results: Seq<Result<(), ExecutorError>> = Seq::empty();
        let mut i: usize = 0;
        while i < n
            invariant
                self.wf(),
                n == plan.decisions@.len(),
                i <= n,
                self.plan_fits((n - i) as nat),
                self.spec_device().spec_index() == old(self).spec_device().spec_index(),
                self.spec_device().spec_info() == old(self).spec_device().spec_info(),
                Self::plan_run(trace, results, plan.decisions@),
                results.len() == i,
                trace[0] == *old(self),
                trace.last() == *self,
                forall|j: int| 0 <= j < results.len() ==> (#[trigger] results[j]) is Ok,
            decreases n - i,
        {
            let d = &plan.decisions[i];
            proof {
                lemma_fit_allows_decision(self, *d, (n - i - 1) as nat);
            }
            let ghost before = *self;
            let res = self.execute_decision(d);
            proof {
                lemma_decision_keeps_fit(&before, self, *d, res, (n - i - 1) as nat);
                let prev = trace;
                trace = trace.push(*self);
                results = results.push(res);
                assert forall|j: int| 0 <= j < results.len() implies #[trigger] Self::decision_outcome(
                    &trace[j],
                    &trace[j + 1],
                    plan.decisions@[j],
                    results[j],
                ) by {
                    if j < i {
                        assert(trace[j] == prev[j] && trace[j + 1] == prev[j + 1]);
                    }
                }
            }
            match res {
                Ok(()) => {},
                Err(e) => {
                    proof {
                        assert(Self::plan_run(trace, results, plan.decisions@));
                    }
                    return Err(e);
                },
            }
            i = i + 1;
        }
        proof {
            assert(Self::plan_run(trace, results, plan.decisions@));
        }
        Ok(())
    }
}

} // verus!
