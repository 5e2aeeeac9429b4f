//! Kernel executor: the decisions around running one operation.
//!
//! Before an operation runs, each of its inputs must have a physical
//! buffer: one already on the device is a cache hit, one elsewhere is a
//! cache miss and must be fetched to the device, and an input with no
//! buffer stops the operation. The operation's type then picks its kernel:
//! an attention operation needs the attention kernel of its layer in the
//! registry. A run yields the operation's outputs and the inputs to fetch;
//! awaiting the fetches, synchronising the stream and timing the run are
//! left to the caller.

use vstd::prelude::*;
use crate::execution::KernelError;
use crate::executor::{PhysicalBuffer, StateExecutor};
use crate::graph::Operation;
use crate::kernel_registry::{KernelId, KernelRegistry, RegisteredKernel};
use crate::text::{decimal, push_decimal};
use crate::types::{OperationType, StateId};

verus! {

/// Kernel executor statistics: operations run and the residence of their
/// inputs. Counters do not wrap: the operations that raise them require
/// room.
#[derive(Debug, Clone, Copy, PartialEq, Eq, Structural)]
pub struct KernelStats {
    pub operations_executed: u64,
    pub cache_hits: u64,
    pub cache_misses: u64,
}

impl KernelStats {
    /// All counters at zero.
    pub open spec fn spec_zero() -> KernelStats {
        KernelStats { operations_executed: 0, cache_hits: 0, cache_misses: 0 }
    }
}

impl Default for KernelStats {
    fn default() -> (r: Self)
        ensures
            r == KernelStats::spec_zero(),
    {
        KernelStats { operations_executed: 0, cache_hits: 0, cache_misses: 0 }
    }
}

// =============================================================================
// Inputs
// =============================================================================

/// The state's buffer is on the device.
pub open spec fn on_device(ex: &StateExecutor, id: StateId) -> bool {
    ex.buffer(id@) matches Some(PhysicalBuffer::Gpu(_))
}

/// Every input of `s` has a buffer.
pub open spec fn all_present(ex: &StateExecutor, s: Seq<StateId>) -> bool {
    forall|j: int| 0 <= j < s.len() ==> (#[trigger] ex.buffer(s[j]@)) is Some
}

/// The inputs of `s` whose buffer is not on the device, in order.
pub open spec fn fetch_list(ex: &StateExecutor, s: Seq<StateId>) -> Seq<StateId>
    decreases s.len(),
{
    if s.len() == 0 {
        Seq::empty()
    } else if on_device(ex, s.last()) {
        fetch_list(ex, s.drop_last())
    } else {
        fetch_list(ex, s.drop_last()).push(s.last())
    }
}

/// How many inputs of `s` are on the device.
pub open spec fn hit_count(ex: &StateExecutor, s: Seq<StateId>) -> nat
    decreases s.len(),
{
    if s.len() == 0 {
        0
    } else {
        hit_count(ex, s.drop_last()) + if on_device(ex, s.last()) {
            1nat
        } else {
            0nat
        }
    }
}

/// How many inputs of `s` are not on the device.
pub open spec fn miss_count(ex: &StateExecutor, s: Seq<StateId>) -> nat
    decreases s.len(),
{
    if s.len() == 0 {
        0
    } else {
        miss_count(ex, s.drop_last()) + if on_device(ex, s.last()) {
            0nat
        } else {
            1nat
        }
    }
}

/// `st` with the inputs of `s` counted as hits and misses.
pub open spec fn counted(st: KernelStats, ex: &StateExecutor, s: Seq<StateId>) -> KernelStats {
    KernelStats {
        cache_hits: (st.cache_hits + hit_count(ex, s)) as u64,
        cache_misses: (st.cache_misses + miss_count(ex, s)) as u64,
        ..st
    }
}

/// The counters have room for every run of present inputs from the start
/// of `s`.
pub open spec fn counts_fit(st: KernelStats, ex: &StateExecutor, s: Seq<StateId>) -> bool {
    forall|i: int|
        0 <= i <= s.len() && all_present(ex, #[trigger] s.take(i)) ==> st.cache_hits + hit_count(
            ex,
            s.take(i),
        ) <= u64::MAX && st.cache_misses + miss_count(ex, s.take(i)) <= u64::MAX
}

/// Check that every input has a buffer, counting each one already on the
/// device as a hit and each one elsewhere as a miss. Stops at the first
/// input with no buffer. On success, the inputs to fetch to the device, in
/// order.
pub fn operation_inputs(ex: &StateExecutor, inputs: &Vec<StateId>, stats: KernelStats) -> (r: (
    Result<Vec<StateId>, KernelError>,
    KernelStats,
))
    requires
        ex.wf(),
        counts_fit(stats, ex, inputs@),
    ensures
        r.0 is Err <==> exists|i: int| 0 <= i < inputs.len() && (#[trigger] ex.buffer(inputs@[i]@)) is None,
        r.0 matches Err(e) ==> exists|i: int|
            0 <= i < inputs.len() && e == KernelError::StateNotAvailable(inputs@[i])
                && ex.buffer(inputs@[i]@) is None && all_present(ex, inputs@.take(i)) && r.1
                == counted(stats, ex, inputs@.take(i)),
        r.0 matches Ok(fetch) ==> fetch@ == fetch_list(ex, inputs@) && r.1 == counted(
            stats,
            ex,
            inputs@,
        ),
{
    let mut fetch: Vec<StateId> = Vec::new();
    let mut st = stats;
    let mut i: usize = 0;
    assert(inputs@.take(0) =~= Seq::<StateId>::empty());
    while i < inputs.len()
        invariant
            ex.wf(),
            counts_fit(stats, ex, inputs@),
            i <= inputs.len(),
            all_present(ex, inputs@.take(i as int)),
            fetch@ == fetch_list(ex, inputs@.take(i as int)),
            st == counted(stats, ex, inputs@.take(i as int)),
        decreases inputs.len() - i,
    {
        let id = &inputs[i];
        let ghost pre = inputs@.take(i as int);
        let ghost next = inputs@.take(i as int + 1);
        assert(next.drop_last() =~= pre);
        assert(next.last() == inputs@[i as int]);
        match ex.get_buffer(id) {
            Some(PhysicalBuffer::Gpu(_)) => {
                assert(all_present(ex, next)) by {
                    assert forall|j: int| 0 <= j < next.len() implies (#[trigger] ex.buffer(
                        next[j]@,
                    )) is Some by {
                        if j < i {
                            assert(next[j] == pre[j]);
                        }
                    }
                }
                assert(stats.cache_hits + hit_count(ex, next) <= u64::MAX);
                st.cache_hits = st.cache_hits + 1;
            },
            Some(_) => {
                assert(all_present(ex, next)) by {
                    assert forall|j: int| 0 <= j < next.len() implies (#[trigger] ex.buffer(
                        next[j]@,
                    )) is Some by {
                        if j < i {
                            assert(next[j] == pre[j]);
                        }
                    }
                }
                assert(stats.cache_misses + miss_count(ex, next) <= u64::MAX);
                st.cache_misses = st.cache_misses + 1;
                fetch.push(id.clone());
            },
            None => {
                return (Err(KernelError::StateNotAvailable(id.clone())), st);
            },
        }
        i = i + 1;
    }
    assert(inputs@.take(inputs.len() as int) =~= inputs@);
    (Ok(fetch), st)
}

// =============================================================================
// Kernels
// =============================================================================

/// Attention operations, which run the attention kernel of their layer.
pub open spec fn is_attention(t: OperationType) -> bool {
    t is Attention || t is PrefillAttention || t is DecodeAttention
}

/// The name of a missing attention kernel.
pub open spec fn attention_name(layer: nat) -> Seq<char> {
    "attention_"@ + decimal(layer)
}

/// The message for an attention operation that names no layer.
pub open spec fn no_layer_message() -> Seq<char> {
    "Attention operation has no layer"@
}

/// The operation's kernel is available: it is not an attention
/// operation, or its layer has an attention kernel.
pub open spec fn kernel_ready(op: Operation, reg: KernelRegistry) -> bool {
    !is_attention(op.op_type) || (op.layer_id matches Some(l) && reg.kernel(
        KernelId::Attention(l as usize),
    ) matches Some(RegisteredKernel::Attention(_)))
}

/// The error for an attention operation whose kernel is not available:
/// its layer's kernel is not registered, or it names no layer.
pub open spec fn kernel_error(op: Operation, e: KernelError) -> bool {
    match op.layer_id {
        None => e matches KernelError::InvalidInput(m) && m@ == no_layer_message(),
        Some(l) => e matches KernelError::KernelNotRegistered(m) && m@ == attention_name(l as nat),
    }
}

/// A copy of a list of state identifiers.
fn copy_ids(v: &Vec<StateId>) -> (r: Vec<StateId>)
    ensures
        r@ == v@,
{
    let mut out: Vec<StateId> = Vec::new();
    let mut i: usize = 0;
    while i < v.len()
        invariant
            i <= v.len(),
            out@ == v@.take(i as int),
        decreases v.len() - i,
    {
        out.push(v[i].clone());
        assert(out@ =~= v@.take(i as int + 1));
        i = i + 1;
    }
    assert(v@.take(v.len() as int) =~= v@);
    out
}

/// Pick the operation's kernel and give its outputs: an attention
/// operation needs the attention kernel of its layer; every other type runs
/// without a registry lookup.
pub fn operation_outputs(op: &Operation, reg: &KernelRegistry) -> (r: Result<Vec<StateId>, KernelError>)
    requires
        reg.wf(),
    ensures
        r is Ok == kernel_ready(*op, *reg),
        r matches Ok(v) ==> v@ == op.outputs@,
        r matches Err(e) ==> kernel_error(*op, e),
{
    let attention = match op.op_type {
        OperationType::Attention => true,
        OperationType::PrefillAttention => true,
        OperationType::DecodeAttention => true,
        _ => false,
    };
    if attention {
        match op.layer_id {
            None => {
                proof {
                    reveal_strlit("Attention operation has no layer");
                }
                Err(KernelError::InvalidInput(String::from_str("Attention operation has no layer")))
            },
            Some(l) => {
                match reg.get_attention(l as usize) {
                    Some(_) => Ok(copy_ids(&op.outputs)),
                    None => {
                        proof {
                            reveal_strlit("attention_");
                        }
                        let mut name = String::from_str("attention_");
                        push_decimal(&mut name, l as u64);
                        Err(KernelError::KernelNotRegistered(name))
                    },
                }
            },
        }
    } else {
        Ok(copy_ids(&op.outputs))
    }
}

// =============================================================================
// The executor
// =============================================================================

/// A completed run: the outputs produced and the inputs that had to be
/// fetched to the device.
#[derive(Debug)]
pub struct OperationRun {
    pub outputs: Vec<StateId>,
    pub fetched: Vec<StateId>,
}

/// Runs operations against a kernel registry, counting what it did.
pub struct KernelExecutor {
    registry: KernelRegistry,
    stats: KernelStats,
}

impl KernelExecutor {
    /// The kernel registry.
    pub closed spec fn spec_registry(&self) -> KernelRegistry {
        self.registry
    }

    /// The statistics.
    pub closed spec fn spec_stats(&self) -> KernelStats {
        self.stats
    }

    /// An executor over a registry, with all counters at zero.
    pub fn new(registry: KernelRegistry) -> (r: Self)
        ensures
            r.spec_registry() == registry,
            r.spec_stats() == KernelStats::spec_zero(),
    {
        KernelExecutor { registry, stats: KernelStats::default() }
    }

    /// The kernel registry.
    pub fn registry(&self) -> (r: &KernelRegistry)
        ensures
            *r == self.spec_registry(),
    {
        &self.registry
    }

    /// Executor statistics.
    pub fn stats(&self) -> (r: KernelStats)
        ensures
            r == self.spec_stats(),
    {
        self.stats
    }

    /// Run an operation: check its inputs (counting hits and misses), then
    /// pick its kernel. A run that gets that far is counted and yields the
    /// operation's outputs and the inputs to fetch.
    pub fn execute_operation(&mut self, ex: &StateExecutor, op: &Operation) -> (r: Result<
        OperationRun,
        KernelError,
    >)
        requires
            ex.wf(),
            old(self).spec_registry().wf(),
            counts_fit(old(self).spec_stats(), ex, op.inputs@),
            old(self).spec_stats().operations_executed < u64::MAX,
        ensures
            final(self).spec_registry() == old(self).spec_registry(),
            (exists|i: int|
                0 <= i < op.inputs.len() && (#[trigger] ex.buffer(op.inputs@[i]@)) is None) ==> (
            r matches Err(e) && exists|i: int|
                0 <= i < op.inputs.len() && e == KernelError::StateNotAvailable(op.inputs@[i])
                    && ex.buffer(op.inputs@[i]@) is None && all_present(ex, op.inputs@.take(i))
                    && final(self).spec_stats() == counted(
                    old(self).spec_stats(),
                    ex,
                    op.inputs@.take(i),
                )),
            all_present(ex, op.inputs@) ==> (r is Ok == kernel_ready(*op, old(self).spec_registry())),
            all_present(ex, op.inputs@) && r is Ok ==> (r matches Ok(run) && run.outputs@ == op.outputs@
                && run.fetched@ == fetch_list(ex, op.inputs@) && final(self).spec_stats() == (
            KernelStats {
                operations_executed: (old(self).spec_stats().operations_executed + 1) as u64,
                ..counted(old(self).spec_stats(), ex, op.inputs@)
            })),
            all_present(ex, op.inputs@) && r is Err ==> (r matches Err(e) && kernel_error(*op, e)
                && final(self).spec_stats() == counted(old(self).spec_stats(), ex, op.inputs@)),
    {
        let (checked, st) = operation_inputs(ex, &op.inputs, self.stats);
        self.stats = st;
        let fetched = match checked {
            Ok(f) => f,
            Err(e) => {
                return Err(e);
            },
        };
        proof {
            assert forall|j: int| 0 <= j < op.inputs.len() implies (#[trigger] ex.buffer(
                op.inputs@[j]@,
            )) is Some by {
                if ex.buffer(op.inputs@[j]@) is None {
                    assert(exists|i: int|
                        0 <= i < op.inputs.len() && (#[trigger] ex.buffer(op.inputs@[i]@)) is None);
                }
            }
        }
        let outputs = operation_outputs(op, &self.registry);
        match outputs {
            Ok(v) => {
                self.stats.operations_executed = self.stats.operations_executed + 1;
                Ok(OperationRun { outputs: v, fetched })
            },
            Err(e) => Err(e),
        }
    }
}

} // verus!
