//! ExecutionState: the fundamental unit of state in Aether.
//!
//! Every piece of data generated or required during inference is an
//! execution state with identity, location, size, dependencies and
//! scheduling information.

use vstd::prelude::*;
use std::time::Duration;
use crate::text::{hex, zero_pad, decimal, push_decimal, push_hex_padded};
use crate::types::{
    ApproximationMethod, DType, ExpertId, LayerId, Location, OperationId, Priority, RequestId,
    StateId, StateType,
};

verus! {

// =============================================================================
// Identifier generation
// =============================================================================

/// Source of fresh state identifiers: a counter that every generated
/// identifier advances by one (wrapping at `u64::MAX`).
pub struct StateIdGenerator {
    next: u64,
}

impl StateIdGenerator {
    /// The counter value the next identifier will carry.
    pub closed spec fn next_count(&self) -> u64 {
        self.next
    }

    /// A generator starting at 0.
    pub fn new() -> (r: Self)
        ensures
            r.next_count() == 0,
    {
        StateIdGenerator { next: 0 }
    }

    /// A generator starting at `start`.
    pub fn starting_at(start: u64) -> (r: Self)
        ensures
            r.next_count() == start,
    {
        StateIdGenerator { next: start }
    }

    /// Take the next counter value.
    pub fn take(&mut self) -> (r: u64)
        ensures
            r == old(self).next_count(),
            final(self).next_count() == old(self).next_count().wrapping_add(1),
    {
        let r = self.next;
        self.next = self.next.wrapping_add(1);
        r
    }
}

/// `{prefix}_{count:08x}`: the identifier generated from a counter value.
pub open spec fn generated_id(prefix: Seq<char>, count: u64) -> Seq<char> {
    prefix + "_"@ + zero_pad(hex(count as nat), 8)
}

/// Generate the identifier `{prefix}_{count:08x}` from the generator's next
/// counter value, advancing it.
pub fn generate_state_id(prefix: &str, ids: &mut StateIdGenerator) -> (r: StateId)
    ensures
        r.0@ == generated_id(prefix@, old(ids).next_count()),
        final(ids).next_count() == old(ids).next_count().wrapping_add(1),
{
    let count = ids.take();
    let mut s = String::from_str(prefix);
    s.append("_");
    push_hex_padded(&mut s, count, 8);
    StateId(s)
}

/// The identifier prefix of each state type.
pub open spec fn id_prefix(t: StateType) -> Seq<char> {
    match t {
        StateType::Weight => "weight"@,
        StateType::ExpertWeight => "expert"@,
        StateType::Embedding => "embed"@,
        StateType::KvCache => "kv"@,
        StateType::Activation => "act"@,
        StateType::Intermediate => "inter"@,
        StateType::AttentionMetadata => "attn_meta"@,
        StateType::SpeculativeState => "spec"@,
        StateType::RoutingDecision => "route"@,
        StateType::AgentContext => "agent"@,
        StateType::RetrievedState => "retrieved"@,
    }
}

fn id_prefix_str(t: StateType) -> (r: &'static str)
    ensures
        r@ == id_prefix(t),
{
    match t {
        StateType::Weight => "weight",
        StateType::ExpertWeight => "expert",
        StateType::Embedding => "embed",
        StateType::KvCache => "kv",
        StateType::Activation => "act",
        StateType::Intermediate => "inter",
        StateType::AttentionMetadata => "attn_meta",
        StateType::SpeculativeState => "spec",
        StateType::RoutingDecision => "route",
        StateType::AgentContext => "agent",
        StateType::RetrievedState => "retrieved",
    }
}

/// `Duration::ZERO`.
///
/// Returns the constant `Duration::ZERO`. `Duration` is opaque to the
/// library, so the contract states nothing of the value.
#[verifier::external_body]
fn duration_zero() -> Duration {
    Duration::ZERO
}

// =============================================================================
// State metadata
// =============================================================================

/// Additional tracking information for execution state.
#[derive(Debug)]
pub struct StateMetadata {
    /// When the state was created (as duration since start).
    pub created_at: Duration,
    /// When the state was last accessed.
    pub last_accessed: Duration,
    /// Number of times the state has been accessed.
    pub access_count: u64,
    /// Predicted time of next access, if known.
    pub predicted_next_access: Option<Duration>,
    /// Request that generated this state.
    pub request_id: Option<RequestId>,
    /// Layer this state belongs to.
    pub layer_id: Option<LayerId>,
    /// Expert this state belongs to (for MoE).
    pub expert_id: Option<ExpertId>,
}

impl Clone for StateMetadata {
    fn clone(&self) -> (r: Self)
        ensures
            r.created_at == self.created_at,
            r.last_accessed == self.last_accessed,
            r.access_count == self.access_count,
            r.predicted_next_access == self.predicted_next_access,
            r.request_id == self.request_id,
            r.layer_id == self.layer_id,
            r.expert_id == self.expert_id,
            r == *self,
    {
        StateMetadata {
            created_at: self.created_at,
            last_accessed: self.last_accessed,
            access_count: self.access_count,
            predicted_next_access: self.predicted_next_access,
            request_id: match &self.request_id {
                Some(r) => Some(r.clone()),
                None => None,
            },
            layer_id: self.layer_id,
            expert_id: self.expert_id,
        }
    }
}

impl StateMetadata {
    /// The integral fields of fresh metadata: no accesses, no request,
    /// layer or expert.
    pub open spec fn is_fresh(&self) -> bool {
        &&& self.access_count == 0
        &&& self.predicted_next_access is None
        &&& self.request_id is None
        &&& self.layer_id is None
        &&& self.expert_id is None
    }

    /// Fresh metadata: created and last accessed at time zero.
    pub fn fresh() -> (r: Self)
        ensures
            r.is_fresh(),
            r.last_accessed == r.created_at,
    {
        let zero = duration_zero();
        StateMetadata {
            created_at: zero,
            last_accessed: zero,
            access_count: 0,
            predicted_next_access: None,
            request_id: None,
            layer_id: None,
            expert_id: None,
        }
    }
}

// =============================================================================
// ExecutionState
// =============================================================================

/// The fundamental unit of state in Aether.
#[derive(Debug)]
pub struct ExecutionState {
    /// Unique identifier.
    pub id: StateId,
    /// What kind of state this is.
    pub state_type: StateType,
    /// Human-readable name.
    pub name: String,
    /// Current memory location.
    pub location: Location,
    /// Memory footprint in bytes.
    pub size_bytes: u64,
    /// Tensor data type.
    pub dtype: DType,
    /// Tensor shape.
    pub shape: Vec<usize>,
    /// Operation that creates this state (none for model weights).
    pub produced_by: Option<OperationId>,
    /// Operations that read this state.
    pub consumed_by: Vec<OperationId>,
    /// Other states needed to recompute this state.
    pub depends_on: Vec<StateId>,
    /// Eviction priority.
    pub priority: Priority,
    /// If true, the state cannot be evicted.
    pub pinned: bool,
    /// If true, the state can be recomputed from its dependencies.
    pub recomputable: bool,
    /// Current approximation (none = full precision).
    pub current_approximation: Option<ApproximationMethod>,
    /// Additional tracking information.
    pub metadata: StateMetadata,
}

impl ExecutionState {
    /// Two states hold the same data: equal fields, and equal contents of
    /// their vectors.
    pub open spec fn same_data(&self, other: &ExecutionState) -> bool {
        &&& self.id == other.id
        &&& self.state_type == other.state_type
        &&& self.name == other.name
        &&& self.location == other.location
        &&& self.size_bytes == other.size_bytes
        &&& self.dtype == other.dtype
        &&& self.shape@ == other.shape@
        &&& self.produced_by == other.produced_by
        &&& self.consumed_by@ == other.consumed_by@
        &&& self.depends_on@ == other.depends_on@
        &&& self.priority == other.priority
        &&& self.pinned == other.pinned
        &&& self.recomputable == other.recomputable
        &&& self.current_approximation == other.current_approximation
        &&& self.metadata == other.metadata
    }

    /// A copy of the state holding the same data.
    pub fn duplicate(&self) -> (r: Self)
        ensures
            r.same_data(self),
    {
        let consumed_by = self.consumed_by.clone();
        let depends_on = self.depends_on.clone();
        let shape = self.shape.clone();
        assert(consumed_by@ =~= self.consumed_by@);
        assert(depends_on@ =~= self.depends_on@);
        assert(shape@ =~= self.shape@);
        ExecutionState {
            id: self.id.clone(),
            state_type: self.state_type,
            name: self.name.clone(),
            location: self.location,
            size_bytes: self.size_bytes,
            dtype: self.dtype,
            shape,
            produced_by: match &self.produced_by {
                Some(op) => Some(op.clone()),
                None => None,
            },
            consumed_by,
            depends_on,
            priority: self.priority,
            pinned: self.pinned,
            recomputable: self.recomputable,
            current_approximation: self.current_approximation,
            metadata: self.metadata.clone(),
        }
    }

    /// The fields every constructor sets the same way: no shape, producer,
    /// consumers or dependencies, normal priority, not pinned, no
    /// approximation.
    pub open spec fn has_defaults(&self) -> bool {
        &&& self.shape@.len() == 0
        &&& self.produced_by is None
        &&& self.consumed_by@.len() == 0
        &&& self.depends_on@.len() == 0
        &&& self.priority == Priority::Normal
        &&& !self.pinned
        &&& self.current_approximation is None
    }

    /// Create a new state with a generated identifier `{prefix}_{count:08x}`
    /// (prefix by type), named after its identifier, not materialized,
    /// float16, recomputable exactly when it is not a weight.
    pub fn new(state_type: StateType, size_bytes: u64, ids: &mut StateIdGenerator) -> (r: Self)
        ensures
            r.id.0@ == generated_id(id_prefix(state_type), old(ids).next_count()),
            final(ids).next_count() == old(ids).next_count().wrapping_add(1),
            r.name@ == r.id.0@,
            r.state_type == state_type,
            r.location == Location::NotMaterialized,
            r.size_bytes == size_bytes,
            r.dtype == DType::Float16,
            r.recomputable == !state_type.spec_is_weight(),
            r.has_defaults(),
            r.metadata.is_fresh(),
    {
        let id = generate_state_id(id_prefix_str(state_type), ids);
        let name = id.0.clone();
        ExecutionState {
            id,
            state_type,
            name,
            location: Location::NotMaterialized,
            size_bytes,
            dtype: DType::Float16,
            shape: Vec::new(),
            produced_by: None,
            consumed_by: Vec::new(),
            depends_on: Vec::new(),
            priority: Priority::Normal,
            pinned: false,
            recomputable: state_type.is_recomputable(),
            current_approximation: None,
            metadata: StateMetadata::fresh(),
        }
    }

    /// Create a KV cache state of `2 * seq_len * num_heads * head_dim *
    /// dtype_size` bytes, named `kv_layer_{layer_id}`, shape
    /// `[2, seq_len, num_heads, head_dim]`.
    pub fn kv_cache(
        layer_id: LayerId,
        seq_len: usize,
        num_heads: usize,
        head_dim: usize,
        dtype: DType,
        ids: &mut StateIdGenerator,
    ) -> (r: Self)
        requires
            2 * seq_len <= usize::MAX,
            2 * seq_len * num_heads <= usize::MAX,
            2 * seq_len * num_heads * head_dim <= usize::MAX,
            2 * seq_len * num_heads * head_dim * dtype.spec_size_bytes() <= usize::MAX,
        ensures
            r.id.0@ == generated_id("kv"@, old(ids).next_count()),
            final(ids).next_count() == old(ids).next_count().wrapping_add(1),
            r.state_type == StateType::KvCache,
            r.size_bytes == 2 * seq_len * num_heads * head_dim * dtype.spec_size_bytes(),
            r.name@ == "kv_layer_"@ + decimal(layer_id as nat),
            r.dtype == dtype,
            r.shape@ == seq![2usize, seq_len, num_heads, head_dim],
            r.metadata.layer_id == Some(layer_id),
            r.recomputable,
            r.location == Location::NotMaterialized,
    {
        let d = dtype.size_bytes();
        let size_bytes = 2 * seq_len * num_heads * head_dim * d;
        let mut state = Self::new(StateType::KvCache, size_bytes as u64, ids);
        let mut name = String::from_str("kv_layer_");
        push_decimal(&mut name, layer_id as u64);
        state.name = name;
        state.dtype = dtype;
        state.shape = vec![2, seq_len, num_heads, head_dim];
        state.metadata.layer_id = Some(layer_id);
        state.recomputable = true;
        proof {
            reveal_strlit("kv");
        }
        state
    }

    /// Create an activation state of `batch_size * seq_len * hidden_dim *
    /// dtype_size` bytes, named `activation_layer_{layer_id}`.
    pub fn activation(
        layer_id: LayerId,
        batch_size: usize,
        seq_len: usize,
        hidden_dim: usize,
        dtype: DType,
        ids: &mut StateIdGenerator,
    ) -> (r: Self)
        requires
            batch_size * seq_len <= usize::MAX,
            batch_size * seq_len * hidden_dim <= usize::MAX,
            batch_size * seq_len * hidden_dim * dtype.spec_size_bytes() <= usize::MAX,
        ensures
            r.id.0@ == generated_id("act"@, old(ids).next_count()),
            final(ids).next_count() == old(ids).next_count().wrapping_add(1),
            r.state_type == StateType::Activation,
            r.size_bytes == batch_size * seq_len * hidden_dim * dtype.spec_size_bytes(),
            r.name@ == "activation_layer_"@ + decimal(layer_id as nat),
            r.dtype == dtype,
            r.shape@ == seq![batch_size, seq_len, hidden_dim],
            r.metadata.layer_id == Some(layer_id),
            r.recomputable,
            r.location == Location::NotMaterialized,
    {
        let d = dtype.size_bytes();
        let size_bytes = batch_size * seq_len * hidden_dim * d;
        let mut state = Self::new(StateType::Activation, size_bytes as u64, ids);
        let mut name = String::from_str("activation_layer_");
        push_decimal(&mut name, layer_id as u64);
        state.name = name;
        state.dtype = dtype;
        state.shape = vec![batch_size, seq_len, hidden_dim];
        state.metadata.layer_id = Some(layer_id);
        state.recomputable = true;
        proof {
            reveal_strlit("act");
        }
        state
    }

    /// Create an MoE expert weight state named `expert_L{layer}_E{expert}`.
    pub fn expert_weight(
        layer_id: LayerId,
        expert_id: ExpertId,
        size_bytes: u64,
        ids: &mut StateIdGenerator,
    ) -> (r: Self)
        ensures
            r.id.0@ == generated_id("expert"@, old(ids).next_count()),
            final(ids).next_count() == old(ids).next_count().wrapping_add(1),
            r.state_type == StateType::ExpertWeight,
            r.size_bytes == size_bytes,
            r.name@ == "expert_L"@ + decimal(layer_id as nat) + "_E"@ + decimal(expert_id as nat),
            r.metadata.layer_id == Some(layer_id),
            r.metadata.expert_id == Some(expert_id),
            !r.recomputable,
            r.location == Location::NotMaterialized,
    {
        let mut state = Self::new(StateType::ExpertWeight, size_bytes, ids);
        let mut name = String::from_str("expert_L");
        push_decimal(&mut name, layer_id as u64);
        name.append("_E");
        push_decimal(&mut name, expert_id as u64);
        state.name = name;
        state.metadata.layer_id = Some(layer_id);
        state.metadata.expert_id = Some(expert_id);
        state.recomputable = false;
        proof {
            reveal_strlit("expert");
        }
        state
    }

    /// Create a dense weight state, in HBM, not recomputable.
    pub fn weight(name: String, size_bytes: u64, ids: &mut StateIdGenerator) -> (r: Self)
        ensures
            r.id.0@ == generated_id("weight"@, old(ids).next_count()),
            final(ids).next_count() == old(ids).next_count().wrapping_add(1),
            r.state_type == StateType::Weight,
            r.size_bytes == size_bytes,
            r.name == name,
            !r.recomputable,
            r.location == Location::Hbm,
    {
        let mut state = Self::new(StateType::Weight, size_bytes, ids);
        state.name = name;
        state.recomputable = false;
        state.location = Location::Hbm;
        proof {
            reveal_strlit("weight");
        }
        state
    }

    // =========================================================================
    // Builder methods
    // =========================================================================

    /// Set the location.
    pub fn with_location(self, location: Location) -> (r: Self)
        ensures
            r == (ExecutionState { location, ..self }),
    {
        let mut s = self;
        s.location = location;
        s
    }

    /// Set as pinned.
    pub fn with_pinned(self, pinned: bool) -> (r: Self)
        ensures
            r == (ExecutionState { pinned, ..self }),
    {
        let mut s = self;
        s.pinned = pinned;
        s
    }

    /// Set the producer operation.
    pub fn with_producer(self, op_id: OperationId) -> (r: Self)
        ensures
            r == (ExecutionState { produced_by: Some(op_id), ..self }),
    {
        let mut s = self;
        s.produced_by = Some(op_id);
        s
    }

    /// Add a consumer operation.
    pub fn with_consumer(self, op_id: OperationId) -> (r: Self)
        ensures
            r.consumed_by@ == self.consumed_by@.push(op_id),
            r == (ExecutionState { consumed_by: r.consumed_by, ..self }),
    {
        let mut s = self;
        s.consumed_by.push(op_id);
        s
    }

    /// Set priority.
    pub fn with_priority(self, priority: Priority) -> (r: Self)
        ensures
            r == (ExecutionState { priority, ..self }),
    {
        let mut s = self;
        s.priority = priority;
        s
    }

    // =========================================================================
    // Properties
    // =========================================================================

    /// Check if the state exists in memory.
    pub fn is_materialized(&self) -> (r: bool)
        ensures
            r == self.location.spec_is_materialized(),
    {
        self.location.is_materialized()
    }

    /// Check if the state is in GPU memory.
    pub fn is_in_gpu(&self) -> (r: bool)
        ensures
            r == self.location.spec_is_gpu(),
    {
        self.location.is_gpu()
    }

    /// Record an access at time `now`: the access count grows by one.
    pub fn touch(&mut self, now: Duration)
        requires
            old(self).metadata.access_count < u64::MAX,
        ensures
            final(self).metadata.access_count == old(self).metadata.access_count + 1,
            final(self).metadata.last_accessed == now,
            *final(self) == (ExecutionState { metadata: final(self).metadata, ..*old(self) }),
            final(self).metadata == (StateMetadata {
                last_accessed: now,
                access_count: final(self).metadata.access_count,
                ..old(self).metadata
            }),
    {
        self.metadata.last_accessed = now;
        self.metadata.access_count = self.metadata.access_count + 1;
    }
}


/// Some state of `states` with the identifier of `id` is on a GPU.
pub open spec fn gpu_resident(states: Seq<ExecutionState>, id: StateId) -> bool {
    exists|j: int| 0 <= j < states.len() && states[j].id@ == id@ && (#[trigger] states[j]).location.spec_is_gpu()
}

/// The identifiers of `ids` with no state on a GPU, in order.
pub open spec fn missing_list(states: Seq<ExecutionState>, ids: Seq<StateId>) -> Seq<StateId>
    decreases ids.len(),
{
    if ids.len() == 0 {
        Seq::empty()
    } else if gpu_resident(states, ids.last()) {
        missing_list(states, ids.drop_last())
    } else {
        missing_list(states, ids.drop_last()).push(ids.last())
    }
}

/// Whether some state with the identifier is on a GPU.
fn resident_on_gpu(states: &Vec<ExecutionState>, id: &StateId) -> (r: bool)
    ensures
        r == gpu_resident(states@, *id),
{
    let mut j: usize = 0;
    while j < states.len()
        invariant
            j <= states.len(),
            forall|a: int| 0 <= a < j ==> !(states@[a].id@ == id@ && (#[trigger] states@[a]).location.spec_is_gpu()),
        decreases states.len() - j,
    {
        if states[j].id.same(id) && states[j].is_in_gpu() {
            return true;
        }
        j = j + 1;
    }
    false
}

/// The states a recomputation must load: those of `required` that no
/// state of the registry holds on a GPU (absent ones included), in order.
pub fn missing_from_gpu(required: &Vec<StateId>, states: &Vec<ExecutionState>) -> (r: Vec<StateId>)
    ensures
        r@ == missing_list(states@, required@),
{
    let mut out: Vec<StateId> = Vec::new();
    let mut i: usize = 0;
    while i < required.len()
        invariant
            i <= required.len(),
            out@ == missing_list(states@, required@.take(i as int)),
        decreases required.len() - i,
    {
        let ghost next = required@.take(i as int + 1);
        assert(next.drop_last() =~= required@.take(i as int));
        if !resident_on_gpu(states, &required[i]) {
            out.push(required[i].clone());
        }
        i = i + 1;
    }
    assert(required@.take(required.len() as int) =~= required@);
    out
}

} // verus!
