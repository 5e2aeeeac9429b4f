//! Core type definitions: identities, state types, memory locations,
//! actions, operation kinds, approximation methods, priorities, dtypes.

use vstd::prelude::*;
use vstd::std_specs::cmp::PartialEqSpecImpl;

verus! {

// =============================================================================
// Identity types
// =============================================================================

/// Unique identifier for a piece of execution state.
#[derive(Debug, Eq, Hash)]
pub struct StateId(pub String);

impl Clone for StateId {
    fn clone(&self) -> (r: Self)
        ensures
            r == *self,
    {
        StateId(self.0.clone())
    }
}

impl PartialEq for StateId {
    fn eq(&self, other: &Self) -> (r: bool) {
        self.0 == other.0
    }
}

impl PartialEqSpecImpl for StateId {
    open spec fn obeys_eq_spec() -> bool {
        true
    }

    open spec fn eq_spec(&self, other: &StateId) -> bool {
        self.0@ == other.0@
    }
}

impl View for StateId {
    type V = Seq<char>;

    open spec fn view(&self) -> Seq<char> {
        self.0@
    }
}

impl StateId {
    /// The text of the identifier.
    pub open spec fn text(&self) -> Seq<char> {
        self.0@
    }

    /// Create an identifier from its text.
    pub fn new(id: String) -> (r: Self)
        ensures
            r.0 == id,
    {
        StateId(id)
    }

    /// Create an identifier from a string slice.
    pub fn from_str(id: &str) -> (r: Self)
        ensures
            r.0@ == id@,
    {
        StateId(String::from_str(id))
    }

    /// The text of the identifier, as `Display` writes it.
    pub fn as_str(&self) -> (r: &str)
        ensures
            r@ == self.0@,
    {
        self.0.as_str()
    }

    /// Whether two identifiers name the same state.
    pub fn same(&self, other: &StateId) -> (r: bool)
        ensures
            r == (self.0@ == other.0@),
    {
        self.0 == other.0
    }
}

impl From<String> for StateId {
    fn from(s: String) -> (r: Self)
        ensures
            r.0 == s,
    {
        StateId(s)
    }
}

impl vstd::std_specs::convert::FromSpecImpl<String> for StateId {
    open spec fn obeys_from_spec() -> bool {
        true
    }

    open spec fn from_spec(v: String) -> StateId {
        StateId(v)
    }
}

impl<'a> From<&'a str> for StateId {
    fn from(s: &'a str) -> (r: Self)
        ensures
            r.0@ == s@,
    {
        StateId(String::from_str(s))
    }
}

impl<'a> vstd::std_specs::convert::FromSpecImpl<&'a str> for StateId {
    open spec fn obeys_from_spec() -> bool {
        false
    }

    open spec fn from_spec(v: &'a str) -> StateId {
        StateId(arbitrary())
    }
}

/// Unique identifier for an operation in the execution graph.
#[derive(Debug, Eq, Hash)]
pub struct OperationId(pub String);

impl Clone for OperationId {
    fn clone(&self) -> (r: Self)
        ensures
            r == *self,
    {
        OperationId(self.0.clone())
    }
}

impl PartialEq for OperationId {
    fn eq(&self, other: &Self) -> (r: bool) {
        self.0 == other.0
    }
}

impl PartialEqSpecImpl for OperationId {
    open spec fn obeys_eq_spec() -> bool {
        true
    }

    open spec fn eq_spec(&self, other: &OperationId) -> bool {
        self.0@ == other.0@
    }
}

impl View for OperationId {
    type V = Seq<char>;

    open spec fn view(&self) -> Seq<char> {
        self.0@
    }
}

impl OperationId {
    /// Create an operation identifier from its text.
    pub fn new(id: String) -> (r: Self)
        ensures
            r.0 == id,
    {
        OperationId(id)
    }

    /// The text of the identifier, as `Display` writes it.
    pub fn as_str(&self) -> (r: &str)
        ensures
            r@ == self.0@,
    {
        self.0.as_str()
    }

    /// Whether two identifiers name the same operation.
    pub fn same(&self, other: &OperationId) -> (r: bool)
        ensures
            r == (self.0@ == other.0@),
    {
        self.0 == other.0
    }
}

/// Layer index in a model.
pub type LayerId = u32;

/// Expert index in an MoE model.
pub type ExpertId = u32;

/// Request identifier.
#[derive(Debug, Eq, Hash)]
pub struct RequestId(pub String);

impl Clone for RequestId {
    fn clone(&self) -> (r: Self)
        ensures
            r == *self,
    {
        RequestId(self.0.clone())
    }
}

impl PartialEq for RequestId {
    fn eq(&self, other: &Self) -> (r: bool) {
        self.0 == other.0
    }
}

impl PartialEqSpecImpl for RequestId {
    open spec fn obeys_eq_spec() -> bool {
        true
    }

    open spec fn eq_spec(&self, other: &RequestId) -> bool {
        self.0@ == other.0@
    }
}

// =============================================================================
// State types
// =============================================================================

/// Classification of execution state in AI inference.
#[derive(Debug, Clone, Copy, PartialEq, Eq, Hash, Structural)]
pub enum StateType {
    /// Dense layer weights.
    Weight,
    /// MoE expert weights.
    ExpertWeight,
    /// Embedding tables.
    Embedding,
    /// Key-value cache for attention.
    KvCache,
    /// Layer activations.
    Activation,
    /// Intermediate tensors within an operation.
    Intermediate,
    /// Attention masks, position encodings, etc.
    AttentionMetadata,
    /// Draft tokens and speculative execution state.
    SpeculativeState,
    /// MoE routing decisions.
    RoutingDecision,
    /// Agent memory, tool results, session state.
    AgentContext,
    /// Retrieval results.
    RetrievedState,
}

impl StateType {
    /// Model weights: dense weights, expert weights and embeddings.
    pub open spec fn spec_is_weight(&self) -> bool {
        *self is Weight || *self is ExpertWeight || *self is Embedding
    }

    /// Check if this is a model weight type.
    #[verifier::when_used_as_spec(spec_is_weight)]
    pub fn is_weight(&self) -> (r: bool)
        ensures
            r == self.spec_is_weight(),
    {
        match self {
            StateType::Weight | StateType::ExpertWeight | StateType::Embedding => true,
            _ => false,
        }
    }

    /// Check if this is recomputable (not a weight).
    pub fn is_recomputable(&self) -> (r: bool)
        ensures
            r == !self.spec_is_weight(),
    {
        !self.is_weight()
    }
}

// =============================================================================
// Memory locations
// =============================================================================

/// Memory tier where state can reside.
#[derive(Debug, Clone, Copy, PartialEq, Eq, Hash, Structural)]
pub enum Location {
    /// GPU high-bandwidth memory.
    Hbm,
    /// CPU DRAM.
    Dram,
    /// CXL-attached memory.
    Cxl,
    /// NVMe SSD.
    Nvme,
    /// Another GPU's HBM.
    RemoteGpu,
    /// Another host's memory.
    RemoteHost,
    /// State exists logically but has not been computed yet.
    NotMaterialized,
    /// State was computed but has been discarded.
    Evicted,
}

impl Location {
    /// Local tiers: HBM, DRAM, CXL and NVMe.
    pub open spec fn spec_is_local(&self) -> bool {
        self is Hbm || self is Dram || self is Cxl || self is Nvme
    }

    /// GPU memory: local or remote HBM.
    pub open spec fn spec_is_gpu(&self) -> bool {
        self is Hbm || self is RemoteGpu
    }

    /// Tiers reached over the network.
    pub open spec fn spec_is_remote(&self) -> bool {
        self is RemoteGpu || self is RemoteHost
    }

    /// Every location but the two virtual ones.
    pub open spec fn spec_is_materialized(&self) -> bool {
        !(self is NotMaterialized || self is Evicted)
    }

    /// Check if this is a local memory tier.
    #[verifier::when_used_as_spec(spec_is_local)]
    pub fn is_local(&self) -> (r: bool)
        ensures
            r == self.spec_is_local(),
    {
        match self {
            Location::Hbm | Location::Dram | Location::Cxl | Location::Nvme => true,
            _ => false,
        }
    }

    /// Check if this is GPU memory.
    #[verifier::when_used_as_spec(spec_is_gpu)]
    pub fn is_gpu(&self) -> (r: bool)
        ensures
            r == self.spec_is_gpu(),
    {
        match self {
            Location::Hbm | Location::RemoteGpu => true,
            _ => false,
        }
    }

    /// Check if this requires network access.
    #[verifier::when_used_as_spec(spec_is_remote)]
    pub fn is_remote(&self) -> (r: bool)
        ensures
            r == self.spec_is_remote(),
    {
        match self {
            Location::RemoteGpu | Location::RemoteHost => true,
            _ => false,
        }
    }

    /// Check if state actually exists in memory.
    #[verifier::when_used_as_spec(spec_is_materialized)]
    pub fn is_materialized(&self) -> (r: bool)
        ensures
            r == self.spec_is_materialized(),
    {
        match self {
            Location::NotMaterialized | Location::Evicted => false,
            _ => true,
        }
    }
}

// =============================================================================
// Actions
// =============================================================================

/// Actions the decision engine can take for a piece of state.
#[derive(Debug, Clone, Copy, PartialEq, Eq, Hash, Structural)]
pub enum Action {
    /// Keep state in its current location.
    Keep,
    /// Transfer state to a different memory tier.
    Move,
    /// Move state before it is needed.
    Prefetch,
    /// Discard state and recompute it when needed.
    Recompute,
    /// Use a lower-fidelity version of the state.
    Approximate,
    /// Create a copy in another location.
    Replicate,
    /// Remove state from memory.
    Evict,
    /// Defer the decision.
    Delay,
}

impl Action {
    /// Movement actions: move, prefetch, replicate.
    pub open spec fn spec_is_movement(&self) -> bool {
        self is Move || self is Prefetch || self is Replicate
    }

    /// Compute actions: recompute, approximate.
    pub open spec fn spec_is_compute(&self) -> bool {
        self is Recompute || self is Approximate
    }

    /// Check if this is a movement action.
    #[verifier::when_used_as_spec(spec_is_movement)]
    pub fn is_movement(&self) -> (r: bool)
        ensures
            r == self.spec_is_movement(),
    {
        match self {
            Action::Move | Action::Prefetch | Action::Replicate => true,
            _ => false,
        }
    }

    /// Check if this involves computation.
    #[verifier::when_used_as_spec(spec_is_compute)]
    pub fn is_compute(&self) -> (r: bool)
        ensures
            r == self.spec_is_compute(),
    {
        match self {
            Action::Recompute | Action::Approximate => true,
            _ => false,
        }
    }
}

// =============================================================================
// Operation types
// =============================================================================

/// Types of operations in the execution graph.
#[derive(Debug, Clone, Copy, PartialEq, Eq, Hash, Structural)]
pub enum OperationType {
    Attention,
    PrefillAttention,
    DecodeAttention,
    Linear,
    QkvProj,
    OutputProj,
    Mlp,
    GateProj,
    UpProj,
    DownProj,
    Router,
    Expert,
    ExpertCombine,
    Embedding,
    LayerNorm,
    RmsNorm,
    Sampling,
    Transfer,
    Sync,
}

// =============================================================================
// Approximation methods
// =============================================================================

/// Methods for approximating state to save memory or compute.
#[derive(Debug, Clone, Copy, PartialEq, Eq, Hash, Structural)]
pub enum ApproximationMethod {
    Int8,
    Int4,
    Fp8,
    Fp16,
    TopK,
    Threshold,
    StructuredSparse,
    Zstd,
    Lz4,
    KvQuantize,
    KvCompress,
    SlidingWindow,
}

// =============================================================================
// Priorities
// =============================================================================

/// Priority levels for state and requests, most urgent first.
#[derive(Debug, Clone, Copy, PartialEq, Eq, PartialOrd, Ord, Hash, Structural)]
pub enum Priority {
    /// Must not be evicted.
    Critical,
    /// Will be needed very soon.
    High,
    /// Standard priority.
    Normal,
    /// Can be evicted if needed.
    Low,
    /// Speculative; evict first.
    Background,
}

impl Priority {
    /// The priority's rank, 0 for `Critical` up to 4 for `Background`.
    pub open spec fn spec_rank(&self) -> u8 {
        match self {
            Priority::Critical => 0,
            Priority::High => 1,
            Priority::Normal => 2,
            Priority::Low => 3,
            Priority::Background => 4,
        }
    }

    /// The priority's rank, 0 for `Critical` up to 4 for `Background`.
    #[verifier::when_used_as_spec(spec_rank)]
    pub fn rank(&self) -> (r: u8)
        ensures
            r == self.spec_rank(),
    {
        match self {
            Priority::Critical => 0,
            Priority::High => 1,
            Priority::Normal => 2,
            Priority::Low => 3,
            Priority::Background => 4,
        }
    }
}

impl Default for Priority {
    fn default() -> (r: Self)
        ensures
            r == Priority::Normal,
    {
        Priority::Normal
    }
}

// =============================================================================
// Data types
// =============================================================================

/// Tensor data types.
#[derive(Debug, Clone, Copy, PartialEq, Eq, Hash, Structural)]
pub enum DType {
    Float32,
    Float16,
    BFloat16,
    Float8E4M3,
    Float8E5M2,
    Int8,
    Int4,
    Uint8,
}

impl DType {
    /// Bytes per element: 4 for f32, 2 for the 16-bit types, 1 for the rest
    /// (packed int4 rounds up to a byte).
    pub open spec fn spec_size_bytes(&self) -> usize {
        match self {
            DType::Float32 => 4,
            DType::Float16 | DType::BFloat16 => 2,
            _ => 1,
        }
    }

    /// Size in bytes per element.
    #[verifier::when_used_as_spec(spec_size_bytes)]
    pub fn size_bytes(&self) -> (r: usize)
        ensures
            r == self.spec_size_bytes(),
            1 <= r <= 4,
    {
        match self {
            DType::Float32 => 4,
            DType::Float16 | DType::BFloat16 => 2,
            _ => 1,
        }
    }
}

impl Default for DType {
    fn default() -> (r: Self)
        ensures
            r == DType::Float16,
    {
        DType::Float16
    }
}


/// Bits per element of a data type.
pub open spec fn bit_width(d: DType) -> int {
    match d {
        DType::Float32 => 32,
        DType::Float16 => 16,
        DType::BFloat16 => 16,
        DType::Float8E4M3 => 8,
        DType::Float8E5M2 => 8,
        DType::Int8 => 8,
        DType::Int4 => 4,
        DType::Uint8 => 8,
    }
}

/// An element takes its bit width rounded up to whole bytes: enough bytes
/// for its bits, and one byte fewer would not be.
pub proof fn law_element_size_is_bit_width_in_bytes(d: DType)
    ensures
        d.spec_size_bytes() * 8 >= bit_width(d),
        (d.spec_size_bytes() - 1) * 8 < bit_width(d),
{
}

/// Model weights are exactly dense weights, expert weights and embedding
/// tables; every other state type is recomputable.
pub proof fn law_weight_types(t: StateType)
    ensures
        t is Weight ==> t.spec_is_weight(),
        t is ExpertWeight ==> t.spec_is_weight(),
        t is Embedding ==> t.spec_is_weight(),
        !(t is Weight || t is ExpertWeight || t is Embedding) ==> !t.spec_is_weight(),
{
}

/// Every physical tier holds materialized state, local or remote; only the
/// two virtual locations do not.
pub proof fn law_physical_tiers_materialized(l: Location)
    ensures
        l is Hbm ==> l.spec_is_materialized(),
        l is Dram ==> l.spec_is_materialized(),
        l is Cxl ==> l.spec_is_materialized(),
        l is Nvme ==> l.spec_is_materialized(),
        l is RemoteGpu ==> l.spec_is_materialized(),
        l is RemoteHost ==> l.spec_is_materialized(),
        l is NotMaterialized ==> !l.spec_is_materialized(),
        l is Evicted ==> !l.spec_is_materialized(),
{
}


/// The location classes fit together: local tiers are HBM, DRAM, CXL and
/// NVMe; remote ones are another GPU's or host's memory; a location is
/// materialized exactly when it is local or remote, never both; GPU memory
/// is local or remote HBM.
pub proof fn law_location_classes(l: Location)
    ensures
        l.spec_is_local() <==> (l is Hbm || l is Dram || l is Cxl || l is Nvme),
        l.spec_is_remote() <==> (l is RemoteGpu || l is RemoteHost),
        l.spec_is_materialized() <==> (l.spec_is_local() || l.spec_is_remote()),
        !(l.spec_is_local() && l.spec_is_remote()),
        l.spec_is_gpu() <==> (l is Hbm || l is RemoteGpu),
{
}

/// Actions that move state are move, prefetch and replicate; actions that
/// compute are recompute and approximate; no action does both.
pub proof fn law_action_classes(a: Action)
    ensures
        a.spec_is_movement() <==> (a is Move || a is Prefetch || a is Replicate),
        a.spec_is_compute() <==> (a is Recompute || a is Approximate),
        !(a.spec_is_movement() && a.spec_is_compute()),
{
}

/// Priority ranks rise as urgency falls: Critical below High below Normal
/// below Low below Background.
pub proof fn law_priority_ranks_follow_urgency()
    ensures
        Priority::Critical.spec_rank() < Priority::High.spec_rank(),
        Priority::High.spec_rank() < Priority::Normal.spec_rank(),
        Priority::Normal.spec_rank() < Priority::Low.spec_rank(),
        Priority::Low.spec_rank() < Priority::Background.spec_rank(),
{
}

} // verus!
