//! The execution graph: the operations of an inference step in execution
//! order, with the states each reads and writes.
//!
//! The graph is the sequence of operations added to it. An operation is
//! found by its identifier (the one added last wins); a state's producer
//! is the last operation added that writes it; its consumers are the
//! operations that read it, once per read, in the order they were added.
//! Operation compute costs (floats) are kept by the planner.

use vstd::prelude::*;
use crate::types::{ExpertId, LayerId, OperationId, OperationType, StateId};

verus! {

/// A single operation in the execution graph.
#[derive(Debug)]
pub struct Operation {
    /// Unique identifier.
    pub id: OperationId,
    /// Type of operation.
    pub op_type: OperationType,
    /// Human-readable name.
    pub name: String,
    /// Input states required.
    pub inputs: Vec<StateId>,
    /// Output states produced.
    pub outputs: Vec<StateId>,
    /// Memory required for execution (bytes).
    pub memory_bytes: u64,
    /// FLOPs for this operation.
    pub flops: u64,
    /// Layer this operation belongs to.
    pub layer_id: Option<LayerId>,
    /// Expert ID for MoE operations.
    pub expert_id: Option<ExpertId>,
    /// Whether this is compute-bound (vs memory-bound).
    pub is_compute_bound: bool,
    /// Whether this can overlap with other operations.
    pub can_overlap: bool,
}

/// Whether a list of states holds `s`.
pub open spec fn holds(v: Seq<StateId>, s: Seq<char>) -> bool {
    exists|k: int| 0 <= k < v.len() && #[trigger] v[k]@ == s
}

/// Whether a list of states holds `s` (computed).
pub fn contains_state(v: &Vec<StateId>, s: &StateId) -> (r: bool)
    ensures
        r == holds(v@, s@),
{
    let mut k: usize = 0;
    while k < v.len()
        invariant
            k <= v@.len(),
            forall|j: int| 0 <= j < k ==> v@[j]@ != s@,
        decreases v@.len() - k,
    {
        if v[k].same(s) {
            assert(v@[k as int]@ == s@);
            return true;
        }
        k = k + 1;
    }
    false
}

impl Operation {
    /// A new operation of the given type, named by its identifier, with no
    /// inputs or outputs, no memory or FLOPs, no layer or expert,
    /// compute-bound and overlappable.
    pub fn new(id: String, op_type: OperationType) -> (r: Self)
        ensures
            r.id@ == id@,
            r.name@ == id@,
            r.op_type == op_type,
            r.inputs@.len() == 0,
            r.outputs@.len() == 0,
            r.memory_bytes == 0,
            r.flops == 0,
            r.layer_id is None,
            r.expert_id is None,
            r.is_compute_bound,
            r.can_overlap,
    {
        let name = id.clone();
        Operation {
            id: OperationId(id),
            op_type,
            name,
            inputs: Vec::new(),
            outputs: Vec::new(),
            memory_bytes: 0,
            flops: 0,
            layer_id: None,
            expert_id: None,
            is_compute_bound: true,
            can_overlap: true,
        }
    }

    /// Add an input state.
    pub fn with_input(self, state: StateId) -> (r: Self)
        ensures
            r.inputs@ == self.inputs@.push(state),
            r == (Operation { inputs: r.inputs, ..self }),
    {
        let mut op = self;
        op.inputs.push(state);
        op
    }

    /// Add an output state.
    pub fn with_output(self, state: StateId) -> (r: Self)
        ensures
            r.outputs@ == self.outputs@.push(state),
            r == (Operation { outputs: r.outputs, ..self }),
    {
        let mut op = self;
        op.outputs.push(state);
        op
    }

    /// Set memory requirement.
    pub fn with_memory(self, bytes: u64) -> (r: Self)
        ensures
            r == (Operation { memory_bytes: bytes, ..self }),
    {
        let mut op = self;
        op.memory_bytes = bytes;
        op
    }

    /// Set layer ID.
    pub fn with_layer(self, layer_id: LayerId) -> (r: Self)
        ensures
            r == (Operation { layer_id: Some(layer_id), ..self }),
    {
        let mut op = self;
        op.layer_id = Some(layer_id);
        op
    }
}

// =============================================================================
// The graph's model
// =============================================================================

/// Index of the last operation added with identifier `id`.
pub open spec fn last_with_id(h: Seq<Operation>, id: Seq<char>) -> Option<int>
    decreases h.len(),
{
    if h.len() == 0 {
        None
    } else if h.last().id@ == id {
        Some(h.len() - 1)
    } else {
        last_with_id(h.drop_last(), id)
    }
}

/// Index of the last operation added that writes state `s`.
pub open spec fn last_producer(h: Seq<Operation>, s: Seq<char>) -> Option<int>
    decreases h.len(),
{
    if h.len() == 0 {
        None
    } else if holds(h.last().outputs@, s) {
        Some(h.len() - 1)
    } else {
        last_producer(h.drop_last(), s)
    }
}

/// The operation stored under an identifier that was added: the last one
/// added with it.
pub open spec fn current(h: Seq<Operation>, id: Seq<char>) -> Operation {
    h[last_with_id(h, id).unwrap()]
}

/// How many times a list of states holds `s`.
pub open spec fn reads(v: Seq<StateId>, s: Seq<char>) -> nat
    decreases v.len(),
{
    if v.len() == 0 {
        0
    } else {
        reads(v.drop_last(), s) + if v.last()@ == s {
            1nat
        } else {
            0nat
        }
    }
}

/// The identifiers of the consumers of `s`: each operation that reads it,
/// once per read, in the order the operations were added.
pub open spec fn consumer_ids(h: Seq<Operation>, s: Seq<char>) -> Seq<Seq<char>>
    decreases h.len(),
{
    if h.len() == 0 {
        Seq::empty()
    } else {
        consumer_ids(h.drop_last(), s) + Seq::new(reads(h.last().inputs@, s), |i: int| h.last().id@)
    }
}

/// The identifiers of the operations in execution order.
pub open spec fn order(h: Seq<Operation>) -> Seq<Seq<char>> {
    h.map_values(|op: Operation| op.id@)
}

/// The end of the window of `horizon` operations from `start`.
pub open spec fn window_end(len: int, start: int, horizon: int) -> int {
    if start + horizon < len {
        start + horizon
    } else {
        len
    }
}

/// Index of the first operation of `ops` that reads `s`.
pub open spec fn first_reader(ops: Seq<Operation>, s: Seq<char>) -> Option<int>
    decreases ops.len(),
{
    if ops.len() == 0 {
        None
    } else {
        match first_reader(ops.drop_last(), s) {
            Some(i) => Some(i),
            None => if holds(ops.last().inputs@, s) {
                Some(ops.len() - 1)
            } else {
                None
            },
        }
    }
}

proof fn lemma_last_with_id(h: Seq<Operation>, id: Seq<char>)
    ensures
        last_with_id(h, id) matches Some(i) ==> 0 <= i < h.len() && h[i].id@ == id && forall|j: int|
            i < j < h.len() ==> h[j].id@ != id,
        last_with_id(h, id) is None ==> forall|j: int| 0 <= j < h.len() ==> h[j].id@ != id,
    decreases h.len(),
{
    if h.len() > 0 {
        lemma_last_with_id(h.drop_last(), id);
        assert forall|j: int| 0 <= j < h.len() - 1 implies h.drop_last()[j] == h[j] by {}
    }
}

proof fn lemma_last_producer(h: Seq<Operation>, s: Seq<char>)
    ensures
        last_producer(h, s) matches Some(i) ==> 0 <= i < h.len() && holds(h[i].outputs@, s)
            && forall|j: int| i < j < h.len() ==> !holds(h[j].outputs@, s),
        last_producer(h, s) is None ==> forall|j: int| 0 <= j < h.len() ==> !holds(h[j].outputs@, s),
    decreases h.len(),
{
    if h.len() > 0 {
        lemma_last_producer(h.drop_last(), s);
        assert forall|j: int| 0 <= j < h.len() - 1 implies h.drop_last()[j] == h[j] by {}
    }
}

/// Every identifier in the graph's order names a stored operation.
proof fn lemma_order_found(h: Seq<Operation>, j: int)
    requires
        0 <= j < h.len(),
    ensures
        last_with_id(h, h[j].id@) is Some,
    decreases h.len(),
{
    if j < h.len() - 1 && h.last().id@ != h[j].id@ {
        lemma_order_found(h.drop_last(), j);
    }
}

/// The producers, in order, of those of `inputs` that have one: for each
/// such input, the operation stored under its last producer's identifier.
pub open spec fn producers_of(h: Seq<Operation>, inputs: Seq<StateId>) -> Seq<Operation>
    decreases inputs.len(),
{
    if inputs.len() == 0 {
        Seq::empty()
    } else {
        producers_of(h, inputs.drop_last()) + match last_producer(h, inputs.last()@) {
            Some(j) => seq![current(h, h[j].id@)],
            None => Seq::empty(),
        }
    }
}

/// The positions (counted from `start`) of the first `n` operations of the
/// execution order from `start` whose stored operation reads `s`, with
/// their identifiers.
pub open spec fn demand_curve(h: Seq<Operation>, s: Seq<char>, start: int, n: nat) -> Seq<(int, Seq<char>)>
    decreases n,
{
    if n == 0 {
        Seq::empty()
    } else {
        let k = (n - 1) as nat;
        demand_curve(h, s, start, k) + if holds(current(h, h[start + k].id@).inputs@, s) {
            seq![(k as int, h[start + k].id@)]
        } else {
            Seq::empty()
        }
    }
}

/// The stored operations of the execution order from `start`, at most
/// `horizon` of them.
pub open spec fn future_ops(h: Seq<Operation>, start: int, horizon: int) -> Seq<Operation> {
    Seq::new(
        (window_end(h.len() as int, start, horizon) - start) as nat,
        |i: int| current(h, h[start + i].id@),
    )
}

/// The number of distinct values in a sequence.
pub open spec fn distinct_count(v: Seq<Seq<char>>) -> nat
    decreases v.len(),
{
    if v.len() == 0 {
        0
    } else {
        distinct_count(v.drop_last()) + if v.drop_last().contains(v.last()) {
            0nat
        } else {
            1nat
        }
    }
}

/// Every state written, in order, once per write.
pub open spec fn all_outputs(h: Seq<Operation>) -> Seq<Seq<char>>
    decreases h.len(),
{
    if h.len() == 0 {
        Seq::empty()
    } else {
        all_outputs(h.drop_last()) + h.last().outputs@.map_values(|s: StateId| s@)
    }
}

// =============================================================================
// Execution Graph
// =============================================================================

/// Execution graph: the operations added, in execution order.
#[derive(Debug)]
pub struct ExecutionGraph {
    ops: Vec<Operation>,
}

impl ExecutionGraph {
    /// The operations added, in order.
    pub closed spec fn history(&self) -> Seq<Operation> {
        self.ops@
    }

    /// Create a new empty graph.
    pub fn new() -> (r: Self)
        ensures
            r.history().len() == 0,
    {
        ExecutionGraph { ops: Vec::new() }
    }

    /// Add an operation at the end of the execution order.
    pub fn add_operation(&mut self, op: Operation)
        ensures
            final(self).history() == old(self).history().push(op),
    {
        self.ops.push(op);
    }

    /// Index of the operation stored under an identifier.
    fn find(&self, id: &OperationId) -> (r: Option<usize>)
        ensures
            r matches Some(i) ==> last_with_id(self.history(), id@) == Some(i as int) && i
                < self.history().len(),
            r is None ==> last_with_id(self.history(), id@) is None,
    {
        proof {
            lemma_last_with_id(self.history(), id@);
        }
        let mut k: usize = self.ops.len();
        while k > 0
            invariant
                k <= self.ops@.len(),
                forall|j: int| k <= j < self.ops@.len() ==> self.ops@[j].id@ != id@,
            decreases k,
        {
            if self.ops[k - 1].id.same(id) {
                proof {
                    lemma_last_with_id_at(self.ops@, id@, (k - 1) as int);
                }
                return Some(k - 1);
            }
            k = k - 1;
        }
        proof {
            lemma_last_with_id_none(self.ops@, id@);
        }
        None
    }

    /// The operation stored under an identifier: the last added with it.
    pub fn get_operation(&self, id: &OperationId) -> (r: Option<&Operation>)
        ensures
            r is Some == (last_with_id(self.history(), id@) is Some),
            r matches Some(op) ==> *op == current(self.history(), id@),
    {
        match self.find(id) {
            Some(i) => Some(&self.ops[i]),
            None => None,
        }
    }

    /// Index of the last operation that writes a state.
    fn producer_index(&self, state_id: &StateId) -> (r: Option<usize>)
        ensures
            r matches Some(i) ==> last_producer(self.history(), state_id@) == Some(i as int),
            r is None ==> last_producer(self.history(), state_id@) is None,
    {
        let mut k: usize = self.ops.len();
        while k > 0
            invariant
                k <= self.ops@.len(),
                forall|j: int| k <= j < self.ops@.len() ==> !holds(self.ops@[j].outputs@, state_id@),
            decreases k,
        {
            if contains_state(&self.ops[k - 1].outputs, state_id) {
                proof {
                    lemma_last_producer_at(self.ops@, state_id@, (k - 1) as int);
                }
                return Some(k - 1);
            }
            k = k - 1;
        }
        proof {
            lemma_last_producer_none(self.ops@, state_id@);
        }
        None
    }

    /// The operation that produces a state: the one stored under the
    /// identifier of the last operation added that writes it.
    pub fn get_producer(&self, state_id: &StateId) -> (r: Option<&Operation>)
        ensures
            r is Some == (last_producer(self.history(), state_id@) is Some),
            r matches Some(op) ==> *op == current(
                self.history(),
                self.history()[last_producer(self.history(), state_id@).unwrap()].id@,
            ),
    {
        proof {
            lemma_last_producer(self.ops@, state_id@);
        }
        match self.producer_index(state_id) {
            Some(j) => {
                proof {
                    lemma_order_found(self.ops@, j as int);
                }
                match self.find(&self.ops[j].id) {
                    Some(i) => Some(&self.ops[i]),
                    None => None,
                }
            },
            None => None,
        }
    }

    /// The operations that consume a state: for each read of it, in the
    /// order the readers were added, the operation stored under the
    /// reader's identifier.
    pub fn get_consumers(&self, state_id: &StateId) -> (r: Vec<&Operation>)
        ensures
            r@.len() == consumer_ids(self.history(), state_id@).len(),
            forall|i: int|
                0 <= i < r@.len() ==> *r@[i] == current(
                    self.history(),
                    consumer_ids(self.history(), state_id@)[i],
                ),
    {
        let mut out: Vec<&Operation> = Vec::new();
        let mut j: usize = 0;
        while j < self.ops.len()
            invariant
                j <= self.ops@.len(),
                out@.len() == consumer_ids(self.ops@.take(j as int), state_id@).len(),
                forall|i: int|
                    0 <= i < out@.len() ==> *out@[i] == current(
                        self.ops@,
                        consumer_ids(self.ops@.take(j as int), state_id@)[i],
                    ),
                forall|i: int|
                    0 <= i < consumer_ids(self.ops@.take(j as int), state_id@).len()
                        ==> last_with_id(
                        self.ops@,
                        #[trigger] consumer_ids(self.ops@.take(j as int), state_id@)[i],
                    ) is Some,
            decreases self.ops@.len() - j,
        {
            let ghost before = consumer_ids(self.ops@.take(j as int), state_id@);
            proof {
                assert(self.ops@.take(j + 1).drop_last() =~= self.ops@.take(j as int));
                lemma_order_found(self.ops@, j as int);
            }
            let op = &self.ops[j];
            let ghost block = Seq::new(reads(op.inputs@, state_id@), |i: int| op.id@);
            let found = self.find(&op.id);
            let mut k: usize = 0;
            while k < op.inputs.len()
                invariant
                    k <= op.inputs@.len(),
                    found matches Some(x) && x < self.ops@.len() && last_with_id(self.ops@, op.id@)
                        == Some(x as int),
                    out@.len() == before.len() + reads(op.inputs@.take(k as int), state_id@),
                    forall|i: int|
                        0 <= i < before.len() ==> *out@[i] == current(self.ops@, before[i]),
                    forall|i: int|
                        before.len() <= i < out@.len() ==> *out@[i] == current(self.ops@, op.id@),
                decreases op.inputs@.len() - k,
            {
                proof {
                    assert(op.inputs@.take(k + 1).drop_last() =~= op.inputs@.take(k as int));
                }
                if op.inputs[k].same(state_id) {
                    match found {
                        Some(x) => out.push(&self.ops[x]),
                        None => {},
                    }
                }
                k = k + 1;
            }
            proof {
                assert(op.inputs@.take(k as int) =~= op.inputs@);
                let after = consumer_ids(self.ops@.take(j + 1), state_id@);
                assert(after =~= before + block);
                assert forall|i: int| 0 <= i < out@.len() implies *out@[i] == current(
                    self.ops@,
                    after[i],
                ) by {
                    if i >= before.len() {
                        assert(after[i] == op.id@);
                    }
                }
                assert forall|i: int| 0 <= i < after.len() implies last_with_id(
                    self.ops@,
                    #[trigger] after[i],
                ) is Some by {
                    if i >= before.len() {
                        assert(after[i] == op.id@);
                    }
                }
            }
            j = j + 1;
        }
        proof {
            assert(self.ops@.take(j as int) =~= self.ops@);
        }
        out
    }

    /// The operations stored under the identifiers of the execution order
    /// from `current_idx`, at most `horizon` of them.
    pub fn project_future(&self, current_idx: usize, horizon: usize) -> (r: Vec<&Operation>)
        requires
            current_idx <= self.history().len(),
            current_idx + horizon <= usize::MAX,
        ensures
            r@.len() == window_end(self.history().len() as int, current_idx as int, horizon as int)
                - current_idx,
            forall|i: int|
                0 <= i < r@.len() ==> *r@[i] == current(
                    self.history(),
                    self.history()[current_idx + i].id@,
                ),
    {
        let end = if current_idx + horizon < self.ops.len() {
            current_idx + horizon
        } else {
            self.ops.len()
        };
        let mut out: Vec<&Operation> = Vec::new();
        let mut j: usize = current_idx;
        while j < end
            invariant
                current_idx <= j <= end,
                end <= self.ops@.len(),
                out@.len() == j - current_idx,
                forall|i: int|
                    0 <= i < out@.len() ==> *out@[i] == current(
                        self.ops@,
                        self.ops@[current_idx + i].id@,
                    ),
            decreases end - j,
        {
            proof {
                lemma_order_found(self.ops@, j as int);
            }
            match self.find(&self.ops[j].id) {
                Some(x) => out.push(&self.ops[x]),
                None => {},
            }
            j = j + 1;
        }
        out
    }

    /// The producers of an operation's inputs, in input order, for the
    /// inputs that have one; nothing for an unknown operation.
    pub fn get_dependencies(&self, op_id: &OperationId) -> (r: Vec<&Operation>)
        ensures
            match last_with_id(self.history(), op_id@) {
                Some(i) => r@.len() == producers_of(self.history(), self.history()[i].inputs@).len()
                    && forall|k: int|
                    0 <= k < r@.len() ==> *r@[k] == producers_of(
                        self.history(),
                        self.history()[i].inputs@,
                    )[k],
                None => r@.len() == 0,
            },
    {
        let mut out: Vec<&Operation> = Vec::new();
        match self.find(op_id) {
            None => out,
            Some(i) => {
                let op = &self.ops[i];
                let mut k: usize = 0;
                while k < op.inputs.len()
                    invariant
                        i < self.ops@.len(),
                        *op == self.ops@[i as int],
                        k <= op.inputs@.len(),
                        out@.len() == producers_of(self.ops@, op.inputs@.take(k as int)).len(),
                        forall|m: int|
                            0 <= m < out@.len() ==> *out@[m] == producers_of(
                                self.ops@,
                                op.inputs@.take(k as int),
                            )[m],
                    decreases op.inputs@.len() - k,
                {
                    proof {
                        assert(op.inputs@.take(k + 1).drop_last() =~= op.inputs@.take(k as int));
                    }
                    match self.get_producer(&op.inputs[k]) {
                        Some(p) => out.push(p),
                        None => {},
                    }
                    k = k + 1;
                }
                proof {
                    assert(op.inputs@.take(k as int) =~= op.inputs@);
                }
                out
            },
        }
    }

    /// The states the next `horizon` operations from `current_idx` read,
    /// each once, with the position (from `current_idx`) of the first
    /// operation that reads it. (The urgency of a demand falls with that
    /// position; the planner computes it.)
    pub fn get_future_state_demands(&self, current_idx: usize, horizon: usize) -> (r: Vec<
        (StateId, usize),
    >)
        requires
            current_idx <= self.history().len(),
            current_idx + horizon <= usize::MAX,
        ensures
            forall|a: int, b: int| 0 <= a < b < r@.len() ==> r@[a].0@ != r@[b].0@,
            forall|a: int|
                0 <= a < r@.len() ==> first_reader(
                    future_ops(self.history(), current_idx as int, horizon as int),
                    #[trigger] r@[a].0@,
                ) == Some(r@[a].1 as int),
            forall|s: Seq<char>|
                #[trigger] first_reader(future_ops(self.history(), current_idx as int, horizon as int), s)
                    is Some ==> exists|a: int| 0 <= a < r@.len() && r@[a].0@ == s,
    {
        let future = self.project_future(current_idx, horizon);
        let ghost fut = future_ops(self.ops@, current_idx as int, horizon as int);
        proof {
            assert forall|i: int| 0 <= i < future@.len() implies *future@[i] == fut[i] by {}
            assert(future@.len() == fut.len());
        }
        let mut demands: Vec<(StateId, usize)> = Vec::new();
        let mut i: usize = 0;
        while i < future.len()
            invariant
                i <= future@.len(),
                future@.len() == fut.len(),
                forall|x: int| 0 <= x < future@.len() ==> *future@[x] == fut[x],
                forall|a: int, b: int| 0 <= a < b < demands@.len() ==> demands@[a].0@ != demands@[b].0@,
                forall|a: int|
                    0 <= a < demands@.len() ==> first_reader(fut.take(i as int), #[trigger] demands@[a].0@)
                        == Some(demands@[a].1 as int),
                forall|s: Seq<char>|
                    #[trigger] first_reader(fut.take(i as int), s) is Some ==> exists|a: int|
                        0 <= a < demands@.len() && demands@[a].0@ == s,
            decreases future@.len() - i,
        {
            let op = future[i];
            let ghost pre = fut.take(i as int);
            let ghost next = fut.take(i + 1);
            proof {
                assert(next.drop_last() =~= pre);
                assert(next.last() == *op);
            }
            let ghost before = demands@;
            let mut k: usize = 0;
            while k < op.inputs.len()
                invariant
                    k <= op.inputs@.len(),
                    i < future@.len(),
                    next.drop_last() == pre,
                    next.last() == *op,
                    next.len() == i + 1,
                    before.len() <= demands@.len(),
                    forall|a: int| 0 <= a < before.len() ==> demands@[a] == before[a],
                    forall|a: int, b: int| 0 <= a < b < demands@.len() ==> demands@[a].0@ != demands@[b].0@,
                    forall|a: int|
                        0 <= a < before.len() ==> first_reader(pre, #[trigger] before[a].0@) == Some(
                            before[a].1 as int,
                        ),
                    forall|s: Seq<char>|
                        #[trigger] first_reader(pre, s) is Some ==> exists|a: int|
                            0 <= a < before.len() && before[a].0@ == s,
                    forall|a: int|
                        before.len() <= a < demands@.len() ==> first_reader(pre, #[trigger] demands@[a].0@)
                            is None && demands@[a].1 == i && holds(op.inputs@, demands@[a].0@),
                    forall|m: int|
                        0 <= m < k ==> exists|a: int|
                            0 <= a < demands@.len() && demands@[a].0@ == #[trigger] op.inputs@[m]@,
                decreases op.inputs@.len() - k,
            {
                let input = &op.inputs[k];
                let ghost d0 = demands@;
                let mut present = false;
                let mut a: usize = 0;
                while a < demands.len()
                    invariant
                        a <= demands@.len(),
                        present ==> exists|x: int| 0 <= x < demands@.len() && demands@[x].0@ == input@,
                        !present ==> forall|x: int| 0 <= x < a ==> demands@[x].0@ != input@,
                    decreases demands@.len() - a,
                {
                    if demands[a].0.same(input) {
                        present = true;
                    }
                    a = a + 1;
                }
                if !present {
                    proof {
                        if first_reader(pre, input@) is Some {
                            let x = choose|x: int| 0 <= x < before.len() && before[x].0@ == input@;
                            assert(demands@[x].0@ == input@);
                        }
                        assert(op.inputs@[k as int]@ == input@);
                    }
                    demands.push((input.clone(), i));
                }
                proof {
                    assert forall|m: int| 0 <= m < k + 1 implies exists|a: int|
                        0 <= a < demands@.len() && demands@[a].0@ == #[trigger] op.inputs@[m]@ by {
                        if m < k {
                            let a = choose|a: int| 0 <= a < d0.len() && d0[a].0@ == op.inputs@[m]@;
                            assert(demands@[a] == d0[a]);
                        } else if present {
                            let a = choose|a: int| 0 <= a < demands@.len() && demands@[a].0@ == input@;
                            assert(demands@[a].0@ == op.inputs@[m]@);
                        } else {
                            assert(demands@[demands@.len() - 1].0@ == op.inputs@[m]@);
                        }
                    }
                }
                k = k + 1;
            }
            proof {
                assert forall|a: int| 0 <= a < demands@.len() implies first_reader(
                    next,
                    #[trigger] demands@[a].0@,
                ) == Some(demands@[a].1 as int) by {
                    if a < before.len() {
                        assert(demands@[a] == before[a]);
                    }
                }
                assert forall|s: Seq<char>| #[trigger] first_reader(next, s) is Some implies exists|a: int|
                    0 <= a < demands@.len() && demands@[a].0@ == s by {
                    if first_reader(pre, s) is Some {
                        let x = choose|x: int| 0 <= x < before.len() && before[x].0@ == s;
                        assert(demands@[x].0@ == s);
                    } else {
                        let m = choose|m: int| 0 <= m < op.inputs@.len() && #[trigger] op.inputs@[m]@ == s;
                        assert(op.inputs@[m]@ == s);
                    }
                }
            }
            i = i + 1;
        }
        proof {
            assert(fut.take(i as int) =~= fut);
        }
        demands
    }

    /// The positions (counted from `current_idx`) and identifiers of the
    /// operations from `current_idx` on whose stored operation reads a state.
    pub fn get_state_demand_curve(&self, state_id: &StateId, current_idx: usize) -> (r: Vec<
        (usize, OperationId),
    >)
        requires
            current_idx <= self.history().len(),
        ensures
            r@.len() == demand_curve(
                self.history(),
                state_id@,
                current_idx as int,
                (self.history().len() - current_idx) as nat,
            ).len(),
            forall|k: int|
                0 <= k < r@.len() ==> r@[k].0 == demand_curve(
                    self.history(),
                    state_id@,
                    current_idx as int,
                    (self.history().len() - current_idx) as nat,
                )[k].0 && r@[k].1@ == demand_curve(
                    self.history(),
                    state_id@,
                    current_idx as int,
                    (self.history().len() - current_idx) as nat,
                )[k].1,
    {
        let mut out: Vec<(usize, OperationId)> = Vec::new();
        let mut j: usize = current_idx;
        while j < self.ops.len()
            invariant
                current_idx <= j <= self.ops@.len(),
                out@.len() == demand_curve(self.ops@, state_id@, current_idx as int, (j - current_idx) as nat).len(),
                forall|k: int|
                    0 <= k < out@.len() ==> out@[k].0 == demand_curve(
                        self.ops@,
                        state_id@,
                        current_idx as int,
                        (j - current_idx) as nat,
                    )[k].0 && out@[k].1@ == demand_curve(
                        self.ops@,
                        state_id@,
                        current_idx as int,
                        (j - current_idx) as nat,
                    )[k].1,
            decreases self.ops@.len() - j,
        {
            proof {
                lemma_order_found(self.ops@, j as int);
            }
            match self.find(&self.ops[j].id) {
                Some(x) => {
                    if contains_state(&self.ops[x].inputs, state_id) {
                        out.push((j - current_idx, self.ops[j].id.clone()));
                    }
                },
                None => {},
            }
            j = j + 1;
        }
        out
    }

    /// The inputs of a state's producer, from which it can be recomputed.
    pub fn find_recompute_info(&self, state_id: &StateId) -> (r: Option<Vec<StateId>>)
        ensures
            r is Some == (last_producer(self.history(), state_id@) is Some),
            r matches Some(v) ==> v@ == current(
                self.history(),
                self.history()[last_producer(self.history(), state_id@).unwrap()].id@,
            ).inputs@,
    {
        match self.get_producer(state_id) {
            Some(p) => {
                let mut v: Vec<StateId> = Vec::new();
                let mut k: usize = 0;
                while k < p.inputs.len()
                    invariant
                        k <= p.inputs@.len(),
                        v@ == p.inputs@.take(k as int),
                    decreases p.inputs@.len() - k,
                {
                    v.push(p.inputs[k].clone());
                    k = k + 1;
                    assert(v@ =~= p.inputs@.take(k as int));
                }
                assert(p.inputs@.take(k as int) =~= p.inputs@);
                Some(v)
            },
            None => None,
        }
    }

    /// Number of distinct operations (identifiers).
    pub fn num_operations(&self) -> (r: usize)
        ensures
            r == distinct_count(order(self.history())),
    {
        let ghost ids = order(self.ops@);
        let mut count: usize = 0;
        let mut j: usize = 0;
        while j < self.ops.len()
            invariant
                j <= self.ops@.len(),
                ids == order(self.ops@),
                ids.len() == self.ops@.len(),
                count == distinct_count(ids.take(j as int)),
                count <= j,
            decreases self.ops@.len() - j,
        {
            let mut seen = false;
            let mut m: usize = 0;
            while m < j
                invariant
                    m <= j,
                    j < self.ops@.len(),
                    ids == order(self.ops@),
                    seen == ids.take(m as int).contains(self.ops@[j as int].id@),
                decreases j - m,
            {
                proof {
                    assert(ids.take(m + 1) =~= ids.take(m as int).push(ids[m as int]));
                    assert(ids[m as int] == self.ops@[m as int].id@);
                }
                let same = self.ops[m].id.same(&self.ops[j].id);
                proof {
                    let t = self.ops@[j as int].id@;
                    if same {
                        assert(ids.take(m + 1)[m as int] == t);
                    } else if ids.take(m as int).contains(t) {
                        let x = choose|x: int| 0 <= x < m && ids.take(m as int)[x] == t;
                        assert(ids.take(m + 1)[x] == t);
                    } else {
                        assert forall|x: int| 0 <= x < m + 1 implies #[trigger] ids.take(m + 1)[x] != t by {
                            if x < m {
                                assert(ids.take(m as int)[x] == ids.take(m + 1)[x]);
                            }
                        }
                    }
                }
                if same {
                    seen = true;
                }
                m = m + 1;
            }
            proof {
                assert(ids.take(j + 1).drop_last() =~= ids.take(j as int));
                assert(ids.take(j + 1).last() == self.ops@[j as int].id@);
            }
            if !seen {
                count = count + 1;
            }
            j = j + 1;
        }
        proof {
            assert(ids.take(j as int) =~= ids);
        }
        count
    }

    /// Number of distinct states produced.
    pub fn num_states(&self) -> (r: usize)
        ensures
            r == distinct_count(all_outputs(self.history())),
    {
        let mut seen: Vec<StateId> = Vec::new();
        let mut count: usize = 0;
        let mut j: usize = 0;
        while j < self.ops.len()
            invariant
                j <= self.ops@.len(),
                seen@.map_values(|x: StateId| x@) == all_outputs(self.ops@.take(j as int)),
                count == distinct_count(all_outputs(self.ops@.take(j as int))),
                count <= seen@.len(),
            decreases self.ops@.len() - j,
        {
            let op = &self.ops[j];
            let ghost base = all_outputs(self.ops@.take(j as int));
            let ghost outs = op.outputs@.map_values(|x: StateId| x@);
            proof {
                assert(self.ops@.take(j + 1).drop_last() =~= self.ops@.take(j as int));
                assert(self.ops@.take(j + 1).last() == *op);
            }
            let mut k: usize = 0;
            while k < op.outputs.len()
                invariant
                    k <= op.outputs@.len(),
                    outs == op.outputs@.map_values(|x: StateId| x@),
                    seen@.map_values(|x: StateId| x@) == base + outs.take(k as int),
                    count == distinct_count(base + outs.take(k as int)),
                    count <= seen@.len(),
                decreases op.outputs@.len() - k,
            {
                let s_k = &op.outputs[k];
                let ghost flat = base + outs.take(k as int);
                let ghost flat2 = base + outs.take(k + 1);
                proof {
                    assert(flat2.drop_last() =~= flat);
                    assert(flat2.last() == s_k@);
                    assert(holds(seen@, s_k@) == flat.contains(s_k@)) by {
                        if holds(seen@, s_k@) {
                            let x = choose|x: int| 0 <= x < seen@.len() && #[trigger] seen@[x]@ == s_k@;
                            assert(seen@.map_values(|y: StateId| y@)[x] == s_k@);
                        }
                        if flat.contains(s_k@) {
                            let x = choose|x: int| 0 <= x < flat.len() && flat[x] == s_k@;
                            assert(seen@.map_values(|y: StateId| y@)[x] == s_k@);
                            assert(seen@[x]@ == s_k@);
                        }
                    }
                }
                let dup = contains_state(&seen, s_k);
                let ghost old_seen = seen@;
                let c = s_k.clone();
                seen.push(c);
                let seen_len = seen.len();
                if !dup {
                    count = count + 1;
                }
                proof {
                    assert(seen@ == old_seen.push(c));
                    assert(c@ == s_k@);
                    assert forall|x: int| 0 <= x < flat2.len() implies seen@.map_values(|y: StateId| y@)[x] == flat2[x] by {
                        if x < flat.len() {
                            assert(old_seen.map_values(|y: StateId| y@)[x] == flat[x]);
                        }
                    }
                    assert(seen@.map_values(|x: StateId| x@) =~= flat2);
                }
                k = k + 1;
            }
            proof {
                assert(outs.take(k as int) =~= outs);
                assert(all_outputs(self.ops@.take(j + 1)) == base + outs);
            }
            j = j + 1;
        }
        proof {
            assert(self.ops@.take(j as int) =~= self.ops@);
        }
        count
    }

    /// Every operation in execution order, as stored under its identifier.
    pub fn iter(&self) -> (r: Vec<&Operation>)
        ensures
            r@.len() == self.history().len(),
            forall|i: int| 0 <= i < r@.len() ==> *r@[i] == current(self.history(), self.history()[i].id@),
    {
        self.project_future(0, self.ops.len())
    }
}

/// Scanning from the end, the first operation with the identifier is the
/// last one added with it.
proof fn lemma_last_with_id_at(h: Seq<Operation>, id: Seq<char>, i: int)
    requires
        0 <= i < h.len(),
        h[i].id@ == id,
        forall|j: int| i < j < h.len() ==> h[j].id@ != id,
    ensures
        last_with_id(h, id) == Some(i),
    decreases h.len(),
{
    if i < h.len() - 1 {
        lemma_last_with_id_at(h.drop_last(), id, i);
    }
}

proof fn lemma_last_with_id_none(h: Seq<Operation>, id: Seq<char>)
    requires
        forall|j: int| 0 <= j < h.len() ==> h[j].id@ != id,
    ensures
        last_with_id(h, id) is None,
    decreases h.len(),
{
    if h.len() > 0 {
        lemma_last_with_id_none(h.drop_last(), id);
    }
}

proof fn lemma_last_producer_at(h: Seq<Operation>, s: Seq<char>, i: int)
    requires
        0 <= i < h.len(),
        holds(h[i].outputs@, s),
        forall|j: int| i < j < h.len() ==> !holds(h[j].outputs@, s),
    ensures
        last_producer(h, s) == Some(i),
    decreases h.len(),
{
    if i < h.len() - 1 {
        lemma_last_producer_at(h.drop_last(), s, i);
    }
}

proof fn lemma_last_producer_none(h: Seq<Operation>, s: Seq<char>)
    requires
        forall|j: int| 0 <= j < h.len() ==> !holds(h[j].outputs@, s),
    ensures
        last_producer(h, s) is None,
    decreases h.len(),
{
    if h.len() > 0 {
        lemma_last_producer_none(h.drop_last(), s);
    }
}

} // verus!
