//! StateDecision and ExecutionPlan: what to do with each piece of state, and
//! the ordered list of such decisions.
//!
//! Timing, cost, benefit and confidence estimates are floating-point and are
//! kept beside these records by the caller; the records here hold the
//! decision itself, its memory effect, dependencies and execution status.

use vstd::prelude::*;
use std::collections::HashMap;
use crate::types::{Action, ApproximationMethod, Location, OperationId, StateId};

verus! {

// =============================================================================
// Decision status
// =============================================================================

/// Status of a decision in the execution plan.
#[derive(Debug, Clone, Copy, PartialEq, Eq, Hash, Structural)]
pub enum DecisionStatus {
    /// Not executed yet.
    Pending,
    /// Being executed.
    InProgress,
    /// Executed successfully.
    Completed,
    /// Failed to execute.
    Failed,
    /// Cancelled.
    Cancelled,
    /// Skipped (e.g., state already in target location).
    Skipped,
}

impl Default for DecisionStatus {
    fn default() -> (r: Self)
        ensures
            r == DecisionStatus::Pending,
    {
        DecisionStatus::Pending
    }
}

// =============================================================================
// State decision
// =============================================================================

/// A decision about what to do with a piece of execution state.
#[derive(Debug)]
pub struct StateDecision {
    /// The state this decision applies to.
    pub state_id: StateId,
    /// What action to take.
    pub action: Action,
    /// Target location for move, prefetch, replicate and evict.
    pub target_location: Option<Location>,
    /// Method to use for an approximate action.
    pub approximation_method: Option<ApproximationMethod>,
    /// Change in memory usage (positive = increase).
    pub memory_delta_bytes: i64,
    /// Human-readable explanation.
    pub rationale: String,
    /// Current execution status.
    pub status: DecisionStatus,
    /// Error message if failed.
    pub error_message: Option<String>,
    /// Other states whose decisions must complete first.
    pub depends_on: Vec<StateId>,
    /// Operations blocked until this completes.
    pub blocks: Vec<OperationId>,
}

impl StateDecision {
    /// A fresh decision: pending, no target, no approximation, no memory
    /// effect, no rationale, error, dependencies or blocked operations.
    pub open spec fn is_fresh(&self, state_id: StateId, action: Action) -> bool {
        &&& self.state_id == state_id
        &&& self.action == action
        &&& self.approximation_method is None
        &&& self.memory_delta_bytes == 0
        &&& self.rationale@ == Seq::<char>::empty()
        &&& self.status == DecisionStatus::Pending
        &&& self.error_message is None
        &&& self.depends_on@.len() == 0
        &&& self.blocks@.len() == 0
    }

    /// A fresh decision except for its memory effect.
    pub open spec fn is_fresh_except_delta(&self, state_id: StateId, action: Action) -> bool {
        (StateDecision { memory_delta_bytes: 0, ..*self }).is_fresh(state_id, action)
    }

    /// Create a new decision.
    pub fn new(state_id: StateId, action: Action) -> (r: Self)
        ensures
            r.is_fresh(state_id, action),
            r.target_location is None,
    {
        StateDecision {
            state_id,
            action,
            target_location: None,
            approximation_method: None,
            memory_delta_bytes: 0,
            rationale: String::new(),
            status: DecisionStatus::Pending,
            error_message: None,
            depends_on: Vec::new(),
            blocks: Vec::new(),
        }
    }

    /// Create a KEEP decision.
    pub fn keep(state_id: StateId) -> (r: Self)
        ensures
            r.is_fresh(state_id, Action::Keep),
            r.target_location is None,
    {
        Self::new(state_id, Action::Keep)
    }

    /// Create a MOVE decision to `target`.
    pub fn move_to(state_id: StateId, target: Location) -> (r: Self)
        ensures
            r.is_fresh(state_id, Action::Move),
            r.target_location == Some(target),
    {
        let mut d = Self::new(state_id, Action::Move);
        d.target_location = Some(target);
        d
    }

    /// Create a PREFETCH decision to `target`.
    pub fn prefetch(state_id: StateId, target: Location) -> (r: Self)
        ensures
            r.is_fresh(state_id, Action::Prefetch),
            r.target_location == Some(target),
    {
        let mut d = Self::new(state_id, Action::Prefetch);
        d.target_location = Some(target);
        d
    }

    /// Create a RECOMPUTE decision.
    pub fn recompute(state_id: StateId) -> (r: Self)
        ensures
            r.is_fresh(state_id, Action::Recompute),
            r.target_location is None,
    {
        Self::new(state_id, Action::Recompute)
    }

    /// Create an EVICT decision, optionally to a lower tier.
    pub fn evict(state_id: StateId, target: Option<Location>) -> (r: Self)
        ensures
            r.is_fresh(state_id, Action::Evict),
            r.target_location == target,
    {
        let mut d = Self::new(state_id, Action::Evict);
        d.target_location = target;
        d
    }

    /// Set the rationale.
    pub fn with_rationale(self, rationale: String) -> (r: Self)
        ensures
            r == (StateDecision { rationale, ..self }),
    {
        let mut d = self;
        d.rationale = rationale;
        d
    }

    /// Set the memory delta.
    pub fn with_memory_delta(self, delta_bytes: i64) -> (r: Self)
        ensures
            r == (StateDecision { memory_delta_bytes: delta_bytes, ..self }),
    {
        let mut d = self;
        d.memory_delta_bytes = delta_bytes;
        d
    }

    /// Add a dependency.
    pub fn with_dependency(self, dep: StateId) -> (r: Self)
        ensures
            r.depends_on@ == self.depends_on@.push(dep),
            r == (StateDecision { depends_on: r.depends_on, ..self }),
    {
        let mut d = self;
        d.depends_on.push(dep);
        d
    }

    /// Check if this is a movement action.
    pub fn is_move_action(&self) -> (r: bool)
        ensures
            r == self.action.spec_is_movement(),
    {
        self.action.is_movement()
    }

    /// Check if this involves computation.
    pub fn is_compute_action(&self) -> (r: bool)
        ensures
            r == self.action.spec_is_compute(),
    {
        self.action.is_compute()
    }

    /// Check if the decision is pending.
    pub fn is_pending(&self) -> (r: bool)
        ensures
            r == (self.status == DecisionStatus::Pending),
    {
        self.status == DecisionStatus::Pending
    }

    /// Check if the decision is complete.
    pub fn is_complete(&self) -> (r: bool)
        ensures
            r == (self.status == DecisionStatus::Completed),
    {
        self.status == DecisionStatus::Completed
    }

    /// Mark the decision as in progress.
    pub fn mark_in_progress(&mut self)
        ensures
            *final(self) == (StateDecision { status: DecisionStatus::InProgress, ..*old(self) }),
    {
        self.status = DecisionStatus::InProgress;
    }

    /// Mark the decision as completed.
    pub fn mark_completed(&mut self)
        ensures
            *final(self) == (StateDecision { status: DecisionStatus::Completed, ..*old(self) }),
    {
        self.status = DecisionStatus::Completed;
    }

    /// Mark the decision as failed with an error message.
    pub fn mark_failed(&mut self, error: String)
        ensures
            *final(self) == (StateDecision {
                status: DecisionStatus::Failed,
                error_message: Some(error),
                ..*old(self)
            }),
    {
        self.status = DecisionStatus::Failed;
        self.error_message = Some(error);
    }

    /// Mark the decision as skipped; the reason replaces the rationale.
    pub fn mark_skipped(&mut self, reason: String)
        ensures
            *final(self) == (StateDecision {
                status: DecisionStatus::Skipped,
                rationale: reason,
                ..*old(self)
            }),
    {
        self.status = DecisionStatus::Skipped;
        self.rationale = reason;
    }
}

// =============================================================================
// Execution plan
// =============================================================================

/// Sum of the memory deltas of a sequence of decisions.
pub open spec fn delta_sum(ds: Seq<StateDecision>) -> int
    decreases ds.len(),
{
    if ds.len() == 0 {
        0
    } else {
        delta_sum(ds.drop_last()) + ds.last().memory_delta_bytes
    }
}

/// Index of the first decision for the state `id`, if any.
pub open spec fn first_index(ds: Seq<StateDecision>, id: Seq<char>) -> Option<int>
    decreases ds.len(),
{
    if ds.len() == 0 {
        None
    } else if ds[0].state_id.0@ == id {
        Some(0)
    } else {
        match first_index(ds.drop_first(), id) {
            Some(i) => Some(i + 1),
            None => None,
        }
    }
}

/// Number of decisions with the given action.
pub open spec fn action_count(ds: Seq<StateDecision>, a: Action) -> nat
    decreases ds.len(),
{
    if ds.len() == 0 {
        0
    } else {
        action_count(ds.drop_last(), a) + if ds.last().action == a { 1nat } else { 0nat }
    }
}

/// Number of decisions with the given status.
pub open spec fn status_count(ds: Seq<StateDecision>, st: DecisionStatus) -> nat
    decreases ds.len(),
{
    if ds.len() == 0 {
        0
    } else {
        status_count(ds.drop_last(), st) + if ds.last().status == st { 1nat } else { 0nat }
    }
}

/// A sequence of state decisions to execute.
#[derive(Debug)]
pub struct ExecutionPlan {
    /// State decisions in execution order.
    pub decisions: Vec<StateDecision>,
    /// Net memory change from this plan.
    pub expected_memory_delta_bytes: i64,
    /// Additional planning metadata.
    pub metadata: HashMap<String, String>,
}

impl ExecutionPlan {
    /// The plan's recorded memory delta is the sum of its decisions' deltas.
    pub open spec fn wf(&self) -> bool {
        self.expected_memory_delta_bytes == delta_sum(self.decisions@)
    }

    /// Create a new empty plan.
    pub fn new() -> (r: Self)
        ensures
            r.decisions@.len() == 0,
            r.expected_memory_delta_bytes == 0,
            r.metadata@ == Map::<String, String>::empty(),
            r.wf(),
    {
        ExecutionPlan {
            decisions: Vec::new(),
            expected_memory_delta_bytes: 0,
            metadata: HashMap::new(),
        }
    }

    /// Create an empty plan.
    pub fn empty() -> (r: Self)
        ensures
            r.decisions@.len() == 0,
            r.expected_memory_delta_bytes == 0,
            r.metadata@ == Map::<String, String>::empty(),
            r.wf(),
    {
        Self::new()
    }

    /// Add a decision at the end of the plan.
    pub fn add(&mut self, decision: StateDecision)
        requires
            i64::MIN <= old(self).expected_memory_delta_bytes + decision.memory_delta_bytes
                <= i64::MAX,
        ensures
            final(self).decisions@ == old(self).decisions@.push(decision),
            final(self).expected_memory_delta_bytes == old(self).expected_memory_delta_bytes
                + decision.memory_delta_bytes,
            final(self).metadata == old(self).metadata,
            old(self).wf() ==> final(self).wf(),
    {
        let ghost before = self.decisions@;
        self.expected_memory_delta_bytes = self.expected_memory_delta_bytes
            + decision.memory_delta_bytes;
        self.decisions.push(decision);
        assert(self.decisions@.drop_last() =~= before);
    }

    /// Add several decisions, in order.
    pub fn add_all(&mut self, decisions: Vec<StateDecision>)
        requires
            i64::MIN <= old(self).expected_memory_delta_bytes + delta_sum(decisions@) <= i64::MAX,
            forall|k: int|
                0 <= k <= decisions@.len() ==> i64::MIN <= old(self).expected_memory_delta_bytes
                    + #[trigger] delta_sum(decisions@.take(k)) <= i64::MAX,
        ensures
            final(self).decisions@ == old(self).decisions@ + decisions@,
            final(self).expected_memory_delta_bytes == old(self).expected_memory_delta_bytes
                + delta_sum(decisions@),
            final(self).metadata == old(self).metadata,
            old(self).wf() ==> final(self).wf(),
    {
        let ghost start = self.decisions@;
        let ghost start_delta = self.expected_memory_delta_bytes;
        let ghost incoming = decisions@;
        let mut rest = decisions;
        let mut i: usize = 0;
        let n = rest.len();
        assert(rest@ =~= incoming.skip(0));
        while i < n
            invariant
                n == incoming.len(),
                i <= n,
                rest@ =~= incoming.skip(i as int),
                self.decisions@ =~= start + incoming.take(i as int),
                self.expected_memory_delta_bytes == start_delta + delta_sum(incoming.take(i as int)),
                self.metadata == old(self).metadata,
                old(self).wf() ==> self.wf(),
                forall|k: int|
                    0 <= k <= incoming.len() ==> i64::MIN <= start_delta + #[trigger] delta_sum(
                        incoming.take(k),
                    ) <= i64::MAX,
                start_delta == old(self).expected_memory_delta_bytes,
                start == old(self).decisions@,
            decreases n - i,
        {
            let d = rest.remove(0);
            assert(d == incoming[i as int]);
            assert(incoming.take(i + 1).drop_last() =~= incoming.take(i as int));
            assert(delta_sum(incoming.take(i + 1)) == delta_sum(incoming.take(i as int))
                + d.memory_delta_bytes);
            proof {
                if old(self).wf() {
                    lemma_delta_sum_append(start, incoming.take(i as int));
                    lemma_delta_sum_append(start, incoming.take(i + 1));
                }
            }
            self.add(d);
            assert(rest@ =~= incoming.skip(i + 1));
            i = i + 1;
        }
        assert(incoming.take(n as int) =~= incoming);
    }

    /// Position of the first decision for `state_id`.
    pub fn position(&self, state_id: &StateId) -> (r: Option<usize>)
        ensures
            r matches Some(i) ==> first_index(self.decisions@, state_id.0@) == Some(i as int),
            r is None ==> first_index(self.decisions@, state_id.0@) is None,
            r matches Some(i) ==> i < self.decisions@.len(),
    {
        let mut i: usize = 0;
        while i < self.decisions.len()
            invariant
                i <= self.decisions@.len(),
                forall|j: int| 0 <= j < i ==> self.decisions@[j].state_id.0@ != state_id.0@,
            decreases self.decisions@.len() - i,
        {
            if self.decisions[i].state_id.same(state_id) {
                proof {
                    lemma_first_index_at(self.decisions@, state_id.0@, i as int);
                }
                return Some(i);
            }
            i = i + 1;
        }
        proof {
            lemma_first_index_none(self.decisions@, state_id.0@);
        }
        None
    }

    /// The first decision for `state_id`, if any.
    pub fn get(&self, state_id: &StateId) -> (r: Option<&StateDecision>)
        ensures
            r matches Some(d) ==> (first_index(self.decisions@, state_id.0@) matches Some(i)
                && *d == self.decisions@[i]),
            r is None ==> first_index(self.decisions@, state_id.0@) is None,
    {
        match self.position(state_id) {
            Some(i) => Some(&self.decisions[i]),
            None => None,
        }
    }

    /// Remove the first decision for `state_id`, taking its memory delta off
    /// the plan's total.
    pub fn remove(&mut self, state_id: &StateId) -> (r: Option<StateDecision>)
        requires
            old(self).wf(),
            first_index(old(self).decisions@, state_id.0@) matches Some(i) ==> i64::MIN
                <= old(self).expected_memory_delta_bytes - old(self).decisions@[i].memory_delta_bytes
                <= i64::MAX,
        ensures
            final(self).wf(),
            final(self).metadata == old(self).metadata,
            match first_index(old(self).decisions@, state_id.0@) {
                Some(i) => r == Some(old(self).decisions@[i]) && final(self).decisions@
                    == old(self).decisions@.remove(i),
                None => r is None && final(self).decisions@ == old(self).decisions@,
            },
    {
        match self.position(state_id) {
            Some(i) => {
                let ghost before = self.decisions@;
                let removed = self.decisions.remove(i);
                proof {
                    lemma_delta_sum_remove(before, i as int);
                }
                assert(self.expected_memory_delta_bytes - removed.memory_delta_bytes == delta_sum(
                    self.decisions@,
                ));
                self.expected_memory_delta_bytes = self.expected_memory_delta_bytes
                    - removed.memory_delta_bytes;
                Some(removed)
            },
            None => None,
        }
    }

    /// Check if the plan has no decisions.
    pub fn is_empty(&self) -> (r: bool)
        ensures
            r == (self.decisions@.len() == 0),
    {
        self.decisions.len() == 0
    }

    /// Number of decisions.
    pub fn len(&self) -> (r: usize)
        ensures
            r == self.decisions@.len(),
    {
        self.decisions.len()
    }

    /// Check if all decisions are completed.
    pub fn is_complete(&self) -> (r: bool)
        ensures
            r == (forall|i: int|
                0 <= i < self.decisions@.len() ==> #[trigger] self.decisions@[i].status
                    == DecisionStatus::Completed),
    {
        let mut i: usize = 0;
        while i < self.decisions.len()
            invariant
                i <= self.decisions@.len(),
                forall|j: int| 0 <= j < i ==> self.decisions@[j].status == DecisionStatus::Completed,
            decreases self.decisions@.len() - i,
        {
            if self.decisions[i].status != DecisionStatus::Completed {
                return false;
            }
            i = i + 1;
        }
        true
    }

    /// Check if any decision failed.
    pub fn has_failures(&self) -> (r: bool)
        ensures
            r == (exists|i: int|
                0 <= i < self.decisions@.len() && #[trigger] self.decisions@[i].status
                    == DecisionStatus::Failed),
    {
        let mut i: usize = 0;
        while i < self.decisions.len()
            invariant
                i <= self.decisions@.len(),
                forall|j: int| 0 <= j < i ==> self.decisions@[j].status != DecisionStatus::Failed,
            decreases self.decisions@.len() - i,
        {
            if self.decisions[i].status == DecisionStatus::Failed {
                return true;
            }
            i = i + 1;
        }
        false
    }

    /// Number of decisions with the given status.
    pub fn count_status(&self, status: DecisionStatus) -> (r: usize)
        ensures
            r == status_count(self.decisions@, status),
    {
        let mut i: usize = 0;
        let mut c: usize = 0;
        while i < self.decisions.len()
            invariant
                i <= self.decisions@.len(),
                c == status_count(self.decisions@.take(i as int), status),
                c <= i,
            decreases self.decisions@.len() - i,
        {
            assert(self.decisions@.take(i + 1).drop_last() =~= self.decisions@.take(i as int));
            if self.decisions[i].status == status {
                c = c + 1;
            }
            i = i + 1;
        }
        assert(self.decisions@.take(i as int) =~= self.decisions@);
        c
    }

    /// Number of decisions with the given action.
    pub fn count_action(&self, action: Action) -> (r: usize)
        ensures
            r == action_count(self.decisions@, action),
    {
        let mut i: usize = 0;
        let mut c: usize = 0;
        while i < self.decisions.len()
            invariant
                i <= self.decisions@.len(),
                c == action_count(self.decisions@.take(i as int), action),
                c <= i,
            decreases self.decisions@.len() - i,
        {
            assert(self.decisions@.take(i + 1).drop_last() =~= self.decisions@.take(i as int));
            if self.decisions[i].action == action {
                c = c + 1;
            }
            i = i + 1;
        }
        assert(self.decisions@.take(i as int) =~= self.decisions@);
        c
    }
}

proof fn lemma_first_index_at(ds: Seq<StateDecision>, id: Seq<char>, i: int)
    requires
        0 <= i < ds.len(),
        ds[i].state_id.0@ == id,
        forall|j: int| 0 <= j < i ==> ds[j].state_id.0@ != id,
    ensures
        first_index(ds, id) == Some(i),
    decreases i,
{
    if i > 0 {
        lemma_first_index_at(ds.drop_first(), id, i - 1);
    }
}

proof fn lemma_first_index_none(ds: Seq<StateDecision>, id: Seq<char>)
    requires
        forall|j: int| 0 <= j < ds.len() ==> ds[j].state_id.0@ != id,
    ensures
        first_index(ds, id) is None,
    decreases ds.len(),
{
    if ds.len() > 0 {
        lemma_first_index_none(ds.drop_first(), id);
    }
}

/// The first index found is a decision for that state, and no earlier one is.
pub proof fn lemma_first_index_spec(ds: Seq<StateDecision>, id: Seq<char>)
    ensures
        first_index(ds, id) matches Some(i) ==> 0 <= i < ds.len() && ds[i].state_id.0@ == id
            && forall|j: int| 0 <= j < i ==> ds[j].state_id.0@ != id,
        first_index(ds, id) is None ==> forall|j: int|
            0 <= j < ds.len() ==> ds[j].state_id.0@ != id,
    decreases ds.len(),
{
    if ds.len() > 0 {
        lemma_first_index_spec(ds.drop_first(), id);
        if ds[0].state_id.0@ != id {
            assert forall|j: int| 0 < j < ds.len() implies ds[j] == ds.drop_first()[j - 1] by {}
        }
    }
}

proof fn lemma_delta_sum_append(a: Seq<StateDecision>, b: Seq<StateDecision>)
    ensures
        delta_sum(a + b) == delta_sum(a) + delta_sum(b),
    decreases b.len(),
{
    if b.len() == 0 {
        assert(a + b =~= a);
    } else {
        lemma_delta_sum_append(a, b.drop_last());
        assert((a + b).drop_last() =~= a + b.drop_last());
    }
}

proof fn lemma_delta_sum_remove(ds: Seq<StateDecision>, i: int)
    requires
        0 <= i < ds.len(),
    ensures
        delta_sum(ds.remove(i)) == delta_sum(ds) - ds[i].memory_delta_bytes,
{
    let pre = ds.take(i);
    let post = ds.skip(i + 1);
    assert(ds =~= pre + seq![ds[i]] + post);
    assert(ds.remove(i) =~= pre + post);
    lemma_delta_sum_append(pre + seq![ds[i]], post);
    lemma_delta_sum_append(pre, seq![ds[i]]);
    lemma_delta_sum_append(pre, post);
    let one = seq![ds[i]];
    assert(one.drop_last() =~= Seq::<StateDecision>::empty());
    assert(delta_sum(one.drop_last()) == 0);
    assert(delta_sum(one) == ds[i].memory_delta_bytes);
}

/// Two decision sequences whose memory deltas agree position by position
/// have the same delta sum.
pub proof fn lemma_delta_sum_same_deltas(a: Seq<StateDecision>, b: Seq<StateDecision>)
    requires
        a.len() == b.len(),
        forall|i: int| 0 <= i < a.len() ==> a[i].memory_delta_bytes == b[i].memory_delta_bytes,
    ensures
        delta_sum(a) == delta_sum(b),
    decreases a.len(),
{
    if a.len() > 0 {
        lemma_delta_sum_same_deltas(a.drop_last(), b.drop_last());
    }
}

} // verus!

verus! {

/// The position of `a` among the counted actions.
fn find_action(counts: &Vec<(Action, usize)>, a: Action) -> (r: Option<usize>)
    ensures
        r matches Some(k) ==> k < counts@.len() && counts@[k as int].0 == a,
        r is None ==> forall|x: int| 0 <= x < counts@.len() ==> counts@[x].0 != a,
{
    let mut k: usize = 0;
    while k < counts.len()
        invariant
            k <= counts@.len(),
            forall|x: int| 0 <= x < k ==> counts@[x].0 != a,
        decreases counts@.len() - k,
    {
        if counts[k].0 == a {
            return Some(k);
        }
        k = k + 1;
    }
    None
}

/// Whether some decision for the state `id` has completed.
pub open spec fn completed_in(ds: Seq<StateDecision>, id: Seq<char>) -> bool {
    exists|j: int|
        0 <= j < ds.len() && ds[j].status == DecisionStatus::Completed && #[trigger] ds[j].state_id.0@
            == id
}

/// A decision is ready when it is pending and every state it depends on
/// has a completed decision in the plan.
pub open spec fn is_ready(ds: Seq<StateDecision>, d: StateDecision) -> bool {
    &&& d.status == DecisionStatus::Pending
    &&& forall|k: int| 0 <= k < d.depends_on@.len() ==> completed_in(ds, #[trigger] d.depends_on@[k].0@)
}

/// The decisions of `ds` that satisfy `p`, in order.
pub open spec fn select(ds: Seq<StateDecision>, p: spec_fn(StateDecision) -> bool) -> Seq<StateDecision> {
    ds.filter(p)
}

/// The plan's decisions after merging in `other`: each decision of
/// `other` whose state has no decision yet is added at the end, in order.
pub open spec fn merged(ds: Seq<StateDecision>, other: Seq<StateDecision>) -> Seq<StateDecision>
    decreases other.len(),
{
    if other.len() == 0 {
        ds
    } else {
        let prev = merged(ds, other.drop_last());
        if first_index(prev, other.last().state_id.0@) is None {
            prev.push(other.last())
        } else {
            prev
        }
    }
}

impl ExecutionPlan {
    /// Whether a decision for `id` has completed.
    fn has_completed(&self, id: &StateId) -> (r: bool)
        ensures
            r == completed_in(self.decisions@, id.0@),
    {
        let mut j: usize = 0;
        while j < self.decisions.len()
            invariant
                j <= self.decisions@.len(),
                forall|k: int|
                    0 <= k < j ==> !(self.decisions@[k].status == DecisionStatus::Completed
                        && self.decisions@[k].state_id.0@ == id.0@),
            decreases self.decisions@.len() - j,
        {
            if self.decisions[j].status == DecisionStatus::Completed
                && self.decisions[j].state_id.same(id) {
                return true;
            }
            j = j + 1;
        }
        false
    }

    /// Whether a decision is ready to execute.
    fn ready(&self, d: &StateDecision) -> (r: bool)
        ensures
            r == is_ready(self.decisions@, *d),
    {
        if d.status != DecisionStatus::Pending {
            return false;
        }
        let mut k: usize = 0;
        while k < d.depends_on.len()
            invariant
                k <= d.depends_on@.len(),
                forall|m: int| 0 <= m < k ==> completed_in(self.decisions@, #[trigger] d.depends_on@[m].0@),
            decreases d.depends_on@.len() - k,
        {
            if !self.has_completed(&d.depends_on[k]) {
                return false;
            }
            k = k + 1;
        }
        true
    }

    /// The decisions ready to execute: pending, with every dependency
    /// completed, in plan order.
    pub fn ready_decisions(&self) -> (r: Vec<&StateDecision>)
        ensures
            r@.len() == select(self.decisions@, |d: StateDecision| is_ready(self.decisions@, d)).len(),
            forall|i: int|
                0 <= i < r@.len() ==> *r@[i] == select(
                    self.decisions@,
                    |d: StateDecision| is_ready(self.decisions@, d),
                )[i],
    {
        let ghost p = |d: StateDecision| is_ready(self.decisions@, d);
        let mut out: Vec<&StateDecision> = Vec::new();
        let mut i: usize = 0;
        while i < self.decisions.len()
            invariant
                i <= self.decisions@.len(),
                p == (|d: StateDecision| is_ready(self.decisions@, d)),
                out@.len() == self.decisions@.take(i as int).filter(p).len(),
                forall|j: int| 0 <= j < out@.len() ==> *out@[j] == self.decisions@.take(i as int).filter(p)[j],
            decreases self.decisions@.len() - i,
        {
            proof {
                reveal(Seq::filter);
                assert(self.decisions@.take(i + 1).drop_last() =~= self.decisions@.take(i as int));
            }
            let d = &self.decisions[i];
            if self.ready(d) {
                out.push(d);
            }
            i = i + 1;
        }
        proof {
            assert(self.decisions@.take(i as int) =~= self.decisions@);
        }
        out
    }

    /// The pending decisions, in plan order.
    pub fn pending_decisions(&self) -> (r: Vec<&StateDecision>)
        ensures
            r@.len() == select(self.decisions@, |d: StateDecision| d.status == DecisionStatus::Pending).len(),
            forall|i: int|
                0 <= i < r@.len() ==> *r@[i] == select(
                    self.decisions@,
                    |d: StateDecision| d.status == DecisionStatus::Pending,
                )[i],
    {
        let ghost p = |d: StateDecision| d.status == DecisionStatus::Pending;
        let mut out: Vec<&StateDecision> = Vec::new();
        let mut i: usize = 0;
        while i < self.decisions.len()
            invariant
                i <= self.decisions@.len(),
                p == (|d: StateDecision| d.status == DecisionStatus::Pending),
                out@.len() == self.decisions@.take(i as int).filter(p).len(),
                forall|j: int| 0 <= j < out@.len() ==> *out@[j] == self.decisions@.take(i as int).filter(p)[j],
            decreases self.decisions@.len() - i,
        {
            proof {
                reveal(Seq::filter);
                assert(self.decisions@.take(i + 1).drop_last() =~= self.decisions@.take(i as int));
            }
            let d = &self.decisions[i];
            if d.status == DecisionStatus::Pending {
                out.push(d);
            }
            i = i + 1;
        }
        proof {
            assert(self.decisions@.take(i as int) =~= self.decisions@);
        }
        out
    }

    /// The decisions with the given action, in plan order.
    pub fn by_action(&self, action: Action) -> (r: Vec<&StateDecision>)
        ensures
            r@.len() == select(self.decisions@, |d: StateDecision| d.action == action).len(),
            forall|i: int|
                0 <= i < r@.len() ==> *r@[i] == select(
                    self.decisions@,
                    |d: StateDecision| d.action == action,
                )[i],
    {
        let ghost p = |d: StateDecision| d.action == action;
        let mut out: Vec<&StateDecision> = Vec::new();
        let mut i: usize = 0;
        while i < self.decisions.len()
            invariant
                i <= self.decisions@.len(),
                p == (|d: StateDecision| d.action == action),
                out@.len() == self.decisions@.take(i as int).filter(p).len(),
                forall|j: int| 0 <= j < out@.len() ==> *out@[j] == self.decisions@.take(i as int).filter(p)[j],
            decreases self.decisions@.len() - i,
        {
            proof {
                reveal(Seq::filter);
                assert(self.decisions@.take(i + 1).drop_last() =~= self.decisions@.take(i as int));
            }
            let d = &self.decisions[i];
            if d.action == action {
                out.push(d);
            }
            i = i + 1;
        }
        proof {
            assert(self.decisions@.take(i as int) =~= self.decisions@);
        }
        out
    }

    /// Count decisions by action: each action that occurs, once, with its
    /// number of decisions.
    pub fn action_counts(&self) -> (r: Vec<(Action, usize)>)
        ensures
            forall|i: int, j: int| 0 <= i < j < r@.len() ==> r@[i].0 != r@[j].0,
            forall|i: int|
                0 <= i < r@.len() ==> #[trigger] r@[i].1 == action_count(self.decisions@, r@[i].0)
                    && r@[i].1 > 0,
            forall|a: Action|
                action_count(self.decisions@, a) > 0 ==> exists|i: int|
                    0 <= i < r@.len() && #[trigger] r@[i].0 == a,
    {
        let mut counts: Vec<(Action, usize)> = Vec::new();
        let mut i: usize = 0;
        while i < self.decisions.len()
            invariant
                i <= self.decisions@.len(),
                forall|x: int, y: int| 0 <= x < y < counts@.len() ==> counts@[x].0 != counts@[y].0,
                forall|x: int|
                    0 <= x < counts@.len() ==> #[trigger] counts@[x].1 == action_count(
                        self.decisions@.take(i as int),
                        counts@[x].0,
                    ) && counts@[x].1 > 0,
                forall|a: Action|
                    action_count(self.decisions@.take(i as int), a) > 0 ==> exists|x: int|
                        0 <= x < counts@.len() && #[trigger] counts@[x].0 == a,
                forall|a: Action| action_count(self.decisions@.take(i as int), a) <= i,
            decreases self.decisions@.len() - i,
        {
            let ghost pre = self.decisions@.take(i as int);
            let ghost next = self.decisions@.take(i + 1);
            proof {
                assert(next.drop_last() =~= pre);
                assert forall|a: Action| action_count(next, a) <= i + 1 by {
                    assert(action_count(pre, a) <= i);
                }
            }
            let a = self.decisions[i].action;
            let ghost old_counts = counts@;
            let pos = find_action(&counts, a);
            let (found, k) = match pos {
                Some(x) => (true, x),
                None => (false, 0usize),
            };
            if found {
                let c = counts[k].1;
                proof {
                    assert(action_count(pre, a) <= i);
                }
                counts.set(k, (a, c + 1));
            } else {
                counts.push((a, 1));
            }
            proof {
                assert forall|x: int| 0 <= x < counts@.len() implies #[trigger] counts@[x].1
                    == action_count(next, counts@[x].0) && counts@[x].1 > 0 by {
                    if counts@[x].0 != a {
                        assert(action_count(next, counts@[x].0) == action_count(pre, counts@[x].0));
                    }
                }
                assert forall|b: Action| action_count(next, b) > 0 implies exists|x: int|
                    0 <= x < counts@.len() && #[trigger] counts@[x].0 == b by {
                    if b == a {
                        if found {
                            assert(counts@[k as int].0 == b);
                        } else {
                            assert(counts@[counts@.len() - 1].0 == b);
                        }
                    } else {
                        assert(action_count(next, b) == action_count(pre, b));
                        let x = choose|x: int| 0 <= x < old_counts.len() && #[trigger] old_counts[x].0 == b;
                        assert(counts@[x].0 == b);
                    }
                }
            }
            i = i + 1;
        }
        proof {
            assert(self.decisions@.take(i as int) =~= self.decisions@);
        }
        counts
    }

    /// The first decision for `state_id`, for changing it in place.
    pub fn get_mut(&mut self, state_id: &StateId) -> (r: Option<&mut StateDecision>)
        ensures
            match first_index(old(self).decisions@, state_id.0@) {
                Some(i) => r matches Some(d) && *d == old(self).decisions@[i] && final(self).decisions@ == old(self).decisions@.update(i, *final(d)),
                None => r is None && final(self).decisions@ == old(self).decisions@,
            },
            final(self).expected_memory_delta_bytes == old(self).expected_memory_delta_bytes,
            final(self).metadata == old(self).metadata,
    {
        match self.position(state_id) {
            Some(i) => Some(&mut self.decisions[i]),
            None => None,
        }
    }

    /// Merge another plan into this one: each of its decisions whose state
    /// has no decision here yet is added, in order.
    pub fn merge(&mut self, other: ExecutionPlan)
        requires
            old(self).wf(),
            forall|k: int|
                0 <= k <= other.decisions@.len() ==> i64::MIN <= #[trigger] delta_sum(
                    merged(old(self).decisions@, other.decisions@.take(k)),
                ) <= i64::MAX,
        ensures
            final(self).wf(),
            final(self).decisions@ == merged(old(self).decisions@, other.decisions@),
            final(self).metadata == old(self).metadata,
    {
        let ghost start = self.decisions@;
        let ghost incoming = other.decisions@;
        let mut rest = other.decisions;
        let n = rest.len();
        let mut i: usize = 0;
        proof {
            assert(incoming.take(0) =~= Seq::<StateDecision>::empty());
        }
        while i < n
            invariant
                n == incoming.len(),
                i <= n,
                rest@ == incoming.skip(i as int),
                self.wf(),
                self.decisions@ == merged(start, incoming.take(i as int)),
                self.metadata == old(self).metadata,
                forall|k: int|
                    0 <= k <= incoming.len() ==> i64::MIN <= #[trigger] delta_sum(
                        merged(start, incoming.take(k)),
                    ) <= i64::MAX,
            decreases n - i,
        {
            let d = rest.remove(0);
            proof {
                assert(incoming.take(i + 1).drop_last() =~= incoming.take(i as int));
                assert(incoming.take(i + 1).last() == d);
                assert(rest@ =~= incoming.skip(i + 1));
            }
            if self.position(&d.state_id).is_none() {
                proof {
                    let m = merged(start, incoming.take(i + 1));
                    assert(m == self.decisions@.push(d));
                    assert(m.drop_last() =~= self.decisions@);
                    assert(delta_sum(m) == delta_sum(self.decisions@) + d.memory_delta_bytes);
                }
                self.add(d);
            }
            i = i + 1;
        }
        proof {
            assert(incoming.take(n as int) =~= incoming);
        }
    }
}

/// Some state of `done` is `id`.
pub open spec fn among(done: Seq<StateId>, id: Seq<char>) -> bool {
    exists|j: int| 0 <= j < done.len() && #[trigger] done[j]@ == id
}

/// Every state a decision depends on is among `done`.
pub open spec fn deps_among(d: StateDecision, done: Seq<StateId>) -> bool {
    forall|m: int| 0 <= m < d.depends_on@.len() ==> among(done, #[trigger] d.depends_on@[m]@)
}

/// Whether `id` is among `done` (computed).
fn is_among(done: &Vec<StateId>, id: &StateId) -> (r: bool)
    ensures
        r == among(done@, id@),
{
    let mut j: usize = 0;
    while j < done.len()
        invariant
            j <= done@.len(),
            forall|k: int| 0 <= k < j ==> done@[k]@ != id@,
        decreases done@.len() - j,
    {
        if done[j].same(id) {
            assert(done@[j as int]@ == id@);
            return true;
        }
        j = j + 1;
    }
    false
}

/// The positions, ascending, of the decisions whose dependencies are all
/// among the states `done`: the decisions that can be ordered next.
pub fn ready_positions(decisions: &Vec<StateDecision>, done: &Vec<StateId>) -> (r: Vec<usize>)
    ensures
        forall|a: int, b: int| 0 <= a < b < r@.len() ==> r@[a] < r@[b],
        forall|a: int|
            0 <= a < r@.len() ==> r@[a] < decisions@.len() && deps_among(
                decisions@[#[trigger] r@[a] as int],
                done@,
            ),
        forall|i: int|
            0 <= i < decisions@.len() && deps_among(decisions@[i], done@) ==> exists|a: int|
                0 <= a < r@.len() && r@[a] == i,
{
    let mut out: Vec<usize> = Vec::new();
    let mut i: usize = 0;
    while i < decisions.len()
        invariant
            i <= decisions@.len(),
            forall|a: int, b: int| 0 <= a < b < out@.len() ==> out@[a] < out@[b],
            forall|a: int| 0 <= a < out@.len() ==> out@[a] < i,
            forall|a: int|
                0 <= a < out@.len() ==> deps_among(decisions@[#[trigger] out@[a] as int], done@),
            forall|x: int|
                0 <= x < i && deps_among(decisions@[x], done@) ==> exists|a: int|
                    0 <= a < out@.len() && out@[a] == x,
        decreases decisions@.len() - i,
    {
        let d = &decisions[i];
        let mut k: usize = 0;
        let mut all = true;
        while k < d.depends_on.len()
            invariant_except_break
                all,
            invariant
                k <= d.depends_on@.len(),
                forall|m: int| 0 <= m < k ==> among(done@, #[trigger] d.depends_on@[m]@),
            ensures
                all ==> deps_among(*d, done@),
                !all ==> !deps_among(*d, done@),
            decreases d.depends_on@.len() - k,
        {
            if !is_among(done, &d.depends_on[k]) {
                all = false;
                break;
            }
            k = k + 1;
        }
        if all {
            let ghost before = out@;
            out.push(i);
            proof {
                assert forall|x: int|
                    0 <= x < i + 1 && deps_among(decisions@[x], done@) implies exists|a: int|
                    0 <= a < out@.len() && out@[a] == x by {
                    if x == i {
                        assert(out@[before.len() as int] == x);
                    } else {
                        let a = choose|a: int| 0 <= a < before.len() && before[a] == x;
                        assert(out@[a] == x);
                    }
                }
            }
        }
        i = i + 1;
    }
    out
}

} // verus!
