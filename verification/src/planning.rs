//! The integer side of planning: constraints, planner statistics, memory
//! in use at a tier, eviction to meet an HBM budget, and placement of MoE
//! experts under an HBM budget.
//!
//! The planner orders candidates by floating-point scores (eviction score,
//! predicted expert probability); the functions here take the candidates in
//! that order and make the budgeted choices.

use vstd::prelude::*;
use crate::decision::{ExecutionPlan, StateDecision, delta_sum};
use crate::state::ExecutionState;
use crate::types::{Action, Location, StateId};

verus! {

/// Constraints for the planner (the latency, throughput and quality
/// bounds, which are floats, are kept by the planner itself).
#[derive(Debug, Clone, Copy, PartialEq, Eq, Structural)]
pub struct Constraints {
    /// Maximum HBM usage (bytes).
    pub hbm_budget_bytes: Option<u64>,
    /// Maximum DRAM usage (bytes).
    pub dram_budget_bytes: Option<u64>,
    /// How many operations ahead to consider.
    pub prefetch_horizon: usize,
    /// Whether recomputation is allowed.
    pub allow_recompute: bool,
    /// Whether approximation is allowed.
    pub allow_approximation: bool,
    /// Prioritize latency over throughput.
    pub prioritize_latency: bool,
}

impl Constraints {
    /// The defaults: no budgets, a horizon of 8 operations, recomputation
    /// and approximation allowed, latency first.
    pub open spec fn spec_default() -> Constraints {
        Constraints {
            hbm_budget_bytes: None,
            dram_budget_bytes: None,
            prefetch_horizon: 8,
            allow_recompute: true,
            allow_approximation: true,
            prioritize_latency: true,
        }
    }

    /// Create new constraints with default values.
    pub fn new() -> (r: Self)
        ensures
            r == Self::spec_default(),
    {
        Constraints {
            hbm_budget_bytes: None,
            dram_budget_bytes: None,
            prefetch_horizon: 8,
            allow_recompute: true,
            allow_approximation: true,
            prioritize_latency: true,
        }
    }

    /// Set HBM budget.
    pub fn with_hbm_budget(self, bytes: u64) -> (r: Self)
        ensures
            r == (Constraints { hbm_budget_bytes: Some(bytes), ..self }),
    {
        let mut c = self;
        c.hbm_budget_bytes = Some(bytes);
        c
    }

    /// Set prefetch horizon.
    pub fn with_prefetch_horizon(self, horizon: usize) -> (r: Self)
        ensures
            r == (Constraints { prefetch_horizon: horizon, ..self }),
    {
        let mut c = self;
        c.prefetch_horizon = horizon;
        c
    }

    /// Disable recomputation.
    pub fn without_recompute(self) -> (r: Self)
        ensures
            r == (Constraints { allow_recompute: false, ..self }),
    {
        let mut c = self;
        c.allow_recompute = false;
        c
    }
}

impl Default for Constraints {
    fn default() -> (r: Self)
        ensures
            r == Constraints::spec_default(),
    {
        Constraints::new()
    }
}

/// Statistics of the planner.
#[derive(Debug, Clone, Copy, PartialEq, Eq, Structural)]
pub struct DecisionStats {
    pub plans_generated: u64,
    pub decisions_made: u64,
    pub recompute_chosen: u64,
    pub move_chosen: u64,
    pub prefetch_chosen: u64,
}

impl DecisionStats {
    /// All counters at zero.
    pub open spec fn spec_zero() -> DecisionStats {
        DecisionStats {
            plans_generated: 0,
            decisions_made: 0,
            recompute_chosen: 0,
            move_chosen: 0,
            prefetch_chosen: 0,
        }
    }
}

impl Default for DecisionStats {
    fn default() -> (r: Self)
        ensures
            r == DecisionStats::spec_zero(),
    {
        DecisionStats {
            plans_generated: 0,
            decisions_made: 0,
            recompute_chosen: 0,
            move_chosen: 0,
            prefetch_chosen: 0,
        }
    }
}

// =============================================================================
// Memory in use at a tier
// =============================================================================

/// Total size of the states at a location.
pub open spec fn bytes_at(states: Seq<ExecutionState>, location: Location) -> int
    decreases states.len(),
{
    if states.len() == 0 {
        0
    } else {
        bytes_at(states.drop_last(), location) + if states.last().location == location {
            states.last().size_bytes as int
        } else {
            0
        }
    }
}

/// The bytes of the states at a location.
pub fn usage_at(states: &Vec<ExecutionState>, location: Location) -> (r: u64)
    requires
        forall|k: int| 0 <= k <= states@.len() ==> #[trigger] bytes_at(states@.take(k), location) <= u64::MAX,
    ensures
        r == bytes_at(states@, location),
{
    let mut total: u64 = 0;
    let mut i: usize = 0;
    while i < states.len()
        invariant
            i <= states@.len(),
            total == bytes_at(states@.take(i as int), location),
            forall|k: int| 0 <= k <= states@.len() ==> #[trigger] bytes_at(states@.take(k), location) <= u64::MAX,
        decreases states@.len() - i,
    {
        proof {
            assert(states@.take(i + 1).drop_last() =~= states@.take(i as int));
            assert(bytes_at(states@.take(i + 1), location) <= u64::MAX);
        }
        if states[i].location == location {
            total = total + states[i].size_bytes;
        }
        i = i + 1;
    }
    proof {
        assert(states@.take(i as int) =~= states@);
    }
    total
}

// =============================================================================
// Evictions to meet a budget
// =============================================================================

/// The memory change of evicting `size` bytes: `-(size as i64)`.
pub open spec fn evict_delta(size: u64) -> int {
    if size <= i64::MAX {
        -(size as int)
    } else {
        0x1_0000_0000_0000_0000 - size
    }
}

/// How many candidates, taken in order, are evicted: while the usage is
/// over the budget, each evicted candidate's size comes off the usage
/// (never below zero).
pub open spec fn evictions_needed(sizes: Seq<u64>, used: int, budget: int) -> nat
    decreases sizes.len(),
{
    if sizes.len() == 0 || used <= budget {
        0
    } else {
        1 + evictions_needed(
            sizes.drop_first(),
            if used >= sizes[0] {
                used - sizes[0]
            } else {
                0
            },
            budget,
        )
    }
}

/// The usage after evicting the first `k` candidates.
pub open spec fn usage_after(sizes: Seq<u64>, used: int, k: nat) -> int
    decreases k,
{
    if k == 0 {
        used
    } else {
        let u = usage_after(sizes, used, (k - 1) as nat);
        if u >= sizes[k - 1] {
            u - sizes[k - 1]
        } else {
            0
        }
    }
}

proof fn lemma_evictions_step(sizes: Seq<u64>, used: int, budget: int, k: nat)
    requires
        k <= sizes.len(),
        forall|j: nat| j < k ==> usage_after(sizes, used, j) > budget,
    ensures
        evictions_needed(sizes, used, budget) == k + evictions_needed(
            sizes.skip(k as int),
            usage_after(sizes, used, k),
            budget,
        ),
    decreases k,
{
    if k > 0 {
        lemma_evictions_step(sizes, used, budget, (k - 1) as nat);
        let rest = sizes.skip(k - 1);
        let u = usage_after(sizes, used, (k - 1) as nat);
        assert(u > budget);
        assert(rest.len() > 0);
        assert(rest[0] == sizes[k - 1]);
        assert(rest.drop_first() =~= sizes.skip(k as int));
    } else {
        assert(sizes.skip(0) =~= sizes);
    }
}

/// Evict candidates, in the order given, to Dram until the HBM usage is
/// within the budget: one evict decision per candidate taken, carrying the
/// memory freed as a negative delta.
pub fn select_evictions(candidates: &Vec<(StateId, u64)>, hbm_used: u64, budget: u64) -> (r: Vec<
    StateDecision,
>)
    requires
        forall|i: int| 0 <= i < candidates@.len() ==> (#[trigger] candidates@[i]).1 != 0x8000_0000_0000_0000u64,
    ensures
        r@.len() == evictions_needed(
            candidates@.map_values(|c: (StateId, u64)| c.1),
            hbm_used as int,
            budget as int,
        ),
        forall|i: int|
            0 <= i < r@.len() ==> (#[trigger] r@[i]).is_fresh_except_delta(candidates@[i].0, Action::Evict)
                && r@[i].target_location == Some(Location::Dram) && r@[i].memory_delta_bytes
                == evict_delta(candidates@[i].1),
{
    let ghost sizes = candidates@.map_values(|c: (StateId, u64)| c.1);
    let mut decisions: Vec<StateDecision> = Vec::new();
    let mut current = hbm_used;
    let mut i: usize = 0;
    while i < candidates.len()
        invariant
            i <= candidates@.len(),
            sizes == candidates@.map_values(|c: (StateId, u64)| c.1),
            sizes.len() == candidates@.len(),
            decisions@.len() == i,
            current == usage_after(sizes, hbm_used as int, i as nat),
            forall|j: nat| j < i ==> usage_after(sizes, hbm_used as int, j) > budget,
            forall|k: int| 0 <= k < candidates@.len() ==> (#[trigger] candidates@[k]).1 != 0x8000_0000_0000_0000u64,
            forall|k: int|
                0 <= k < decisions@.len() ==> (#[trigger] decisions@[k]).is_fresh_except_delta(
                    candidates@[k].0,
                    Action::Evict,
                ) && decisions@[k].target_location == Some(Location::Dram)
                    && decisions@[k].memory_delta_bytes == evict_delta(candidates@[k].1),
        ensures
            i <= candidates@.len(),
            decisions@.len() == i,
            current == usage_after(sizes, hbm_used as int, i as nat),
            forall|j: nat| j < i ==> usage_after(sizes, hbm_used as int, j) > budget,
            i == candidates@.len() || current <= budget,
            forall|k: int|
                0 <= k < decisions@.len() ==> (#[trigger] decisions@[k]).is_fresh_except_delta(
                    candidates@[k].0,
                    Action::Evict,
                ) && decisions@[k].target_location == Some(Location::Dram)
                    && decisions@[k].memory_delta_bytes == evict_delta(candidates@[k].1),
        decreases candidates@.len() - i,
    {
        if current <= budget {
            break;
        }
        let (id, size) = (&candidates[i].0, candidates[i].1);
        assert(size == sizes[i as int]);
        let delta: i64 = if size <= 0x7fff_ffff_ffff_ffff {
            0i64 - (size as i64)
        } else {
            (u64::MAX - size + 1) as i64
        };
        let d = StateDecision::evict(id.clone(), Some(Location::Dram)).with_memory_delta(delta);
        decisions.push(d);
        current = current.saturating_sub(size);
        i = i + 1;
    }
    proof {
        lemma_evictions_step(sizes, hbm_used as int, budget as int, i as nat);
        let rest = sizes.skip(i as int);
        assert(rest.len() == 0 || usage_after(sizes, hbm_used as int, i as nat) <= budget);
    }
    decisions
}

/// Evicting the first candidate and then `k` more is evicting `k + 1`.
proof fn lemma_usage_after_shift(sizes: Seq<u64>, used: int, k: nat)
    requires
        k + 1 <= sizes.len(),
    ensures
        usage_after(sizes, used, k + 1) == usage_after(
            sizes.drop_first(),
            if used >= sizes[0] {
                used - sizes[0]
            } else {
                0
            },
            k,
        ),
    decreases k,
{
    let u2 = if used >= sizes[0] {
        used - sizes[0]
    } else {
        0
    };
    if k > 0 {
        lemma_usage_after_shift(sizes, used, (k - 1) as nat);
        assert(sizes.drop_first()[k - 1] == sizes[k as int]);
        assert(usage_after(sizes, used, k + 1) == {
            let u = usage_after(sizes, used, k);
            if u >= sizes[k as int] {
                u - sizes[k as int]
            } else {
                0
            }
        });
    } else {
        assert(usage_after(sizes, used, 0) == used);
        assert(usage_after(sizes.drop_first(), u2, 0) == u2);
        assert(usage_after(sizes, used, 1) == {
            let u = usage_after(sizes, used, 0);
            if u >= sizes[0] {
                u - sizes[0]
            } else {
                0
            }
        });
    }
}

/// Evictions stop exactly when the budget is met: every candidate taken
/// was taken while the usage was still over the budget, and when some
/// candidates are left untaken the usage is within the budget. Nothing is
/// evicted when the usage is already within it.
pub proof fn law_evictions_meet_budget(sizes: Seq<u64>, used: int, budget: int)
    ensures
        evictions_needed(sizes, used, budget) <= sizes.len(),
        used <= budget ==> evictions_needed(sizes, used, budget) == 0,
        forall|j: nat|
            j < evictions_needed(sizes, used, budget) ==> #[trigger] usage_after(sizes, used, j)
                > budget,
        evictions_needed(sizes, used, budget) < sizes.len() ==> usage_after(
            sizes,
            used,
            evictions_needed(sizes, used, budget),
        ) <= budget,
    decreases sizes.len(),
{
    if sizes.len() > 0 && used > budget {
        let rest = sizes.drop_first();
        let u2 = if used >= sizes[0] {
            used - sizes[0]
        } else {
            0
        };
        law_evictions_meet_budget(rest, u2, budget);
        let n2 = evictions_needed(rest, u2, budget);
        assert forall|j: nat| j < evictions_needed(sizes, used, budget) implies #[trigger] usage_after(
            sizes,
            used,
            j,
        ) > budget by {
            if j > 0 {
                lemma_usage_after_shift(sizes, used, (j - 1) as nat);
                assert(usage_after(rest, u2, (j - 1) as nat) > budget);
            }
        }
        if n2 < rest.len() {
            lemma_usage_after_shift(sizes, used, n2);
        }
    }
}

// =============================================================================
// Expert placement
// =============================================================================

/// HBM bytes claimed after placing the experts of `order` (in order):
/// each expert that still fits in the budget claims its size.
pub open spec fn placed_bytes(order: Seq<(StateId, u64, Location)>, budget: int) -> int
    decreases order.len(),
{
    if order.len() == 0 {
        0
    } else {
        let u = placed_bytes(order.drop_last(), budget);
        if u + order.last().1 <= budget {
            u + order.last().1
        } else {
            u
        }
    }
}

/// The placement decisions for `order`: an expert that fits is prefetched
/// into HBM unless it is there already; one that does not fit is evicted
/// to Dram if it is in HBM.
pub open spec fn placement(order: Seq<(StateId, u64, Location)>, budget: int) -> Seq<(StateId, Action)>
    decreases order.len(),
{
    if order.len() == 0 {
        Seq::empty()
    } else {
        let prev = placement(order.drop_last(), budget);
        let (id, size, loc) = order.last();
        if placed_bytes(order.drop_last(), budget) + size <= budget {
            if loc != Location::Hbm {
                prev.push((id, Action::Prefetch))
            } else {
                prev
            }
        } else if loc == Location::Hbm {
            prev.push((id, Action::Evict))
        } else {
            prev
        }
    }
}

/// Expert placement never claims more HBM than the budget: the experts
/// kept in or brought to HBM fit in it together.
pub proof fn law_placement_within_budget(order: Seq<(StateId, u64, Location)>, budget: int)
    requires
        budget >= 0,
    ensures
        0 <= placed_bytes(order, budget) <= budget,
    decreases order.len(),
{
    if order.len() > 0 {
        law_placement_within_budget(order.drop_last(), budget);
    }
}

/// Number of prefetches among placement decisions.
pub open spec fn prefetches(p: Seq<(StateId, Action)>) -> nat
    decreases p.len(),
{
    if p.len() == 0 {
        0
    } else {
        prefetches(p.drop_last()) + if p.last().1 == Action::Prefetch {
            1nat
        } else {
            0nat
        }
    }
}

/// Place MoE experts, most likely first, under an HBM budget: each expert
/// that still fits is kept in or prefetched to HBM; the others are evicted
/// to Dram when they are in HBM. Prefetches are counted in `stats`.
#[verifier::rlimit(80)]
pub fn place_experts(order: &Vec<(StateId, u64, Location)>, budget: u64, stats: &mut DecisionStats) -> (r: ExecutionPlan)
    requires
        forall|i: int|
            0 <= i < order@.len() ==> placed_bytes(order@.take(i), budget as int) + (#[trigger] order@[i]).1
                <= u64::MAX,
        old(stats).prefetch_chosen + prefetches(placement(order@, budget as int)) <= u64::MAX,
    ensures
        r.wf(),
        r.expected_memory_delta_bytes == 0,
        r.decisions@.len() == placement(order@, budget as int).len(),
        forall|k: int|
            0 <= k < r.decisions@.len() ==> (#[trigger] r.decisions@[k]).is_fresh(
                placement(order@, budget as int)[k].0,
                placement(order@, budget as int)[k].1,
            ) && r.decisions@[k].target_location == if placement(order@, budget as int)[k].1
                == Action::Prefetch {
                Some(Location::Hbm)
            } else {
                Some(Location::Dram)
            },
        *final(stats) == (DecisionStats {
            prefetch_chosen: (old(stats).prefetch_chosen + prefetches(
                placement(order@, budget as int),
            )) as u64,
            ..*old(stats)
        }),
{
    let mut plan = ExecutionPlan::new();
    let mut used: u64 = 0;
    let mut i: usize = 0;
    let ghost start = *stats;
    proof {
        assert(order@.take(0) =~= Seq::<(StateId, u64, Location)>::empty());
        lemma_prefetches_prefix(order@, budget as int, 0);
    }
    while i < order.len()
        invariant
            i <= order@.len(),
            used == placed_bytes(order@.take(i as int), budget as int),
            plan.wf(),
            plan.expected_memory_delta_bytes == 0,
            plan.decisions@.len() == placement(order@.take(i as int), budget as int).len(),
            forall|k: int|
                0 <= k < plan.decisions@.len() ==> (#[trigger] plan.decisions@[k]).is_fresh(
                    placement(order@.take(i as int), budget as int)[k].0,
                    placement(order@.take(i as int), budget as int)[k].1,
                ) && plan.decisions@[k].target_location == if placement(
                    order@.take(i as int),
                    budget as int,
                )[k].1 == Action::Prefetch {
                    Some(Location::Hbm)
                } else {
                    Some(Location::Dram)
                },
            forall|j: int|
                0 <= j < order@.len() ==> placed_bytes(order@.take(j), budget as int) + (#[trigger] order@[j]).1
                    <= u64::MAX,
            start.prefetch_chosen + prefetches(placement(order@, budget as int)) <= u64::MAX,
            prefetches(placement(order@.take(i as int), budget as int)) <= prefetches(placement(order@, budget as int)),
            *stats == (DecisionStats {
                prefetch_chosen: (start.prefetch_chosen + prefetches(
                    placement(order@.take(i as int), budget as int),
                )) as u64,
                ..start
            }),
        decreases order@.len() - i,
    {
        let ghost pre = order@.take(i as int);
        let ghost next = order@.take(i + 1);
        proof {
            assert(next.drop_last() =~= pre);
            assert(next.last() == order@[i as int]);
            lemma_prefetches_prefix(order@, budget as int, i + 1);
        }
        let (id, size, loc) = (&order[i].0, order[i].1, order[i].2);
        let ghost pl = placement(pre, budget as int);
        let ghost before = plan.decisions@;
        if used + size <= budget {
            if loc != Location::Hbm {
                let d = StateDecision::prefetch(id.clone(), Location::Hbm);
                plan.add(d);
                proof {
                    assert(placement(next, budget as int) == pl.push((*id, Action::Prefetch)));
                    assert(pl.push((*id, Action::Prefetch)).drop_last() =~= pl);
                    assert(prefetches(placement(next, budget as int)) == prefetches(pl) + 1);
                    assert(plan.decisions@ == before.push(d));
                }
                stats.prefetch_chosen = stats.prefetch_chosen + 1;
            } else {
                proof {
                    assert(placement(next, budget as int) == pl);
                }
            }
            used = used + size;
        } else {
            if loc == Location::Hbm {
                let d = StateDecision::evict(id.clone(), Some(Location::Dram));
                plan.add(d);
                proof {
                    assert(placement(next, budget as int) == pl.push((*id, Action::Evict)));
                    assert(pl.push((*id, Action::Evict)).drop_last() =~= pl);
                    assert(prefetches(placement(next, budget as int)) == prefetches(pl));
                    assert(plan.decisions@ == before.push(d));
                }
            } else {
                proof {
                    assert(placement(next, budget as int) == pl);
                }
            }
        }
        i = i + 1;
    }
    proof {
        assert(order@.take(i as int) =~= order@);
    }
    plan
}

/// Prefixes of the order place no more prefetches than the whole.
proof fn lemma_prefetches_prefix(order: Seq<(StateId, u64, Location)>, budget: int, i: int)
    requires
        0 <= i <= order.len(),
    ensures
        prefetches(placement(order.take(i), budget)) <= prefetches(placement(order, budget)),
    decreases order.len() - i,
{
    if i < order.len() {
        lemma_prefetches_prefix(order, budget, i + 1);
        let a = order.take(i + 1);
        assert(a.drop_last() =~= order.take(i));
        let p = placement(a.drop_last(), budget);
        let q = placement(a, budget);
        assert(q == p || q.drop_last() == p);
        if q != p {
            assert(prefetches(q) >= prefetches(p));
        }
    } else {
        assert(order.take(i) =~= order);
    }
}

} // verus!
