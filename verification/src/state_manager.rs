//! State Manager: the registry of all execution state.
//!
//! The manager keeps every state by identifier, indexes them by location
//! and by type, tracks the bytes held in each memory tier, and executes the
//! decisions of an execution plan against this registry.
//!
//! Its invariant: each index holds exactly the identifiers of the states
//! with that location (type), and the recorded usage of each tier is the
//! total size of the states materialized there.

use vstd::prelude::*;
use std::collections::HashSet;
use dashmap::DashMap;
use crate::decision::{DecisionStatus, ExecutionPlan, StateDecision, lemma_delta_sum_same_deltas};
use crate::error::AetherError;
use crate::hardware::TierCapacities;
use crate::state::ExecutionState;
use crate::types::{Action, Location, StateId, StateType};

verus! {

// =============================================================================
// The concurrent map of the `dashmap` crate
// =============================================================================

#[verifier::external_type_specification]
#[verifier::external_body]
#[verifier::reject_recursive_types(K)]
#[verifier::reject_recursive_types(V)]
#[verifier::reject_recursive_types(S)]
pub struct ExDashMap<K, V, S>(DashMap<K, V, S>);

/// The entries of the state registry, keyed by identifier text.
pub uninterp spec fn state_table(m: DashMap<StateId, ExecutionState>) -> Map<
    Seq<char>,
    ExecutionState,
>;

/// The entries of the location index: each location's set of identifiers.
pub uninterp spec fn location_index(m: DashMap<Location, HashSet<StateId>>) -> Map<
    Location,
    Set<Seq<char>>,
>;

/// The entries of the type index: each state type's set of identifiers.
pub uninterp spec fn type_index(m: DashMap<StateType, HashSet<StateId>>) -> Map<
    StateType,
    Set<Seq<char>>,
>;

/// The entries of the per-tier usage table.
pub uninterp spec fn usage_table(m: DashMap<Location, u64>) -> Map<Location, u64>;

/// `DashMap::new` for the registry: an empty map.
#[verifier::external_body]
fn table_new() -> (m: DashMap<StateId, ExecutionState>)
    ensures
        state_table(m).dom().is_empty(),
{
    DashMap::new()
}

/// `DashMap::contains_key` on the registry.
#[verifier::external_body]
fn table_contains(m: &DashMap<StateId, ExecutionState>, id: &StateId) -> (r: bool)
    ensures
        r == state_table(*m).contains_key(id.0@),
{
    m.contains_key(id)
}

/// `DashMap::insert` on the registry: the entry for `id` becomes `s`.
#[verifier::external_body]
fn table_insert(m: &mut DashMap<StateId, ExecutionState>, id: StateId, s: ExecutionState)
    ensures
        state_table(*final(m)) == state_table(*old(m)).insert(id.0@, s),
{
    m.insert(id, s);
}

/// `DashMap::remove` on the registry, returning the removed value.
#[verifier::external_body]
fn table_remove(m: &mut DashMap<StateId, ExecutionState>, id: &StateId) -> (r: Option<
    ExecutionState,
>)
    ensures
        state_table(*final(m)) == state_table(*old(m)).remove(id.0@),
        r == (if state_table(*old(m)).contains_key(id.0@) {
            Some(state_table(*old(m))[id.0@])
        } else {
            None
        }),
{
    m.remove(id).map(|(_, s)| s)
}

/// `DashMap::get` on the registry, copying the entry.
#[verifier::external_body]
fn table_get(m: &DashMap<StateId, ExecutionState>, id: &StateId) -> (r: Option<ExecutionState>)
    ensures
        r is Some == state_table(*m).contains_key(id.0@),
        r matches Some(s) ==> s.same_data(&state_table(*m)[id.0@]),
{
    m.get(id).map(|e| e.value().duplicate())
}

/// `DashMap::get_mut` on the registry, setting the entry's location.
#[verifier::external_body]
fn table_set_location(m: &mut DashMap<StateId, ExecutionState>, id: &StateId, loc: Location)
    ensures
        state_table(*final(m)) == (if state_table(*old(m)).contains_key(id.0@) {
            state_table(*old(m)).insert(
                id.0@,
                ExecutionState { location: loc, ..state_table(*old(m))[id.0@] },
            )
        } else {
            state_table(*old(m))
        }),
{
    if let Some(mut s) = m.get_mut(id) {
        s.location = loc;
    }
}

/// `DashMap::len` on the registry; its key set is finite.
#[verifier::external_body]
fn table_len(m: &DashMap<StateId, ExecutionState>) -> (r: usize)
    ensures
        r == state_table(*m).len(),
{
    m.len()
}

/// `DashMap::clear` on the registry.
#[verifier::external_body]
fn table_clear(m: &mut DashMap<StateId, ExecutionState>)
    ensures
        state_table(*final(m)).dom().is_empty(),
{
    m.clear();
}

/// `DashMap::iter` on the registry, copying every entry once (in no
/// particular order).
#[verifier::external_body]
fn table_entries(m: &DashMap<StateId, ExecutionState>) -> (r: Vec<(StateId, ExecutionState)>)
    ensures
        forall|i: int, j: int| 0 <= i < j < r@.len() ==> r@[i].0@ != r@[j].0@,
        forall|i: int|
            0 <= i < r@.len() ==> state_table(*m).contains_key(#[trigger] r@[i].0@) && r@[i].1.same_data(
                &state_table(*m)[r@[i].0@],
            ),
        forall|k: Seq<char>|
            #[trigger] state_table(*m).contains_key(k) ==> exists|i: int|
                0 <= i < r@.len() && r@[i].0@ == k,
{
    m.iter().map(|e| (e.key().clone(), e.value().duplicate())).collect()
}

/// `DashMap::new` for the location index.
#[verifier::external_body]
fn loc_index_new() -> (m: DashMap<Location, HashSet<StateId>>)
    ensures
        location_index(m).dom().is_empty(),
{
    DashMap::new()
}

/// `entry(loc).or_default().insert(id)` on the location index.
#[verifier::external_body]
fn loc_index_add(m: &mut DashMap<Location, HashSet<StateId>>, loc: Location, id: StateId)
    ensures
        location_index(*final(m)) == location_index(*old(m)).insert(
            loc,
            (if location_index(*old(m)).contains_key(loc) {
                location_index(*old(m))[loc]
            } else {
                Set::empty()
            }).insert(id.0@),
        ),
{
    m.entry(loc).or_default().insert(id);
}

/// `get_mut(&loc)` then `remove(id)` on the location index.
#[verifier::external_body]
fn loc_index_remove(m: &mut DashMap<Location, HashSet<StateId>>, loc: Location, id: &StateId)
    ensures
        location_index(*final(m)) == (if location_index(*old(m)).contains_key(loc) {
            location_index(*old(m)).insert(loc, location_index(*old(m))[loc].remove(id.0@))
        } else {
            location_index(*old(m))
        }),
{
    if let Some(mut set) = m.get_mut(&loc) {
        set.remove(id);
    }
}

/// The identifiers indexed under `loc`, each once (in no particular order).
#[verifier::external_body]
fn loc_index_members(m: &DashMap<Location, HashSet<StateId>>, loc: Location) -> (r: Vec<StateId>)
    ensures
        forall|i: int, j: int|
            0 <= i < j < r@.len() ==> r@[i].0@ != r@[j].0@,
        forall|i: int|
            0 <= i < r@.len() ==> location_index(*m).contains_key(loc)
                && location_index(*m)[loc].contains(#[trigger] r@[i].0@),
        forall|k: Seq<char>|
            location_index(*m).contains_key(loc) && #[trigger] location_index(*m)[loc].contains(k)
                ==> exists|i: int| 0 <= i < r@.len() && r@[i].0@ == k,
{
    m.get(&loc).map(|ids| ids.iter().cloned().collect()).unwrap_or_default()
}

/// Each indexed location with the number of identifiers under it.
#[verifier::external_body]
fn loc_index_counts(m: &DashMap<Location, HashSet<StateId>>) -> (r: Vec<(Location, usize)>)
    ensures
        forall|i: int, j: int| 0 <= i < j < r@.len() ==> r@[i].0 != r@[j].0,
        forall|i: int|
            0 <= i < r@.len() ==> location_index(*m).contains_key(#[trigger] r@[i].0)
                && r@[i].1 == location_index(*m)[r@[i].0].len(),
        forall|l: Location|
            #[trigger] location_index(*m).contains_key(l) ==> exists|i: int|
                0 <= i < r@.len() && r@[i].0 == l,
{
    m.iter().map(|e| (*e.key(), e.value().len())).collect()
}

/// `DashMap::clear` on the location index.
#[verifier::external_body]
fn loc_index_clear(m: &mut DashMap<Location, HashSet<StateId>>)
    ensures
        location_index(*final(m)).dom().is_empty(),
{
    m.clear();
}

/// `DashMap::new` for the type index.
#[verifier::external_body]
fn type_index_new() -> (m: DashMap<StateType, HashSet<StateId>>)
    ensures
        type_index(m).dom().is_empty(),
{
    DashMap::new()
}

/// `entry(t).or_default().insert(id)` on the type index.
#[verifier::external_body]
fn type_index_add(m: &mut DashMap<StateType, HashSet<StateId>>, t: StateType, id: StateId)
    ensures
        type_index(*final(m)) == type_index(*old(m)).insert(
            t,
            (if type_index(*old(m)).contains_key(t) {
                type_index(*old(m))[t]
            } else {
                Set::empty()
            }).insert(id.0@),
        ),
{
    m.entry(t).or_default().insert(id);
}

/// `get_mut(&t)` then `remove(id)` on the type index.
#[verifier::external_body]
fn type_index_remove(m: &mut DashMap<StateType, HashSet<StateId>>, t: StateType, id: &StateId)
    ensures
        type_index(*final(m)) == (if type_index(*old(m)).contains_key(t) {
            type_index(*old(m)).insert(t, type_index(*old(m))[t].remove(id.0@))
        } else {
            type_index(*old(m))
        }),
{
    if let Some(mut set) = m.get_mut(&t) {
        set.remove(id);
    }
}

/// The identifiers indexed under type `t`, each once.
#[verifier::external_body]
fn type_index_members(m: &DashMap<StateType, HashSet<StateId>>, t: StateType) -> (r: Vec<StateId>)
    ensures
        forall|i: int, j: int|
            0 <= i < j < r@.len() ==> r@[i].0@ != r@[j].0@,
        forall|i: int|
            0 <= i < r@.len() ==> type_index(*m).contains_key(t) && type_index(*m)[t].contains(
                #[trigger] r@[i].0@,
            ),
        forall|k: Seq<char>|
            type_index(*m).contains_key(t) && #[trigger] type_index(*m)[t].contains(k)
                ==> exists|i: int| 0 <= i < r@.len() && r@[i].0@ == k,
{
    m.get(&t).map(|ids| ids.iter().cloned().collect()).unwrap_or_default()
}

/// Each indexed type with the number of identifiers under it.
#[verifier::external_body]
fn type_index_counts(m: &DashMap<StateType, HashSet<StateId>>) -> (r: Vec<(StateType, usize)>)
    ensures
        forall|i: int, j: int| 0 <= i < j < r@.len() ==> r@[i].0 != r@[j].0,
        forall|i: int|
            0 <= i < r@.len() ==> type_index(*m).contains_key(#[trigger] r@[i].0) && r@[i].1
                == type_index(*m)[r@[i].0].len(),
        forall|t: StateType|
            #[trigger] type_index(*m).contains_key(t) ==> exists|i: int|
                0 <= i < r@.len() && r@[i].0 == t,
{
    m.iter().map(|e| (*e.key(), e.value().len())).collect()
}

/// `DashMap::clear` on the type index.
#[verifier::external_body]
fn type_index_clear(m: &mut DashMap<StateType, HashSet<StateId>>)
    ensures
        type_index(*final(m)).dom().is_empty(),
{
    m.clear();
}

/// `DashMap::new` for the usage table.
#[verifier::external_body]
fn usage_new() -> (m: DashMap<Location, u64>)
    ensures
        usage_table(m).dom().is_empty(),
{
    DashMap::new()
}

/// `DashMap::get` on the usage table: the recorded bytes for `loc`, if any.
#[verifier::external_body]
fn usage_get(m: &DashMap<Location, u64>, loc: Location) -> (r: Option<u64>)
    ensures
        r == (if usage_table(*m).contains_key(loc) {
            Some(usage_table(*m)[loc])
        } else {
            None
        }),
{
    m.get(&loc).map(|e| *e)
}

/// `DashMap::insert` on the usage table: `loc` now records `v`.
#[verifier::external_body]
fn usage_set(m: &mut DashMap<Location, u64>, loc: Location, v: u64)
    ensures
        usage_table(*final(m)) == usage_table(*old(m)).insert(loc, v),
{
    m.insert(loc, v);
}

/// Adds `n` bytes to the usage of `loc`, creating the entry at 0 first.
fn usage_add(m: &mut DashMap<Location, u64>, loc: Location, n: u64)
    requires
        (if usage_table(*old(m)).contains_key(loc) {
            usage_table(*old(m))[loc] as int
        } else {
            0int
        }) + n <= u64::MAX,
    ensures
        usage_table(*final(m)) == usage_table(*old(m)).insert(
            loc,
            ((if usage_table(*old(m)).contains_key(loc) {
                usage_table(*old(m))[loc] as int
            } else {
                0int
            }) + n) as u64,
        ),
{
    let current: u64 = match usage_get(m, loc) {
        Some(v) => v,
        None => 0,
    };
    usage_set(m, loc, current + n);
}

/// Takes `n` bytes off the usage of `loc`, saturating at 0; a location
/// without an entry is left without one.
fn usage_sub(m: &mut DashMap<Location, u64>, loc: Location, n: u64)
    ensures
        usage_table(*final(m)) == (if usage_table(*old(m)).contains_key(loc) {
            usage_table(*old(m)).insert(
                loc,
                if usage_table(*old(m))[loc] >= n {
                    (usage_table(*old(m))[loc] - n) as u64
                } else {
                    0u64
                },
            )
        } else {
            usage_table(*old(m))
        }),
{
    match usage_get(m, loc) {
        Some(v) => {
            let next: u64 = if v >= n { v - n } else { 0 };
            usage_set(m, loc, next);
        },
        None => {},
    }
}

/// Every entry of the usage table, each location once.
#[verifier::external_body]
fn usage_entries(m: &DashMap<Location, u64>) -> (r: Vec<(Location, u64)>)
    ensures
        forall|i: int, j: int| 0 <= i < j < r@.len() ==> r@[i].0 != r@[j].0,
        forall|i: int|
            0 <= i < r@.len() ==> usage_table(*m).contains_key(#[trigger] r@[i].0) && r@[i].1
                == usage_table(*m)[r@[i].0],
        forall|l: Location|
            #[trigger] usage_table(*m).contains_key(l) ==> exists|i: int|
                0 <= i < r@.len() && r@[i].0 == l,
{
    m.iter().map(|e| (*e.key(), *e.value())).collect()
}

/// `DashMap::clear` on the usage table.
#[verifier::external_body]
fn usage_clear(m: &mut DashMap<Location, u64>)
    ensures
        usage_table(*final(m)).dom().is_empty(),
{
    m.clear();
}

// =============================================================================
// Tier totals
// =============================================================================

/// Bytes a state contributes to a tier: its size where it is materialized
/// at that tier, nothing elsewhere.
pub open spec fn contribution(s: ExecutionState, l: Location) -> int {
    if s.location == l && l.spec_is_materialized() {
        s.size_bytes as int
    } else {
        0
    }
}

/// The accumulation step of a tier total.
pub open spec fn total_step(t: Map<Seq<char>, ExecutionState>, l: Location) -> spec_fn(
    int,
    Seq<char>,
) -> int {
    |acc: int, k: Seq<char>| acc + contribution(t[k], l)
}

/// Total size of the states materialized at tier `l`.
pub open spec fn tier_total(t: Map<Seq<char>, ExecutionState>, l: Location) -> int {
    t.dom().fold(0int, total_step(t, l))
}

proof fn lemma_step_commutative(t: Map<Seq<char>, ExecutionState>, l: Location)
    ensures
        vstd::set::fold::is_fun_commutative(total_step(t, l)),
{
}

proof fn lemma_fold_agree(
    s: Set<Seq<char>>,
    t1: Map<Seq<char>, ExecutionState>,
    t2: Map<Seq<char>, ExecutionState>,
    l: Location,
)
    requires
        s.finite(),
        forall|k: Seq<char>| #[trigger] s.contains(k) ==> t1[k] == t2[k],
    ensures
        s.fold(0int, total_step(t1, l)) == s.fold(0int, total_step(t2, l)),
    decreases s.len(),
{
    lemma_step_commutative(t1, l);
    lemma_step_commutative(t2, l);
    if s.len() == 0 {
        assert(s =~= Set::<Seq<char>>::empty());
        vstd::set::fold::lemma_fold_empty(0int, total_step(t1, l));
        vstd::set::fold::lemma_fold_empty(0int, total_step(t2, l));
    } else {
        let a = s.choose();
        let r = s.remove(a);
        lemma_fold_agree(r, t1, t2, l);
        vstd::set::fold::lemma_fold_insert(r, 0int, total_step(t1, l), a);
        vstd::set::fold::lemma_fold_insert(r, 0int, total_step(t2, l), a);
        assert(r.insert(a) =~= s);
    }
}

/// Adding a new state adds its contribution to every tier total.
proof fn lemma_total_insert_new(
    t: Map<Seq<char>, ExecutionState>,
    k: Seq<char>,
    v: ExecutionState,
    l: Location,
)
    requires
        t.dom().finite(),
        !t.contains_key(k),
    ensures
        tier_total(t.insert(k, v), l) == tier_total(t, l) + contribution(v, l),
{
    let t2 = t.insert(k, v);
    lemma_step_commutative(t2, l);
    lemma_fold_agree(t.dom(), t, t2, l);
    vstd::set::fold::lemma_fold_insert(t.dom(), 0int, total_step(t2, l), k);
    assert(t2.dom() =~= t.dom().insert(k));
}

/// Removing a state takes its contribution off every tier total.
proof fn lemma_total_remove(t: Map<Seq<char>, ExecutionState>, k: Seq<char>, l: Location)
    requires
        t.dom().finite(),
        t.contains_key(k),
    ensures
        tier_total(t.remove(k), l) == tier_total(t, l) - contribution(t[k], l),
{
    let r = t.remove(k);
    lemma_total_insert_new(r, k, t[k], l);
    assert(r.insert(k, t[k]) =~= t);
}

/// Replacing a state replaces its contribution.
proof fn lemma_total_update(
    t: Map<Seq<char>, ExecutionState>,
    k: Seq<char>,
    v: ExecutionState,
    l: Location,
)
    requires
        t.dom().finite(),
        t.contains_key(k),
    ensures
        tier_total(t.insert(k, v), l) == tier_total(t, l) - contribution(t[k], l) + contribution(
            v,
            l,
        ),
{
    lemma_total_remove(t, k, l);
    lemma_total_insert_new(t.remove(k), k, v, l);
    assert(t.remove(k).insert(k, v) =~= t.insert(k, v));
}

/// Tier totals are never negative.
proof fn lemma_total_nonneg(t: Map<Seq<char>, ExecutionState>, l: Location)
    requires
        t.dom().finite(),
    ensures
        tier_total(t, l) >= 0,
    decreases t.dom().len(),
{
    if t.dom().len() == 0 {
        assert(t.dom() =~= Set::<Seq<char>>::empty());
        vstd::set::fold::lemma_fold_empty(0int, total_step(t, l));
    } else {
        let k = t.dom().choose();
        lemma_total_remove(t, k, l);
        assert(t.remove(k).dom() =~= t.dom().remove(k));
        lemma_total_nonneg(t.remove(k), l);
    }
}

/// Each state's contribution is part of the tier total.
proof fn lemma_total_covers(t: Map<Seq<char>, ExecutionState>, k: Seq<char>, l: Location)
    requires
        t.dom().finite(),
        t.contains_key(k),
    ensures
        tier_total(t, l) >= contribution(t[k], l),
{
    lemma_total_remove(t, k, l);
    lemma_total_nonneg(t.remove(k), l);
}

/// A virtual location holds no bytes.
proof fn lemma_total_virtual(t: Map<Seq<char>, ExecutionState>, l: Location)
    requires
        t.dom().finite(),
        !l.spec_is_materialized(),
    ensures
        tier_total(t, l) == 0,
    decreases t.dom().len(),
{
    if t.dom().len() == 0 {
        assert(t.dom() =~= Set::<Seq<char>>::empty());
        vstd::set::fold::lemma_fold_empty(0int, total_step(t, l));
    } else {
        let k = t.dom().choose();
        lemma_total_remove(t, k, l);
        assert(t.remove(k).dom() =~= t.dom().remove(k));
        lemma_total_virtual(t.remove(k), l);
    }
}

/// The accumulation step of the total size of all states.
pub open spec fn all_step(t: Map<Seq<char>, ExecutionState>) -> spec_fn(int, Seq<char>) -> int {
    |acc: int, k: Seq<char>| acc + t[k].size_bytes
}

/// Total size of every state held, wherever it is.
pub open spec fn all_bytes(t: Map<Seq<char>, ExecutionState>) -> int {
    t.dom().fold(0int, all_step(t))
}

proof fn lemma_all_fold_agree(
    s: Set<Seq<char>>,
    t1: Map<Seq<char>, ExecutionState>,
    t2: Map<Seq<char>, ExecutionState>,
)
    requires
        s.finite(),
        forall|k: Seq<char>| #[trigger] s.contains(k) ==> t1[k].size_bytes == t2[k].size_bytes,
    ensures
        s.fold(0int, all_step(t1)) == s.fold(0int, all_step(t2)),
    decreases s.len(),
{
    assert(vstd::set::fold::is_fun_commutative(all_step(t1)));
    assert(vstd::set::fold::is_fun_commutative(all_step(t2)));
    if s.len() == 0 {
        assert(s =~= Set::<Seq<char>>::empty());
        vstd::set::fold::lemma_fold_empty(0int, all_step(t1));
        vstd::set::fold::lemma_fold_empty(0int, all_step(t2));
    } else {
        let a = s.choose();
        let r = s.remove(a);
        lemma_all_fold_agree(r, t1, t2);
        vstd::set::fold::lemma_fold_insert(r, 0int, all_step(t1), a);
        vstd::set::fold::lemma_fold_insert(r, 0int, all_step(t2), a);
        assert(r.insert(a) =~= s);
    }
}

/// Taking a state out takes its size off the total.
proof fn lemma_all_remove(t: Map<Seq<char>, ExecutionState>, k: Seq<char>)
    requires
        t.dom().finite(),
        t.contains_key(k),
    ensures
        all_bytes(t.remove(k)) == all_bytes(t) - t[k].size_bytes,
{
    let r = t.remove(k);
    assert(vstd::set::fold::is_fun_commutative(all_step(t)));
    lemma_all_fold_agree(r.dom(), r, t);
    vstd::set::fold::lemma_fold_insert(r.dom(), 0int, all_step(t), k);
    assert(r.dom().insert(k) =~= t.dom());
}

/// A tier never holds more than all states together.
proof fn lemma_tier_within_all(t: Map<Seq<char>, ExecutionState>, l: Location)
    requires
        t.dom().finite(),
    ensures
        tier_total(t, l) <= all_bytes(t),
    decreases t.dom().len(),
{
    if t.dom().len() == 0 {
        assert(t.dom() =~= Set::<Seq<char>>::empty());
        vstd::set::fold::lemma_fold_empty(0int, total_step(t, l));
        vstd::set::fold::lemma_fold_empty(0int, all_step(t));
    } else {
        let k = t.dom().choose();
        lemma_total_remove(t, k, l);
        lemma_all_remove(t, k);
        assert(t.remove(k).dom() =~= t.dom().remove(k));
        lemma_tier_within_all(t.remove(k), l);
    }
}

/// Relocating a state keeps the total size of all states.
pub proof fn lemma_all_bytes_relocated(t: Map<Seq<char>, ExecutionState>, k: Seq<char>, target: Location)
    requires
        t.dom().finite(),
        t.contains_key(k),
    ensures
        all_bytes(relocated(t, k, target)) == all_bytes(t),
{
    let t2 = relocated(t, k, target);
    assert(t2.dom() =~= t.dom());
    lemma_all_fold_agree(t.dom(), t2, t);
}

/// A state not at tier `l` fits, with that tier's total, within the total
/// size of all states; so does its own size.
pub proof fn lemma_tier_room(t: Map<Seq<char>, ExecutionState>, k: Seq<char>, l: Location)
    requires
        t.dom().finite(),
        t.contains_key(k),
    ensures
        t[k].size_bytes <= all_bytes(t),
        t[k].location != l ==> tier_total(t, l) + t[k].size_bytes <= all_bytes(t),
{
    lemma_total_remove(t, k, l);
    lemma_all_remove(t, k);
    assert(t.remove(k).dom() =~= t.dom().remove(k));
    lemma_tier_within_all(t.remove(k), l);
    lemma_total_nonneg(t.remove(k), l);
}

/// The total size of all states is never negative.
pub proof fn lemma_all_bytes_nonneg(t: Map<Seq<char>, ExecutionState>)
    requires
        t.dom().finite(),
    ensures
        all_bytes(t) >= 0,
{
    lemma_tier_within_all(t, Location::Hbm);
    lemma_total_nonneg(t, Location::Hbm);
}

/// Registering a state at any physical tier, local or remote, books its
/// size at that tier.
pub proof fn law_register_books_physical_tier(
    t: Map<Seq<char>, ExecutionState>,
    k: Seq<char>,
    s: ExecutionState,
)
    requires
        t.dom().finite(),
        !t.contains_key(k),
        s.location is Hbm || s.location is Dram || s.location is Cxl || s.location is Nvme
            || s.location is RemoteGpu || s.location is RemoteHost,
    ensures
        tier_total(t.insert(k, s), s.location) == tier_total(t, s.location) + s.size_bytes,
{
    lemma_total_insert_new(t, k, s, s.location);
}

/// With nothing registered, each local tier has its whole configured
/// capacity free: HBM its HBM bytes, DRAM its DRAM bytes, NVMe its NVMe
/// bytes, CXL its CXL bytes.
pub proof fn law_empty_tiers_fully_available(caps: TierCapacities)
    ensures
        available_in(caps, Map::empty(), Location::Hbm) == caps.hbm_bytes,
        available_in(caps, Map::empty(), Location::Dram) == caps.dram_bytes,
        available_in(caps, Map::empty(), Location::Nvme) == caps.nvme_bytes,
        available_in(caps, Map::empty(), Location::Cxl) == caps.cxl_bytes,
{
    lemma_total_empty(Location::Hbm);
    lemma_total_empty(Location::Dram);
    lemma_total_empty(Location::Nvme);
    lemma_total_empty(Location::Cxl);
}

/// A weight (dense weights, expert weights, an embedding table) created
/// recomputable exactly when it is not a weight cannot be recomputed: the
/// recompute fails with `NotRecomputable`.
pub proof fn law_recompute_refuses_weights(
    caps: TierCapacities,
    t: Map<Seq<char>, ExecutionState>,
    id: StateId,
)
    requires
        t.contains_key(id@),
        t[id@].recomputable == !t[id@].state_type.spec_is_weight(),
        t[id@].state_type is Weight || t[id@].state_type is ExpertWeight
            || t[id@].state_type is Embedding,
    ensures
        !recompute_succeeds(caps, t, id@),
        recompute_error(caps, t, id) == AetherError::NotRecomputable(id),
{
}

/// The held states of a well-formed manager are finitely many.
pub proof fn lemma_held_finite(m: &StateManager)
    requires
        m.wf(),
    ensures
        m.held().dom().finite(),
{
}

/// The empty registry holds no bytes anywhere.
proof fn lemma_total_empty(l: Location)
    ensures
        tier_total(Map::<Seq<char>, ExecutionState>::empty(), l) == 0,
{
    let t = Map::<Seq<char>, ExecutionState>::empty();
    assert(t.dom() =~= Set::<Seq<char>>::empty());
    vstd::set::fold::lemma_fold_empty(0int, total_step(t, l));
}

} // verus!

verus! {

// =============================================================================
// Statistics
// =============================================================================

/// Statistics from the state manager. Counters wrap at `u64::MAX`.
#[derive(Debug, Clone, Copy, PartialEq, Eq, Structural)]
pub struct ManagerStats {
    pub states_registered: u64,
    pub states_evicted: u64,
    pub transfers_completed: u64,
    pub bytes_transferred: u64,
    pub recomputes_performed: u64,
}

impl ManagerStats {
    /// All counters at zero.
    pub open spec fn spec_zero() -> ManagerStats {
        ManagerStats {
            states_registered: 0,
            states_evicted: 0,
            transfers_completed: 0,
            bytes_transferred: 0,
            recomputes_performed: 0,
        }
    }

    /// All counters at zero.
    pub fn new() -> (r: Self)
        ensures
            r == Self::spec_zero(),
    {
        ManagerStats {
            states_registered: 0,
            states_evicted: 0,
            transfers_completed: 0,
            bytes_transferred: 0,
            recomputes_performed: 0,
        }
    }

    /// Count one more event on a counter.
    pub fn increment(field: &mut u64)
        ensures
            *final(field) == old(field).wrapping_add(1),
    {
        *field = field.wrapping_add(1);
    }

    /// Add transferred bytes.
    pub fn add_bytes(&mut self, bytes: u64)
        ensures
            *final(self) == (ManagerStats {
                bytes_transferred: old(self).bytes_transferred.wrapping_add(bytes),
                ..*old(self)
            }),
    {
        self.bytes_transferred = self.bytes_transferred.wrapping_add(bytes);
    }
}

impl Default for ManagerStats {
    fn default() -> (r: Self)
        ensures
            r == ManagerStats::spec_zero(),
    {
        ManagerStats::new()
    }
}

// =============================================================================
// Outcomes of decisions, stated over the registry's contents
// =============================================================================

/// Free bytes at a tier: its capacity minus what its states hold, or 0.
pub open spec fn available_in(
    caps: TierCapacities,
    t: Map<Seq<char>, ExecutionState>,
    l: Location,
) -> int {
    if tier_total(t, l) <= caps.capacity_of(l) {
        caps.capacity_of(l) - tier_total(t, l)
    } else {
        0
    }
}

/// The registry with the state `id` relocated to `target`.
pub open spec fn relocated(t: Map<Seq<char>, ExecutionState>, id: Seq<char>, target: Location) -> Map<
    Seq<char>,
    ExecutionState,
> {
    t.insert(id, ExecutionState { location: target, ..t[id] })
}

/// A move of `id` to `target` succeeds: the state exists and is already
/// there or fits in the target's free space.
pub open spec fn move_succeeds(
    caps: TierCapacities,
    t: Map<Seq<char>, ExecutionState>,
    id: Seq<char>,
    target: Location,
) -> bool {
    &&& t.contains_key(id)
    &&& (t[id].location == target || t[id].size_bytes <= available_in(caps, t, target))
}

/// A recompute of `id` succeeds: the state exists, is recomputable and fits
/// in HBM's free space.
pub open spec fn recompute_succeeds(
    caps: TierCapacities,
    t: Map<Seq<char>, ExecutionState>,
    id: Seq<char>,
) -> bool {
    &&& t.contains_key(id)
    &&& t[id].recomputable
    &&& t[id].size_bytes <= available_in(caps, t, Location::Hbm)
}

/// The target of an eviction: the given tier, or full eviction.
pub open spec fn evict_target(target: Option<Location>) -> Location {
    match target {
        Some(l) => l,
        None => Location::Evicted,
    }
}

/// An eviction of `id` succeeds: the state exists, is not pinned, and is
/// either fully evicted or moved to a tier where it fits.
pub open spec fn evict_succeeds(
    caps: TierCapacities,
    t: Map<Seq<char>, ExecutionState>,
    id: Seq<char>,
    target: Option<Location>,
) -> bool {
    &&& t.contains_key(id)
    &&& !t[id].pinned
    &&& (evict_target(target) == Location::Evicted || move_succeeds(
        caps,
        t,
        id,
        evict_target(target),
    ))
}

/// The target of a move or prefetch: the given tier, or HBM.
pub open spec fn move_target(target: Option<Location>) -> Location {
    match target {
        Some(l) => l,
        None => Location::Hbm,
    }
}

/// The registry and counters that decisions act on.
pub struct Ledger {
    pub held: Map<Seq<char>, ExecutionState>,
    pub stats: ManagerStats,
}

/// The ledger after a successful move.
pub open spec fn ledger_after_move(g: Ledger, id: Seq<char>, target: Location) -> Ledger {
    if g.held[id].location == target {
        g
    } else {
        Ledger {
            held: relocated(g.held, id, target),
            stats: ManagerStats {
                transfers_completed: g.stats.transfers_completed.wrapping_add(1),
                bytes_transferred: g.stats.bytes_transferred.wrapping_add(
                    g.held[id].size_bytes,
                ),
                ..g.stats
            },
        }
    }
}

/// Whether executing a decision succeeds.
pub open spec fn decision_succeeds(caps: TierCapacities, g: Ledger, d: StateDecision) -> bool {
    match d.action {
        Action::Move | Action::Prefetch => move_succeeds(
            caps,
            g.held,
            d.state_id@,
            move_target(d.target_location),
        ),
        Action::Recompute => recompute_succeeds(caps, g.held, d.state_id@),
        Action::Evict => evict_succeeds(caps, g.held, d.state_id@, d.target_location),
        _ => true,
    }
}

/// The ledger after a successful recompute: the state is in HBM.
pub open spec fn ledger_after_recompute(g: Ledger, id: Seq<char>) -> Ledger {
    Ledger {
        held: relocated(g.held, id, Location::Hbm),
        stats: ManagerStats {
            recomputes_performed: g.stats.recomputes_performed.wrapping_add(1),
            ..g.stats
        },
    }
}

/// The ledger after a successful eviction: the state is gone, or moved to
/// the given tier.
pub open spec fn ledger_after_evict(g: Ledger, id: Seq<char>, target: Option<Location>) -> Ledger {
    if evict_target(target) == Location::Evicted {
        Ledger {
            held: g.held.remove(id),
            stats: ManagerStats { states_evicted: g.stats.states_evicted.wrapping_add(1), ..g.stats },
        }
    } else {
        ledger_after_move(g, id, evict_target(target))
    }
}

/// The ledger after a decision executed successfully.
pub open spec fn ledger_after(g: Ledger, d: StateDecision) -> Ledger {
    match d.action {
        Action::Move | Action::Prefetch => ledger_after_move(
            g,
            d.state_id@,
            move_target(d.target_location),
        ),
        Action::Recompute => ledger_after_recompute(g, d.state_id@),
        Action::Evict => ledger_after_evict(g, d.state_id@, d.target_location),
        _ => g,
    }
}

/// The error a failing move reports.
pub open spec fn move_error(
    caps: TierCapacities,
    t: Map<Seq<char>, ExecutionState>,
    id: StateId,
    target: Location,
) -> AetherError {
    if !t.contains_key(id@) {
        AetherError::StateNotFound(id)
    } else {
        AetherError::InsufficientMemory {
            location: target,
            required: t[id@].size_bytes,
            available: available_in(caps, t, target) as u64,
        }
    }
}

/// The error a failing recompute reports.
pub open spec fn recompute_error(
    caps: TierCapacities,
    t: Map<Seq<char>, ExecutionState>,
    id: StateId,
) -> AetherError {
    if !t.contains_key(id@) {
        AetherError::StateNotFound(id)
    } else if !t[id@].recomputable {
        AetherError::NotRecomputable(id)
    } else {
        move_error(caps, t, id, Location::Hbm)
    }
}

/// The error a failing eviction reports.
pub open spec fn evict_error(
    caps: TierCapacities,
    t: Map<Seq<char>, ExecutionState>,
    id: StateId,
    target: Option<Location>,
) -> AetherError {
    if !t.contains_key(id@) {
        AetherError::StateNotFound(id)
    } else if t[id@].pinned {
        AetherError::StatePinned(id)
    } else {
        move_error(caps, t, id, evict_target(target))
    }
}

/// The error a failing decision reports.
pub open spec fn decision_error(caps: TierCapacities, g: Ledger, d: StateDecision) -> AetherError {
    match d.action {
        Action::Recompute => recompute_error(caps, g.held, d.state_id),
        Action::Evict => evict_error(caps, g.held, d.state_id, d.target_location),
        _ => move_error(caps, g.held, d.state_id, move_target(d.target_location)),
    }
}

/// The decision after execution: completed, or failed with the error's
/// message.
pub open spec fn executed_decision(
    caps: TierCapacities,
    g: Ledger,
    before: StateDecision,
    after: StateDecision,
) -> bool {
    if decision_succeeds(caps, g, before) {
        after == (StateDecision { status: DecisionStatus::Completed, ..before })
    } else {
        &&& after == (StateDecision {
            status: DecisionStatus::Failed,
            error_message: after.error_message,
            ..before
        })
        &&& after.error_message matches Some(m) && m@ == decision_error(
            caps,
            g,
            before,
        ).message_spec()
    }
}

/// Running the pending decisions of a plan in order, stopping at the first
/// failure: the ledger at the end, and the index of the pending decision
/// that failed, if one did. Decisions that are not pending are passed over.
pub open spec fn plan_run(caps: TierCapacities, g: Ledger, ds: Seq<StateDecision>) -> (
    Ledger,
    Option<int>,
)
    decreases ds.len(),
{
    if ds.len() == 0 {
        (g, None)
    } else {
        let (l, failed) = plan_run(caps, g, ds.drop_last());
        let d = ds.last();
        if failed is Some || d.status != DecisionStatus::Pending {
            (l, failed)
        } else if decision_succeeds(caps, l, d) {
            (ledger_after(l, d), None)
        } else {
            (l, Some(ds.len() - 1))
        }
    }
}

/// The ledger after running a plan.
pub open spec fn plan_ledger(caps: TierCapacities, g: Ledger, ds: Seq<StateDecision>) -> Ledger {
    plan_run(caps, g, ds).0
}

/// The index of the pending decision at which a plan stops, if any.
pub open spec fn plan_failure(caps: TierCapacities, g: Ledger, ds: Seq<StateDecision>) -> Option<
    int,
> {
    plan_run(caps, g, ds).1
}

/// The ledger just before the decision at index `i` runs.
pub open spec fn ledger_before(caps: TierCapacities, g: Ledger, ds: Seq<StateDecision>, i: int) -> Ledger {
    plan_ledger(caps, g, ds.take(i))
}

/// Whether the run of a plan reaches the decision at index `i`: no
/// earlier pending decision failed.
pub open spec fn plan_reaches(caps: TierCapacities, g: Ledger, ds: Seq<StateDecision>, i: int) -> bool {
    match plan_failure(caps, g, ds) {
        Some(f) => i <= f,
        None => true,
    }
}

/// Once a run has stopped, later decisions change nothing.
proof fn lemma_plan_stopped(caps: TierCapacities, g: Ledger, ds: Seq<StateDecision>, i: int)
    requires
        0 <= i <= ds.len(),
        plan_failure(caps, g, ds.take(i)) is Some,
    ensures
        plan_run(caps, g, ds) == plan_run(caps, g, ds.take(i)),
    decreases ds.len() - i,
{
    if i < ds.len() {
        assert(ds.take(i + 1).drop_last() =~= ds.take(i));
        lemma_plan_stopped(caps, g, ds, i + 1);
    } else {
        assert(ds.take(i) =~= ds);
    }
}

/// A run that has not stopped before `i` failed nowhere before `i`.
proof fn lemma_plan_failure_bound(caps: TierCapacities, g: Ledger, ds: Seq<StateDecision>)
    ensures
        plan_failure(caps, g, ds) matches Some(f) ==> 0 <= f < ds.len(),
    decreases ds.len(),
{
    if ds.len() > 0 {
        lemma_plan_failure_bound(caps, g, ds.drop_last());
    }
}

// =============================================================================
// State Manager
// =============================================================================

/// Manages all execution state: registry, indexes, per-tier memory
/// tracking, and decision execution.
pub struct StateManager {
    /// Capacity of each memory tier.
    hardware: TierCapacities,
    /// State registry.
    states: DashMap<StateId, ExecutionState>,
    /// Index by location.
    by_location: DashMap<Location, HashSet<StateId>>,
    /// Index by type.
    by_type: DashMap<StateType, HashSet<StateId>>,
    /// Memory usage per tier.
    tier_usage: DashMap<Location, u64>,
    /// Statistics.
    pub stats: ManagerStats,
}

impl StateManager {
    /// The states held, keyed by identifier text.
    pub closed spec fn held(&self) -> Map<Seq<char>, ExecutionState> {
        state_table(self.states)
    }

    /// The statistics counters: the `stats` field.
    pub closed spec fn counters(&self) -> ManagerStats {
        self.stats
    }

    /// The capacity of each tier.
    pub closed spec fn capacities(&self) -> TierCapacities {
        self.hardware
    }

    /// The registry and counters together.
    pub closed spec fn ledger(&self) -> Ledger {
        Ledger { held: self.held(), stats: self.counters() }
    }

    /// The ledger that decisions act on is exactly the registry of held
    /// states together with the statistics counters.
    pub proof fn lemma_ledger_view(&self)
        ensures
            self.ledger() == (Ledger { held: self.held(), stats: self.counters() }),
    {
    }

    /// A copy of the statistics counters.
    pub fn get_stats(&self) -> (r: ManagerStats)
        ensures
            r == self.counters(),
    {
        self.stats
    }

    /// The usage recorded for a tier (0 without an entry).
    closed spec fn recorded_usage(&self, l: Location) -> int {
        let u = usage_table(self.tier_usage);
        if u.contains_key(l) {
            u[l] as int
        } else {
            0
        }
    }

    /// Invariant: keys are the states' identifiers; the location and type
    /// indexes hold exactly the identifiers of the states with that location
    /// and type; each tier's recorded usage is the total size of the states
    /// materialized there.
    pub closed spec fn wf(&self) -> bool {
        let t = self.held();
        let li = location_index(self.by_location);
        let ti = type_index(self.by_type);
        &&& t.dom().finite()
        &&& forall|k: Seq<char>| #[trigger] t.contains_key(k) ==> t[k].id@ == k
        &&& forall|k: Seq<char>|
            #[trigger] t.contains_key(k) ==> li.contains_key(t[k].location) && li[t[k].location].contains(k)
        &&& forall|l: Location, k: Seq<char>|
            li.contains_key(l) && #[trigger] li[l].contains(k) ==> t.contains_key(k) && t[k].location == l
        &&& forall|k: Seq<char>|
            #[trigger] t.contains_key(k) ==> ti.contains_key(t[k].state_type) && ti[t[k].state_type].contains(k)
        &&& forall|s: StateType, k: Seq<char>|
            ti.contains_key(s) && #[trigger] ti[s].contains(k) ==> t.contains_key(k) && t[k].state_type == s
        &&& forall|l: Location|
            #![trigger self.recorded_usage(l)]
            #![trigger tier_total(t, l)]
            self.recorded_usage(l) == tier_total(t, l)
    }

    /// Create a new, empty state manager.
    pub fn new(hardware: TierCapacities) -> (r: Self)
        ensures
            r.wf(),
            r.held() == Map::<Seq<char>, ExecutionState>::empty(),
            r.capacities() == hardware,
            r.counters() == ManagerStats::spec_zero(),
    {
        let r = StateManager {
            hardware,
            states: table_new(),
            by_location: loc_index_new(),
            by_type: type_index_new(),
            tier_usage: usage_new(),
            stats: ManagerStats::new(),
        };
        proof {
            assert(r.held() =~= Map::<Seq<char>, ExecutionState>::empty());
            assert forall|l: Location| r.recorded_usage(l) == tier_total(r.held(), l) by {
                lemma_total_empty(l);
            }
        }
        r
    }

    /// The tier capacities.
    pub fn hardware(&self) -> (r: &TierCapacities)
        ensures
            *r == self.capacities(),
    {
        &self.hardware
    }
}

} // verus!

verus! {

impl StateManager {
    /// Unregister a state, returning it.
    pub fn unregister(&mut self, state_id: &StateId) -> (r: Option<ExecutionState>)
        requires
            old(self).wf(),
        ensures
            final(self).wf(),
            final(self).held() == old(self).held().remove(state_id@),
            r == (if old(self).held().contains_key(state_id@) {
                Some(old(self).held()[state_id@])
            } else {
                None
            }),
            final(self).capacities() == old(self).capacities(),
            final(self).counters() == old(self).counters(),
    {
        let ghost t = self.held();
        let ghost li = location_index(self.by_location);
        let ghost ti = type_index(self.by_type);
        match table_remove(&mut self.states, state_id) {
            Some(state) => {
                let ghost k = state_id@;
                assert(t.contains_key(k));
                assert(state.id@ == k);
                loc_index_remove(&mut self.by_location, state.location, state_id);
                type_index_remove(&mut self.by_type, state.state_type, state_id);
                if state.location.is_materialized() {
                    proof {
                        lemma_total_covers(t, k, state.location);
                    }
                    usage_sub(&mut self.tier_usage, state.location, state.size_bytes);
                }
                proof {
                    let t2 = self.held();
                    assert(t2 == t.remove(k));
                    let li2 = location_index(self.by_location);
                    let ti2 = type_index(self.by_type);
                    assert forall|j: Seq<char>| #[trigger] t2.contains_key(j) implies li2.contains_key(
                        t2[j].location,
                    ) && li2[t2[j].location].contains(j) by {
                        assert(t.contains_key(j));
                    }
                    assert forall|l: Location, j: Seq<char>|
                        li2.contains_key(l) && #[trigger] li2[l].contains(j) implies t2.contains_key(j)
                        && t2[j].location == l by {
                        assert(li.contains_key(l) && li[l].contains(j));
                    }
                    assert forall|j: Seq<char>| #[trigger] t2.contains_key(j) implies ti2.contains_key(
                        t2[j].state_type,
                    ) && ti2[t2[j].state_type].contains(j) by {
                        assert(t.contains_key(j));
                    }
                    assert forall|s: StateType, j: Seq<char>|
                        ti2.contains_key(s) && #[trigger] ti2[s].contains(j) implies t2.contains_key(j)
                        && t2[j].state_type == s by {
                        assert(ti.contains_key(s) && ti[s].contains(j));
                    }
                    assert forall|l: Location| self.recorded_usage(l) == tier_total(t2, l) by {
                        lemma_total_remove(t, k, l);
                        assert(old(self).recorded_usage(l) == tier_total(t, l));
                    }
                }
                Some(state)
            },
            None => {
                proof {
                    assert(t.remove(state_id@) =~= t);
                }
                None
            },
        }
    }

    /// Register a state, replacing any state with the same identifier.
    pub fn register(&mut self, state: ExecutionState)
        requires
            old(self).wf(),
            tier_total(old(self).held().remove(state.id@), state.location) + state.size_bytes
                <= u64::MAX,
        ensures
            final(self).wf(),
            final(self).held() == old(self).held().insert(state.id@, state),
            final(self).capacities() == old(self).capacities(),
            final(self).counters() == (ManagerStats {
                states_registered: old(self).counters().states_registered.wrapping_add(1),
                ..old(self).counters()
            }),
    {
        let id = state.id.clone();
        let location = state.location;
        let state_type = state.state_type;
        let size = state.size_bytes;
        if table_contains(&self.states, &id) {
            self.unregister(&id);
        }
        proof {
            assert(self.held() =~= old(self).held().remove(id@));
        }
        let ghost t = self.held();
        let ghost li = location_index(self.by_location);
        let ghost ti = type_index(self.by_type);
        let ghost k = id@;
        let ghost before = *self;
        table_insert(&mut self.states, id.clone(), state);
        loc_index_add(&mut self.by_location, location, id.clone());
        type_index_add(&mut self.by_type, state_type, id);
        if location.is_materialized() {
            assert(before.recorded_usage(location) == tier_total(t, location));
            usage_add(&mut self.tier_usage, location, size);
        }
        ManagerStats::increment(&mut self.stats.states_registered);
        proof {
            let t2 = self.held();
            assert(t2 == t.insert(k, state));
            let li2 = location_index(self.by_location);
            let ti2 = type_index(self.by_type);
            assert forall|j: Seq<char>| #[trigger] t2.contains_key(j) implies li2.contains_key(
                t2[j].location,
            ) && li2[t2[j].location].contains(j) by {
                if j != k {
                    assert(t.contains_key(j));
                }
            }
            assert forall|l: Location, j: Seq<char>|
                li2.contains_key(l) && #[trigger] li2[l].contains(j) implies t2.contains_key(j)
                && t2[j].location == l by {
                if !(l == location && j == k) {
                    assert(li.contains_key(l) && li[l].contains(j));
                }
            }
            assert forall|j: Seq<char>| #[trigger] t2.contains_key(j) implies ti2.contains_key(
                t2[j].state_type,
            ) && ti2[t2[j].state_type].contains(j) by {
                if j != k {
                    assert(t.contains_key(j));
                }
            }
            assert forall|s: StateType, j: Seq<char>|
                ti2.contains_key(s) && #[trigger] ti2[s].contains(j) implies t2.contains_key(j)
                && t2[j].state_type == s by {
                if !(s == state_type && j == k) {
                    assert(ti.contains_key(s) && ti[s].contains(j));
                }
            }
            assert forall|l: Location| self.recorded_usage(l) == tier_total(t2, l) by {
                lemma_total_insert_new(t, k, state, l);
                assert(before.recorded_usage(l) == tier_total(t, l));
            }
        }
    }

    /// Get a copy of a state by identifier.
    pub fn get(&self, state_id: &StateId) -> (r: Option<ExecutionState>)
        ensures
            r is Some == self.held().contains_key(state_id@),
            r matches Some(s) ==> s.same_data(&self.held()[state_id@]),
    {
        table_get(&self.states, state_id)
    }

    /// Check if a state exists.
    pub fn contains(&self, state_id: &StateId) -> (r: bool)
        ensures
            r == self.held().contains_key(state_id@),
    {
        table_contains(&self.states, state_id)
    }

    /// Every state with its identifier, each once, in no particular order.
    pub fn get_all(&self) -> (r: Vec<(StateId, ExecutionState)>)
        requires
            self.wf(),
        ensures
            forall|i: int, j: int| 0 <= i < j < r@.len() ==> r@[i].0@ != r@[j].0@,
            forall|i: int|
                0 <= i < r@.len() ==> self.held().contains_key(#[trigger] r@[i].0@)
                    && r@[i].1.same_data(&self.held()[r@[i].0@]) && r@[i].1.id@ == r@[i].0@,
            forall|k: Seq<char>|
                #[trigger] self.held().contains_key(k) ==> exists|i: int|
                    0 <= i < r@.len() && r@[i].0@ == k,
    {
        table_entries(&self.states)
    }

    /// Number of states.
    pub fn len(&self) -> (r: usize)
        ensures
            r == self.held().len(),
    {
        table_len(&self.states)
    }

    /// Check if no state is registered.
    pub fn is_empty(&self) -> (r: bool)
        requires
            self.wf(),
        ensures
            r == (self.held().len() == 0),
    {
        table_len(&self.states) == 0
    }

    /// Check if a state is in HBM.
    pub fn is_in_hbm(&self, state_id: &StateId) -> (r: bool)
        ensures
            r == (self.held().contains_key(state_id@) && self.held()[state_id@].location
                == Location::Hbm),
    {
        match table_get(&self.states, state_id) {
            Some(s) => s.location == Location::Hbm,
            None => false,
        }
    }

    /// Current memory usage at a location: the total size of the states
    /// materialized there.
    pub fn get_usage(&self, location: Location) -> (r: u64)
        requires
            self.wf(),
        ensures
            r == tier_total(self.held(), location),
    {
        match usage_get(&self.tier_usage, location) {
            Some(v) => v,
            None => 0,
        }
    }

    /// Available memory at a location: capacity minus usage, or 0.
    pub fn get_available(&self, location: Location) -> (r: u64)
        requires
            self.wf(),
        ensures
            r == available_in(self.capacities(), self.held(), location),
    {
        let total = self.hardware.total_capacity(location);
        let used = self.get_usage(location);
        total.saturating_sub(used)
    }

    /// Check if `size_bytes` fits at a location.
    pub fn can_fit(&self, size_bytes: u64, location: Location) -> (r: bool)
        requires
            self.wf(),
        ensures
            r == (size_bytes <= available_in(self.capacities(), self.held(), location)),
    {
        size_bytes <= self.get_available(location)
    }
}

} // verus!

verus! {

impl StateManager {
    /// Copies of the states at a location, each once, in no particular order.
    #[verifier::loop_isolation(false)]
    pub fn get_by_location(&self, location: Location) -> (r: Vec<ExecutionState>)
        requires
            self.wf(),
        ensures
            forall|i: int, j: int| 0 <= i < j < r@.len() ==> r@[i].id@ != r@[j].id@,
            forall|i: int|
                0 <= i < r@.len() ==> self.held().contains_key(#[trigger] r@[i].id@)
                    && r@[i].same_data(&self.held()[r@[i].id@]) && r@[i].location == location,
            forall|k: Seq<char>|
                #[trigger] self.held().contains_key(k) && self.held()[k].location == location
                    ==> exists|i: int| 0 <= i < r@.len() && r@[i].id@ == k,
    {
        let ids = loc_index_members(&self.by_location, location);
        let mut out: Vec<ExecutionState> = Vec::new();
        let mut i: usize = 0;
        while i < ids.len()
            invariant
                self.wf(),
                i <= ids@.len(),
                out@.len() == i,
                forall|a: int|
                    #![trigger out@[a]]
                    0 <= a < i ==> out@[a].id@ == ids@[a].0@ && self.held().contains_key(ids@[a].0@)
                        && out@[a].same_data(&self.held()[ids@[a].0@]) && out@[a].location
                        == location,
            decreases ids@.len() - i,
        {
            let ghost k = ids@[i as int].0@;
            let ghost x = ids@[i as int];
            assert(location_index(self.by_location)[location].contains(x.0@));
            assert(self.held().contains_key(k));
            assert(self.held()[k].id@ == k);
            match table_get(&self.states, &ids[i]) {
                Some(s) => {
                    out.push(s);
                },
                None => {
                    assert(false);
                },
            }
            i = i + 1;
        }
        proof {
            assert forall|a: int, b: int| 0 <= a < b < out@.len() implies out@[a].id@ != out@[b].id@ by {
                assert(ids@[a].0@ != ids@[b].0@);
            }
            assert forall|k: Seq<char>|
                #[trigger] self.held().contains_key(k) && self.held()[k].location == location implies exists|a: int|
                    0 <= a < out@.len() && out@[a].id@ == k by {
                let b = choose|b: int| 0 <= b < ids@.len() && ids@[b].0@ == k;
                assert(out@[b].id@ == k);
            }
            assert forall|a: int| 0 <= a < out@.len() implies self.held().contains_key(
                #[trigger] out@[a].id@,
            ) && out@[a].same_data(&self.held()[out@[a].id@]) && out@[a].location == location by {
                assert(out@[a].same_data(&self.held()[ids@[a].0@]));
            }
        }
        out
    }

    /// Copies of the states of a type, each once, in no particular order.
    #[verifier::loop_isolation(false)]
    pub fn get_by_type(&self, state_type: StateType) -> (r: Vec<ExecutionState>)
        requires
            self.wf(),
        ensures
            forall|i: int, j: int| 0 <= i < j < r@.len() ==> r@[i].id@ != r@[j].id@,
            forall|i: int|
                0 <= i < r@.len() ==> self.held().contains_key(#[trigger] r@[i].id@)
                    && r@[i].same_data(&self.held()[r@[i].id@]) && r@[i].state_type == state_type,
            forall|k: Seq<char>|
                #[trigger] self.held().contains_key(k) && self.held()[k].state_type == state_type
                    ==> exists|i: int| 0 <= i < r@.len() && r@[i].id@ == k,
    {
        let ids = type_index_members(&self.by_type, state_type);
        let mut out: Vec<ExecutionState> = Vec::new();
        let mut i: usize = 0;
        while i < ids.len()
            invariant
                self.wf(),
                i <= ids@.len(),
                out@.len() == i,
                forall|a: int|
                    #![trigger out@[a]]
                    0 <= a < i ==> out@[a].id@ == ids@[a].0@ && self.held().contains_key(ids@[a].0@)
                        && out@[a].same_data(&self.held()[ids@[a].0@])
                        && out@[a].state_type == state_type,
            decreases ids@.len() - i,
        {
            let ghost k = ids@[i as int].0@;
            let ghost x = ids@[i as int];
            assert(type_index(self.by_type)[state_type].contains(x.0@));
            assert(self.held().contains_key(k));
            assert(self.held()[k].id@ == k);
            match table_get(&self.states, &ids[i]) {
                Some(s) => {
                    out.push(s);
                },
                None => {
                    assert(false);
                },
            }
            i = i + 1;
        }
        proof {
            assert forall|a: int, b: int| 0 <= a < b < out@.len() implies out@[a].id@ != out@[b].id@ by {
                assert(ids@[a].0@ != ids@[b].0@);
            }
            assert forall|k: Seq<char>|
                #[trigger] self.held().contains_key(k) && self.held()[k].state_type == state_type implies exists|a: int|
                    0 <= a < out@.len() && out@[a].id@ == k by {
                let b = choose|b: int| 0 <= b < ids@.len() && ids@[b].0@ == k;
                assert(out@[b].id@ == k);
            }
            assert forall|a: int| 0 <= a < out@.len() implies self.held().contains_key(
                #[trigger] out@[a].id@,
            ) && out@[a].same_data(&self.held()[out@[a].id@]) && out@[a].state_type == state_type by {
                assert(out@[a].same_data(&self.held()[ids@[a].0@]));
            }
        }
        out
    }
}

} // verus!

verus! {

impl StateManager {
    /// Move a registered state from `source` to `target` in the registry,
    /// the location index and the usage table.
    fn relocate(&mut self, state_id: &StateId, source: Location, target: Location, size: u64)
        requires
            old(self).wf(),
            old(self).held().contains_key(state_id@),
            old(self).held()[state_id@].location == source,
            old(self).held()[state_id@].size_bytes == size,
            target.spec_is_materialized() && source != target ==> tier_total(old(self).held(), target)
                + size <= u64::MAX,
        ensures
            final(self).wf(),
            final(self).held() == relocated(old(self).held(), state_id@, target),
            final(self).capacities() == old(self).capacities(),
            final(self).stats == old(self).stats,
    {
        let ghost t = self.held();
        let ghost li = location_index(self.by_location);
        let ghost k = state_id@;
        let ghost before = *self;
        let ghost v2 = ExecutionState { location: target, ..t[k] };
        loc_index_remove(&mut self.by_location, source, state_id);
        loc_index_add(&mut self.by_location, target, state_id.clone());
        if source.is_materialized() {
            proof {
                lemma_total_covers(t, k, source);
                assert(before.recorded_usage(source) == tier_total(t, source));
            }
            usage_sub(&mut self.tier_usage, source, size);
        }
        if target.is_materialized() {
            proof {
                assert(before.recorded_usage(target) == tier_total(t, target));
                if source == target {
                    lemma_total_covers(t, k, source);
                }
            }
            usage_add(&mut self.tier_usage, target, size);
        }
        table_set_location(&mut self.states, state_id, target);
        proof {
            let t2 = self.held();
            assert(t2 == t.insert(k, v2));
            let li2 = location_index(self.by_location);
            assert forall|j: Seq<char>| #[trigger] t2.contains_key(j) implies li2.contains_key(
                t2[j].location,
            ) && li2[t2[j].location].contains(j) by {
                if j != k {
                    assert(t.contains_key(j));
                }
            }
            assert forall|l: Location, j: Seq<char>|
                li2.contains_key(l) && #[trigger] li2[l].contains(j) implies t2.contains_key(j)
                && t2[j].location == l by {
                if !(l == target && j == k) {
                    assert(li.contains_key(l) && li[l].contains(j));
                }
            }
            assert forall|j: Seq<char>| #[trigger] t2.contains_key(j) implies type_index(
                self.by_type,
            ).contains_key(t2[j].state_type) && type_index(self.by_type)[t2[j].state_type].contains(
                j,
            ) by {
                assert(t.contains_key(j));
            }
            assert forall|l: Location| self.recorded_usage(l) == tier_total(t2, l) by {
                lemma_total_update(t, k, v2, l);
                assert(before.recorded_usage(l) == tier_total(t, l));
            }
        }
    }

    /// Set the location of a registered state, keeping the location index
    /// and each tier's usage in step. No capacity is checked and no counter
    /// changes. Returns whether the state is registered; nothing changes
    /// when it is not.
    pub fn update_location(&mut self, state_id: &StateId, target: Location) -> (r: bool)
        requires
            old(self).wf(),
            old(self).held().contains_key(state_id@) && target.spec_is_materialized()
                && old(self).held()[state_id@].location != target ==> tier_total(
                old(self).held(),
                target,
            ) + old(self).held()[state_id@].size_bytes <= u64::MAX,
        ensures
            final(self).wf(),
            r == old(self).held().contains_key(state_id@),
            final(self).held() == (if r {
                relocated(old(self).held(), state_id@, target)
            } else {
                old(self).held()
            }),
            final(self).capacities() == old(self).capacities(),
            final(self).counters() == old(self).counters(),
    {
        let state = match table_get(&self.states, state_id) {
            Some(s) => s,
            None => {
                return false;
            },
        };
        let source = state.location;
        let size = state.size_bytes;
        self.relocate(state_id, source, target, size);
        true
    }

    /// Move a state to `target`. Nothing happens when it is already there;
    /// otherwise it must fit in the target's free space.
    pub fn execute_move(&mut self, state_id: &StateId, target: Location) -> (r: Result<
        (),
        AetherError,
    >)
        requires
            old(self).wf(),
        ensures
            final(self).wf(),
            final(self).capacities() == old(self).capacities(),
            r is Ok == move_succeeds(old(self).capacities(), old(self).held(), state_id@, target),
            r is Ok ==> final(self).ledger() == ledger_after_move(
                old(self).ledger(),
                state_id@,
                target,
            ),
            r matches Err(e) ==> final(self).ledger() == old(self).ledger() && e == move_error(
                old(self).capacities(),
                old(self).held(),
                *state_id,
                target,
            ),
    {
        let state = match table_get(&self.states, state_id) {
            Some(s) => s,
            None => {
                return Err(AetherError::StateNotFound(state_id.clone()));
            },
        };
        let source = state.location;
        if source == target {
            return Ok(());
        }
        let size = state.size_bytes;
        if !self.can_fit(size, target) {
            return Err(
                AetherError::InsufficientMemory {
                    location: target,
                    required: size,
                    available: self.get_available(target),
                },
            );
        }
        proof {
            lemma_total_nonneg(self.held(), target);
        }
        self.relocate(state_id, source, target, size);
        ManagerStats::increment(&mut self.stats.transfers_completed);
        self.stats.add_bytes(size);
        Ok(())
    }

    /// Recompute a state into HBM. It must be recomputable and fit in HBM's
    /// free space.
    fn execute_recompute(&mut self, state_id: &StateId) -> (r: Result<(), AetherError>)
        requires
            old(self).wf(),
        ensures
            final(self).wf(),
            final(self).capacities() == old(self).capacities(),
            r is Ok == recompute_succeeds(old(self).capacities(), old(self).held(), state_id@),
            r is Ok ==> final(self).ledger() == ledger_after_recompute(old(self).ledger(), state_id@),
            r matches Err(e) ==> final(self).ledger() == old(self).ledger() && e == recompute_error(
                old(self).capacities(),
                old(self).held(),
                *state_id,
            ),
    {
        let state = match table_get(&self.states, state_id) {
            Some(s) => s,
            None => {
                return Err(AetherError::StateNotFound(state_id.clone()));
            },
        };
        if !state.recomputable {
            return Err(AetherError::NotRecomputable(state_id.clone()));
        }
        let size = state.size_bytes;
        if !self.can_fit(size, Location::Hbm) {
            return Err(
                AetherError::InsufficientMemory {
                    location: Location::Hbm,
                    required: size,
                    available: self.get_available(Location::Hbm),
                },
            );
        }
        proof {
            lemma_total_nonneg(self.held(), Location::Hbm);
        }
        let source = state.location;
        self.relocate(state_id, source, Location::Hbm, size);
        ManagerStats::increment(&mut self.stats.recomputes_performed);
        Ok(())
    }

    /// Evict a state: remove it entirely, or move it to a lower tier.
    /// Pinned states cannot be evicted.
    fn execute_evict(&mut self, state_id: &StateId, target: Option<Location>) -> (r: Result<
        (),
        AetherError,
    >)
        requires
            old(self).wf(),
        ensures
            final(self).wf(),
            final(self).capacities() == old(self).capacities(),
            r is Ok == evict_succeeds(old(self).capacities(), old(self).held(), state_id@, target),
            r is Ok ==> final(self).ledger() == ledger_after_evict(
                old(self).ledger(),
                state_id@,
                target,
            ),
            r matches Err(e) ==> final(self).ledger() == old(self).ledger() && e == evict_error(
                old(self).capacities(),
                old(self).held(),
                *state_id,
                target,
            ),
    {
        let state = match table_get(&self.states, state_id) {
            Some(s) => s,
            None => {
                return Err(AetherError::StateNotFound(state_id.clone()));
            },
        };
        if state.pinned {
            return Err(AetherError::StatePinned(state_id.clone()));
        }
        let target = match target {
            Some(l) => l,
            None => Location::Evicted,
        };
        if target == Location::Evicted {
            if let Some(_) = self.unregister(state_id) {
                ManagerStats::increment(&mut self.stats.states_evicted);
            }
            Ok(())
        } else {
            self.execute_move(state_id, target)
        }
    }

    /// Execute a single decision. On success it is marked completed; on
    /// failure it is marked failed with the error's message, and the error
    /// is returned.
    pub fn execute_decision(&mut self, decision: &mut StateDecision) -> (r: Result<
        (),
        AetherError,
    >)
        requires
            old(self).wf(),
        ensures
            final(self).wf(),
            final(self).capacities() == old(self).capacities(),
            r is Ok == decision_succeeds(old(self).capacities(), old(self).ledger(), *old(decision)),
            r is Ok ==> final(self).ledger() == ledger_after(old(self).ledger(), *old(decision)),
            r matches Err(e) ==> final(self).ledger() == old(self).ledger() && e == decision_error(
                old(self).capacities(),
                old(self).ledger(),
                *old(decision),
            ),
            executed_decision(
                old(self).capacities(),
                old(self).ledger(),
                *old(decision),
                *final(decision),
            ),
    {
        decision.status = DecisionStatus::InProgress;
        let result = match decision.action {
            Action::Keep => Ok(()),
            Action::Move | Action::Prefetch => {
                let target = match decision.target_location {
                    Some(l) => l,
                    None => Location::Hbm,
                };
                self.execute_move(&decision.state_id, target)
            },
            Action::Recompute => self.execute_recompute(&decision.state_id),
            Action::Evict => self.execute_evict(&decision.state_id, decision.target_location),
            _ => Ok(()),
        };
        match result {
            Ok(()) => {
                decision.status = DecisionStatus::Completed;
                Ok(())
            },
            Err(e) => {
                decision.status = DecisionStatus::Failed;
                decision.error_message = Some(e.message());
                Err(e)
            },
        }
    }

    /// Execute the pending decisions of a plan in order, stopping at the
    /// first that fails and returning its error. Decisions that are not
    /// pending are left alone.
    pub fn execute_plan(&mut self, plan: &mut ExecutionPlan) -> (r: Result<(), AetherError>)
        requires
            old(self).wf(),
        ensures
            final(self).wf(),
            final(self).capacities() == old(self).capacities(),
            final(self).ledger() == plan_ledger(
                old(self).capacities(),
                old(self).ledger(),
                old(plan).decisions@,
            ),
            r is Ok == plan_failure(
                old(self).capacities(),
                old(self).ledger(),
                old(plan).decisions@,
            ) is None,
            r matches Err(e) ==> plan_failure(
                old(self).capacities(),
                old(self).ledger(),
                old(plan).decisions@,
            ) matches Some(f) && e == decision_error(
                old(self).capacities(),
                ledger_before(old(self).capacities(), old(self).ledger(), old(plan).decisions@, f),
                old(plan).decisions@[f],
            ),
            final(plan).decisions@.len() == old(plan).decisions@.len(),
            forall|i: int|
                #![trigger final(plan).decisions@[i]]
                0 <= i < old(plan).decisions@.len() ==> if old(plan).decisions@[i].status
                    == DecisionStatus::Pending && plan_reaches(
                    old(self).capacities(),
                    old(self).ledger(),
                    old(plan).decisions@,
                    i,
                ) {
                    executed_decision(
                        old(self).capacities(),
                        ledger_before(
                            old(self).capacities(),
                            old(self).ledger(),
                            old(plan).decisions@,
                            i,
                        ),
                        old(plan).decisions@[i],
                        final(plan).decisions@[i],
                    )
                } else {
                    final(plan).decisions@[i] == old(plan).decisions@[i]
                },
            final(plan).expected_memory_delta_bytes == old(plan).expected_memory_delta_bytes,
            final(plan).metadata == old(plan).metadata,
            old(plan).wf() ==> final(plan).wf(),
    {
        let ghost caps = self.capacities();
        let ghost g = self.ledger();
        let ghost ds = plan.decisions@;
        let n = plan.decisions.len();
        let mut i: usize = 0;
        while i < n
            invariant
                caps == old(self).capacities(),
                g == old(self).ledger(),
                ds == old(plan).decisions@,
                n == ds.len(),
                0 <= i <= n,
                self.wf(),
                self.capacities() == caps,
                plan.decisions@.len() == n,
                plan.expected_memory_delta_bytes == old(plan).expected_memory_delta_bytes,
                plan.metadata == old(plan).metadata,
                plan_failure(caps, g, ds.take(i as int)) is None,
                self.ledger() == plan_ledger(caps, g, ds.take(i as int)),
                forall|j: int|
                    #![trigger plan.decisions@[j]]
                    0 <= j < i ==> if ds[j].status == DecisionStatus::Pending {
                        executed_decision(caps, ledger_before(caps, g, ds, j), ds[j], plan.decisions@[j])
                    } else {
                        plan.decisions@[j] == ds[j]
                    },
                forall|j: int| #![trigger plan.decisions@[j]] i <= j < n ==> plan.decisions@[j] == ds[j],
                forall|j: int|
                    #![trigger plan.decisions@[j]]
                    0 <= j < n ==> plan.decisions@[j].memory_delta_bytes == ds[j].memory_delta_bytes,
            decreases n - i,
        {
            proof {
                assert(ds.take(i + 1).drop_last() =~= ds.take(i as int));
            }
            if plan.decisions[i].status == DecisionStatus::Pending {
                let ghost before = plan.decisions@;
                let res = self.execute_decision(&mut plan.decisions[i]);
                proof {
                    assert forall|j: int| 0 <= j < n && j != i implies #[trigger] plan.decisions@[j]
                        == before[j] by {}
                }
                match res {
                    Ok(()) => {},
                    Err(e) => {
                        proof {
                            lemma_plan_stopped(caps, g, ds, i + 1);
                            lemma_plan_failure_bound(caps, g, ds);
                            lemma_delta_sum_same_deltas(ds, plan.decisions@);
                        }
                        return Err(e);
                    },
                }
            }
            i = i + 1;
        }
        proof {
            assert(ds.take(n as int) =~= ds);
            lemma_delta_sum_same_deltas(ds, plan.decisions@);
        }
        Ok(())
    }

    /// Remove every state, index entry and usage record. The statistics
    /// are kept.
    pub fn clear(&mut self)
        requires
            old(self).wf(),
        ensures
            final(self).wf(),
            final(self).held() == Map::<Seq<char>, ExecutionState>::empty(),
            final(self).capacities() == old(self).capacities(),
            final(self).counters() == old(self).counters(),
    {
        table_clear(&mut self.states);
        loc_index_clear(&mut self.by_location);
        type_index_clear(&mut self.by_type);
        usage_clear(&mut self.tier_usage);
        proof {
            assert(self.held() =~= Map::<Seq<char>, ExecutionState>::empty());
            assert forall|l: Location| self.recorded_usage(l) == tier_total(self.held(), l) by {
                lemma_total_empty(l);
            }
        }
    }

    /// A summary of the current state: the number of states, the number at
    /// each indexed location and of each indexed type, and the usage and
    /// capacity of each tier with a usage record.
    pub fn summary(&self) -> (r: ManagerSummary)
        requires
            self.wf(),
        ensures
            r.total_states == self.held().len(),
            forall|i: int, j: int|
                0 <= i < j < r.by_location@.len() ==> r.by_location@[i].0 != r.by_location@[j].0,
            forall|i: int|
                #![trigger r.by_location@[i]]
                0 <= i < r.by_location@.len() ==> r.by_location@[i].1 == states_at(
                    self.held(),
                    r.by_location@[i].0,
                ).len(),
            forall|k: Seq<char>|
                #[trigger] self.held().contains_key(k) ==> exists|i: int|
                    0 <= i < r.by_location@.len() && r.by_location@[i].0 == self.held()[k].location,
            forall|i: int, j: int|
                0 <= i < j < r.by_type@.len() ==> r.by_type@[i].0 != r.by_type@[j].0,
            forall|i: int|
                #![trigger r.by_type@[i]]
                0 <= i < r.by_type@.len() ==> r.by_type@[i].1 == states_of_type(
                    self.held(),
                    r.by_type@[i].0,
                ).len(),
            forall|k: Seq<char>|
                #[trigger] self.held().contains_key(k) ==> exists|i: int|
                    0 <= i < r.by_type@.len() && r.by_type@[i].0 == self.held()[k].state_type,
            forall|i: int, j: int|
                0 <= i < j < r.memory_usage@.len() ==> r.memory_usage@[i].0
                    != r.memory_usage@[j].0,
            forall|i: int|
                #![trigger r.memory_usage@[i]]
                0 <= i < r.memory_usage@.len() ==> r.memory_usage@[i].1.0 == tier_total(
                    self.held(),
                    r.memory_usage@[i].0,
                ) && r.memory_usage@[i].1.1 == self.capacities().capacity_of(r.memory_usage@[i].0),
    {
        let ghost t = self.held();
        let ghost li = location_index(self.by_location);
        let ghost ti = type_index(self.by_type);
        let by_location = loc_index_counts(&self.by_location);
        let by_type = type_index_counts(&self.by_type);
        let usage = usage_entries(&self.tier_usage);
        let mut memory_usage: Vec<(Location, (u64, u64))> = Vec::new();
        let mut i: usize = 0;
        while i < usage.len()
            invariant
                self.wf(),
                i <= usage@.len(),
                memory_usage@.len() == i,
                forall|a: int, b: int|
                    0 <= a < b < usage@.len() ==> usage@[a].0 != usage@[b].0,
                forall|a: int|
                    0 <= a < usage@.len() ==> usage_table(self.tier_usage).contains_key(
                        #[trigger] usage@[a].0,
                    ) && usage@[a].1 == usage_table(self.tier_usage)[usage@[a].0],
                forall|a: int|
                    #![trigger memory_usage@[a]]
                    0 <= a < i ==> memory_usage@[a].0 == usage@[a].0 && memory_usage@[a].1.0
                        == tier_total(self.held(), usage@[a].0) && memory_usage@[a].1.1
                        == self.capacities().capacity_of(usage@[a].0),
            decreases usage@.len() - i,
        {
            let (l, used) = usage[i];
            proof {
                assert(self.recorded_usage(l) == tier_total(self.held(), l));
            }
            memory_usage.push((l, (used, self.hardware.total_capacity(l))));
            i = i + 1;
        }
        proof {
            assert forall|a: int, b: int|
                0 <= a < b < memory_usage@.len() implies memory_usage@[a].0 != memory_usage@[b].0 by {
                assert(usage@[a].0 != usage@[b].0);
            }
            assert forall|a: int| 0 <= a < by_location@.len() implies #[trigger] by_location@[a].1
                == states_at(t, by_location@[a].0).len() by {
                let l = by_location@[a].0;
                assert(li[l] =~= states_at(t, l));
            }
            assert forall|a: int| 0 <= a < by_type@.len() implies #[trigger] by_type@[a].1
                == states_of_type(t, by_type@[a].0).len() by {
                let st = by_type@[a].0;
                assert(ti[st] =~= states_of_type(t, st));
            }
        }
        let r = ManagerSummary {
            total_states: table_len(&self.states),
            by_location,
            by_type,
            memory_usage,
        };
        proof {
            assert forall|k: Seq<char>| #[trigger] t.contains_key(k) implies exists|a: int|
                0 <= a < r.by_location@.len() && r.by_location@[a].0 == t[k].location by {
                assert(li.contains_key(t[k].location));
                let a = choose|a: int| 0 <= a < by_location@.len() && by_location@[a].0 == t[k].location;
                assert(r.by_location@[a].0 == t[k].location);
            }
            assert forall|k: Seq<char>| #[trigger] t.contains_key(k) implies exists|a: int|
                0 <= a < r.by_type@.len() && r.by_type@[a].0 == t[k].state_type by {
                assert(ti.contains_key(t[k].state_type));
                let a = choose|a: int| 0 <= a < by_type@.len() && by_type@[a].0 == t[k].state_type;
                assert(r.by_type@[a].0 == t[k].state_type);
            }
        }
        r
    }
}

} // verus!

verus! {

/// The identifiers of the states at a location.
pub open spec fn states_at(t: Map<Seq<char>, ExecutionState>, l: Location) -> Set<Seq<char>> {
    t.dom().filter(|k: Seq<char>| t[k].location == l)
}

/// The identifiers of the states of a type.
pub open spec fn states_of_type(t: Map<Seq<char>, ExecutionState>, st: StateType) -> Set<
    Seq<char>,
> {
    t.dom().filter(|k: Seq<char>| t[k].state_type == st)
}

/// Summary of the state manager.
#[derive(Debug)]
pub struct ManagerSummary {
    /// Number of registered states.
    pub total_states: usize,
    /// Each indexed location with its number of states.
    pub by_location: Vec<(Location, usize)>,
    /// Each indexed type with its number of states.
    pub by_type: Vec<(StateType, usize)>,
    /// Each tier with a usage record: (used, total) bytes.
    pub memory_usage: Vec<(Location, (u64, u64))>,
}

} // verus!

verus! {

// =============================================================================
// Laws
// =============================================================================

/// The states at tier `l` fit in its capacity.
pub open spec fn within_capacity(caps: TierCapacities, t: Map<Seq<char>, ExecutionState>, l: Location) -> bool {
    tier_total(t, l) <= caps.capacity_of(l)
}

proof fn lemma_contribution_nonneg(s: ExecutionState, l: Location)
    ensures
        contribution(s, l) >= 0,
{
}

/// Relocating a state that fits at its target keeps a tier that was within
/// its capacity within it.
proof fn lemma_relocate_within(
    caps: TierCapacities,
    t: Map<Seq<char>, ExecutionState>,
    id: Seq<char>,
    target: Location,
    l: Location,
)
    requires
        t.dom().finite(),
        t.contains_key(id),
        t[id].location == target || t[id].size_bytes <= available_in(caps, t, target),
        within_capacity(caps, t, l),
    ensures
        within_capacity(caps, relocated(t, id, target), l),
        relocated(t, id, target).dom().finite(),
{
    let v = ExecutionState { location: target, ..t[id] };
    lemma_total_update(t, id, v, l);
    lemma_total_nonneg(t, target);
    assert(relocated(t, id, target).dom() =~= t.dom().insert(id));
}

/// A decision that succeeds never pushes a tier past its capacity: every
/// tier that was within its capacity before is within it after.
pub proof fn law_decision_respects_capacity(
    caps: TierCapacities,
    g: Ledger,
    d: StateDecision,
    l: Location,
)
    requires
        g.held.dom().finite(),
        decision_succeeds(caps, g, d),
        within_capacity(caps, g.held, l),
    ensures
        within_capacity(caps, ledger_after(g, d).held, l),
        ledger_after(g, d).held.dom().finite(),
{
    let id = d.state_id@;
    match d.action {
        Action::Move | Action::Prefetch => {
            lemma_relocate_within(caps, g.held, id, move_target(d.target_location), l);
        },
        Action::Recompute => {
            lemma_relocate_within(caps, g.held, id, Location::Hbm, l);
        },
        Action::Evict => {
            if evict_target(d.target_location) == Location::Evicted {
                lemma_total_remove(g.held, id, l);
                lemma_contribution_nonneg(g.held[id], l);
            } else {
                lemma_relocate_within(caps, g.held, id, evict_target(d.target_location), l);
            }
        },
        _ => {},
    }
}

/// Running a plan never pushes a tier past its capacity: every tier that
/// was within its capacity before the run is within it after, whether the
/// run completes or stops at a failure.
pub proof fn law_plan_respects_capacity(
    caps: TierCapacities,
    g: Ledger,
    ds: Seq<StateDecision>,
    l: Location,
)
    requires
        g.held.dom().finite(),
        within_capacity(caps, g.held, l),
    ensures
        within_capacity(caps, plan_ledger(caps, g, ds).held, l),
        plan_ledger(caps, g, ds).held.dom().finite(),
    decreases ds.len(),
{
    if ds.len() > 0 {
        law_plan_respects_capacity(caps, g, ds.drop_last(), l);
        let prev = plan_ledger(caps, g, ds.drop_last());
        if plan_failure(caps, g, ds.drop_last()) is None && ds.last().status
            == DecisionStatus::Pending && decision_succeeds(caps, prev, ds.last()) {
            law_decision_respects_capacity(caps, prev, ds.last(), l);
        }
    }
}

/// Moving a state between two materialized tiers moves its bytes: the
/// source tier holds its size less, the target tier its size more, and
/// every other tier holds what it held.
pub proof fn law_move_shifts_bytes(
    t: Map<Seq<char>, ExecutionState>,
    id: Seq<char>,
    target: Location,
    l: Location,
)
    requires
        t.dom().finite(),
        t.contains_key(id),
        t[id].location != target,
        t[id].location.spec_is_materialized(),
        target.spec_is_materialized(),
    ensures
        tier_total(relocated(t, id, target), t[id].location) == tier_total(t, t[id].location)
            - t[id].size_bytes,
        tier_total(relocated(t, id, target), target) == tier_total(t, target) + t[id].size_bytes,
        l != t[id].location && l != target ==> tier_total(relocated(t, id, target), l)
            == tier_total(t, l),
{
    let v = ExecutionState { location: target, ..t[id] };
    lemma_total_update(t, id, v, t[id].location);
    lemma_total_update(t, id, v, target);
    lemma_total_update(t, id, v, l);
}

/// Full eviction frees the state's bytes from the tier it was in, and the
/// state is no longer held.
pub proof fn law_evict_frees_bytes(t: Map<Seq<char>, ExecutionState>, id: Seq<char>)
    requires
        t.dom().finite(),
        t.contains_key(id),
    ensures
        !t.remove(id).contains_key(id),
        tier_total(t.remove(id), t[id].location) == tier_total(t, t[id].location) - contribution(
            t[id],
            t[id].location,
        ),
{
    lemma_total_remove(t, id, t[id].location);
}

/// Unregistering a state just registered gives back the books as they
/// were: the same states are held and every tier holds the same bytes.
pub proof fn law_unregister_undoes_register(
    t: Map<Seq<char>, ExecutionState>,
    s: ExecutionState,
    l: Location,
)
    requires
        t.dom().finite(),
        !t.contains_key(s.id@),
    ensures
        t.insert(s.id@, s).remove(s.id@) == t,
        tier_total(t.insert(s.id@, s).remove(s.id@), l) == tier_total(t, l),
        tier_total(t.insert(s.id@, s), l) == tier_total(t, l) + contribution(s, l),
{
    assert(t.insert(s.id@, s).remove(s.id@) =~= t);
    lemma_total_insert_new(t, s.id@, s, l);
}

} // verus!
