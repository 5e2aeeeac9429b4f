use aether::decision::{DecisionStatus, ExecutionPlan, StateDecision};
use aether::error::AetherError;
use aether::hardware::TierCapacities;
use aether::state::{generate_state_id, ExecutionState, StateIdGenerator};
use aether::state_manager::StateManager;
use aether::types::{Action, DType, Location, Priority, StateId, StateType};

fn gib(n: u64) -> u64 {
    n * 1024 * 1024 * 1024
}

fn test_manager() -> StateManager {
    StateManager::new(TierCapacities {
        hbm_bytes: gib(24),
        dram_bytes: gib(256),
        nvme_bytes: gib(2048),
        cxl_bytes: 0,
    })
}

#[test]
fn test_create_state() {
    let mut ids = StateIdGenerator::new();
    let state = ExecutionState::new(StateType::KvCache, 1024 * 1024, &mut ids);
    assert_eq!(state.state_type, StateType::KvCache);
    assert_eq!(state.size_bytes, 1024 * 1024);
    assert_eq!(state.location, Location::NotMaterialized);
}

#[test]
fn test_kv_cache_factory() {
    let mut ids = StateIdGenerator::new();
    let state = ExecutionState::kv_cache(5, 1024, 32, 128, DType::Float16, &mut ids);
    assert_eq!(state.state_type, StateType::KvCache);
    assert_eq!(state.metadata.layer_id, Some(5));
    assert!(state.recomputable);
    assert_eq!(state.size_bytes, 2 * 1024 * 32 * 128 * 2);
}

#[test]
fn test_expert_weight_factory() {
    let mut ids = StateIdGenerator::new();
    let state = ExecutionState::expert_weight(3, 7, 50 * 1024 * 1024, &mut ids);
    assert_eq!(state.state_type, StateType::ExpertWeight);
    assert_eq!(state.metadata.layer_id, Some(3));
    assert_eq!(state.metadata.expert_id, Some(7));
    assert!(!state.recomputable);
}

#[test]
fn state_test_location_properties() {
    let mut ids = StateIdGenerator::new();
    let mut state = ExecutionState::new(StateType::Activation, 1024, &mut ids);

    assert!(!state.is_materialized());
    assert!(!state.is_in_gpu());

    state.location = Location::Hbm;
    assert!(state.is_materialized());
    assert!(state.is_in_gpu());

    state.location = Location::Dram;
    assert!(state.is_materialized());
    assert!(!state.is_in_gpu());
}

#[test]
fn generated_ids_are_hex_counters() {
    let mut ids = StateIdGenerator::starting_at(255);
    assert_eq!(generate_state_id("kv", &mut ids).0, "kv_000000ff");
    assert_eq!(generate_state_id("act", &mut ids).0, "act_00000100");
}

#[test]
fn test_register_state() {
    let mut manager = test_manager();
    let mut ids = StateIdGenerator::new();

    let state = ExecutionState::new(StateType::KvCache, 1024 * 1024, &mut ids).with_location(Location::Hbm);
    let id = state.id.clone();

    manager.register(state);

    assert!(manager.contains(&id));
    assert_eq!(manager.len(), 1);
}

#[test]
fn test_unregister_state() {
    let mut manager = test_manager();
    let mut ids = StateIdGenerator::new();

    let state = ExecutionState::new(StateType::KvCache, 1024 * 1024, &mut ids);
    let id = state.id.clone();

    manager.register(state);
    assert!(manager.contains(&id));

    manager.unregister(&id);
    assert!(!manager.contains(&id));
}

#[test]
fn state_manager_test_memory_tracking() {
    let mut manager = test_manager();
    let mut ids = StateIdGenerator::new();

    let state = ExecutionState::new(StateType::KvCache, 1024 * 1024 * 1024, &mut ids).with_location(Location::Hbm);

    manager.register(state);

    assert_eq!(manager.get_usage(Location::Hbm), 1024 * 1024 * 1024);
}

#[test]
fn test_execute_move() {
    let mut manager = test_manager();
    let mut ids = StateIdGenerator::new();

    let state = ExecutionState::new(StateType::KvCache, 1024 * 1024, &mut ids).with_location(Location::Dram);
    let id = state.id.clone();

    manager.register(state);

    manager.execute_move(&id, Location::Hbm).unwrap();

    let state = manager.get(&id).unwrap();
    assert_eq!(state.location, Location::Hbm);
}

#[test]
fn move_keeps_books() {
    let mut manager = test_manager();
    let mut ids = StateIdGenerator::new();
    let a = ExecutionState::new(StateType::KvCache, 1000, &mut ids).with_location(Location::Dram);
    let id = a.id.clone();
    manager.register(a);
    assert_eq!(manager.get_usage(Location::Dram), 1000);
    manager.execute_move(&id, Location::Hbm).unwrap();
    assert_eq!(manager.get_usage(Location::Dram), 0);
    assert_eq!(manager.get_usage(Location::Hbm), 1000);
    assert_eq!(manager.get_available(Location::Hbm), gib(24) - 1000);
    assert_eq!(manager.stats.transfers_completed, 1);
    assert_eq!(manager.stats.bytes_transferred, 1000);
    assert_eq!(manager.get_by_location(Location::Hbm).len(), 1);
    assert_eq!(manager.get_by_location(Location::Dram).len(), 0);
    assert_eq!(manager.get_by_type(StateType::KvCache).len(), 1);
    assert_eq!(manager.get_stats().transfers_completed, 1);
    assert_eq!(manager.get_stats().bytes_transferred, 1000);
}

#[test]
fn move_refused_when_full() {
    let mut manager = StateManager::new(TierCapacities { hbm_bytes: 100, dram_bytes: 1000, nvme_bytes: 0, cxl_bytes: 0 });
    let mut ids = StateIdGenerator::new();
    let a = ExecutionState::new(StateType::Activation, 150, &mut ids).with_location(Location::Dram);
    let id = a.id.clone();
    manager.register(a);
    match manager.execute_move(&id, Location::Hbm) {
        Err(e) => assert_eq!(e.message(), "Insufficient memory at Hbm: need 150 bytes, have 100 bytes"),
        Ok(()) => panic!("move beyond capacity accepted"),
    }
    assert!(!manager.is_in_hbm(&id));
    let missing = StateId::new("nope".to_string());
    match manager.execute_move(&missing, Location::Hbm) {
        Err(AetherError::StateNotFound(s)) => assert_eq!(s.0, "nope"),
        _ => panic!("missing state moved"),
    }
}

#[test]
fn plan_execution_stops_at_first_failure() {
    let mut manager = StateManager::new(TierCapacities { hbm_bytes: 100, dram_bytes: 1000, nvme_bytes: 0, cxl_bytes: 0 });
    let mut ids = StateIdGenerator::new();
    let small = ExecutionState::new(StateType::KvCache, 60, &mut ids).with_location(Location::Dram);
    let big = ExecutionState::new(StateType::KvCache, 60, &mut ids).with_location(Location::Dram).with_pinned(true);
    let (s_id, b_id) = (small.id.clone(), big.id.clone());
    manager.register(small);
    manager.register(big);

    let mut plan = ExecutionPlan::new();
    plan.add(StateDecision::move_to(s_id.clone(), Location::Hbm));
    plan.add(StateDecision::move_to(b_id.clone(), Location::Hbm));
    plan.add(StateDecision::evict(s_id.clone(), None));

    let r = manager.execute_plan(&mut plan);
    assert!(r.is_err());
    assert_eq!(plan.decisions[0].status, DecisionStatus::Completed);
    assert_eq!(plan.decisions[1].status, DecisionStatus::Failed);
    assert_eq!(
        plan.decisions[1].error_message,
        Some("Insufficient memory at Hbm: need 60 bytes, have 40 bytes".to_string())
    );
    assert_eq!(plan.decisions[2].status, DecisionStatus::Pending);
    assert!(manager.is_in_hbm(&s_id));
    assert!(!manager.is_in_hbm(&b_id));
}

#[test]
fn eviction_rules() {
    let mut manager = test_manager();
    let mut ids = StateIdGenerator::new();
    let pinned = ExecutionState::new(StateType::Weight, 10, &mut ids).with_location(Location::Hbm).with_pinned(true);
    let free = ExecutionState::new(StateType::Activation, 10, &mut ids).with_location(Location::Hbm);
    let (p_id, f_id) = (pinned.id.clone(), free.id.clone());
    manager.register(pinned);
    manager.register(free);

    let mut d = StateDecision::evict(p_id.clone(), None);
    assert!(manager.execute_decision(&mut d).is_err());
    assert_eq!(d.status, DecisionStatus::Failed);
    assert_eq!(d.error_message, Some(format!("State {} is pinned and cannot be evicted", p_id.0)));

    let mut d = StateDecision::evict(f_id.clone(), None);
    manager.execute_decision(&mut d).unwrap();
    assert_eq!(d.status, DecisionStatus::Completed);
    assert!(!manager.contains(&f_id));
    assert_eq!(manager.stats.states_evicted, 1);
    assert_eq!(manager.get_usage(Location::Hbm), 10);

    let summary = manager.summary();
    assert_eq!(summary.total_states, 1);
    manager.clear();
    assert!(manager.is_empty());
    assert_eq!(manager.get_usage(Location::Hbm), 0);
}

#[test]
fn recompute_needs_recomputable_state() {
    let mut manager = test_manager();
    let mut ids = StateIdGenerator::new();
    let w = ExecutionState::new(StateType::Weight, 10, &mut ids).with_location(Location::Dram);
    let w_id = w.id.clone();
    manager.register(w);
    let mut d = StateDecision::recompute(w_id.clone());
    match manager.execute_decision(&mut d) {
        Err(AetherError::NotRecomputable(s)) => assert_eq!(s.0, w_id.0),
        _ => panic!("weights recomputed"),
    }
}

#[test]
fn test_create_decision() {
    let d = StateDecision::new("test".into(), Action::Move);
    assert_eq!(d.action, Action::Move);
    assert!(d.is_pending());
    assert!(d.is_move_action());
}

#[test]
fn test_decision_factories() {
    let keep = StateDecision::keep("s1".into());
    assert_eq!(keep.action, Action::Keep);

    let move_d = StateDecision::move_to("s2".into(), Location::Hbm);
    assert_eq!(move_d.action, Action::Move);
    assert_eq!(move_d.target_location, Some(Location::Hbm));

    let recompute = StateDecision::recompute("s3".into());
    assert_eq!(recompute.action, Action::Recompute);
    assert!(recompute.is_compute_action());
}

#[test]
fn test_plan_action_counts() {
    let mut plan = ExecutionPlan::new();

    plan.add(StateDecision::prefetch("s1".into(), Location::Hbm));
    plan.add(StateDecision::prefetch("s2".into(), Location::Hbm));
    plan.add(StateDecision::recompute("s3".into()));

    let counts = plan.action_counts();
    let get = |a: Action| counts.iter().find(|(x, _)| *x == a).map(|(_, c)| *c);
    assert_eq!(get(Action::Prefetch), Some(2));
    assert_eq!(get(Action::Recompute), Some(1));
    assert_eq!(get(Action::Move), None);
    assert_eq!(plan.by_action(Action::Prefetch).len(), 2);
}

#[test]
fn plan_completion_and_readiness() {
    let mut plan = ExecutionPlan::new();
    plan.add(StateDecision::keep("s1".into()));
    plan.add(StateDecision::keep("s2".into()).with_dependency("s1".into()));

    assert!(!plan.is_complete());
    assert_eq!(plan.ready_decisions().len(), 1);
    assert_eq!(plan.pending_decisions().len(), 2);

    plan.decisions[0].mark_completed();
    assert_eq!(plan.ready_decisions().len(), 1);
    assert_eq!(plan.ready_decisions()[0].state_id.0, "s2");

    plan.decisions[1].mark_completed();
    assert!(plan.is_complete());
}

#[test]
fn plan_deltas_and_merge() {
    let mut plan = ExecutionPlan::new();
    plan.add(StateDecision::evict("a".into(), None).with_memory_delta(-100));
    plan.add(StateDecision::prefetch("b".into(), Location::Hbm).with_memory_delta(40));
    assert_eq!(plan.expected_memory_delta_bytes, -60);

    let mut other = ExecutionPlan::new();
    other.add(StateDecision::keep("a".into()).with_memory_delta(5));
    other.add(StateDecision::keep("c".into()).with_memory_delta(7));
    plan.merge(other);
    assert_eq!(plan.len(), 3);
    assert_eq!(plan.expected_memory_delta_bytes, -53);

    let removed = plan.remove(&"b".into()).unwrap();
    assert_eq!(removed.memory_delta_bytes, 40);
    assert_eq!(plan.expected_memory_delta_bytes, -93);
    if let Some(d) = plan.get_mut(&"c".into()) {
        d.mark_completed();
    }
    assert_eq!(plan.get(&"c".into()).unwrap().status, DecisionStatus::Completed);
}

#[test]
fn unregister_undoes_register_in_the_books() {
    let mut manager = test_manager();
    let mut ids = StateIdGenerator::new();
    let kept = ExecutionState::new(StateType::Weight, 4096, &mut ids).with_location(Location::Hbm);
    manager.register(kept);
    let before_hbm = manager.get_usage(Location::Hbm);
    let before_len = manager.len();

    let state = ExecutionState::new(StateType::KvCache, 1 << 20, &mut ids).with_location(Location::Hbm);
    let id = state.id.clone();
    manager.register(state);
    assert_eq!(manager.get_usage(Location::Hbm), before_hbm + (1 << 20));
    let removed = manager.unregister(&id).unwrap();
    assert_eq!(removed.size_bytes, 1 << 20);
    assert_eq!(manager.get_usage(Location::Hbm), before_hbm);
    assert_eq!(manager.len(), before_len);
    assert!(manager.unregister(&id).is_none());
}

#[test]
fn timeout_message_shows_duration() {
    let e = AetherError::Timeout(std::time::Duration::from_millis(1500));
    assert_eq!(e.message(), "Operation timed out after 1.5s");
}

#[test]
fn fresh_metadata_starts_at_zero() {
    let mut ids = StateIdGenerator::new();
    let mut state = ExecutionState::new(StateType::Activation, 64, &mut ids);
    assert_eq!(state.metadata.created_at, std::time::Duration::ZERO);
    assert_eq!(state.metadata.access_count, 0);
    state.touch(std::time::Duration::from_millis(7));
    assert_eq!(state.metadata.last_accessed, std::time::Duration::from_millis(7));
    assert_eq!(state.metadata.access_count, 1);
}

#[test]
fn missing_from_gpu_keeps_absent_and_off_device_states() {
    let mut ids = StateIdGenerator::new();
    let on_gpu = ExecutionState::new(StateType::Activation, 8, &mut ids).with_location(Location::Hbm);
    let in_dram = ExecutionState::new(StateType::Activation, 8, &mut ids).with_location(Location::Dram);
    let absent = StateId::new("absent".to_string());
    let required = vec![in_dram.id.clone(), on_gpu.id.clone(), absent.clone()];
    let missing = aether::state::missing_from_gpu(&required, &vec![on_gpu.duplicate(), in_dram.duplicate()]);
    assert_eq!(missing, vec![in_dram.id.clone(), absent]);
}
