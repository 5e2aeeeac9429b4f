use aether::decision::{DecisionStatus, ExecutionPlan, StateDecision};
use aether::graph::{ExecutionGraph, Operation};
use aether::planning::{place_experts, select_evictions, Constraints, DecisionStats};
use aether::state::{ExecutionState, StateIdGenerator};
use aether::types::{Action, Location, OperationType, Priority, StateId, StateType};

#[test]
fn test_add_operation() {
    let mut graph = ExecutionGraph::new();
    let op = Operation::new("op1".to_string(), OperationType::Attention)
        .with_input("input1".into())
        .with_output("output1".into());
    graph.add_operation(op);

    assert_eq!(graph.num_operations(), 1);
    assert!(graph.get_producer(&"output1".into()).is_some());
}

#[test]
fn test_get_producer_consumer() {
    let mut graph = ExecutionGraph::new();

    let op1 = Operation::new("op1".to_string(), OperationType::Linear).with_output("state1".into());
    let op2 = Operation::new("op2".to_string(), OperationType::Attention)
        .with_input("state1".into())
        .with_output("state2".into());

    graph.add_operation(op1);
    graph.add_operation(op2);

    let producer = graph.get_producer(&"state1".into());
    assert!(producer.is_some());
    assert_eq!(producer.unwrap().id.0, "op1");

    let consumers = graph.get_consumers(&"state1".into());
    assert_eq!(consumers.len(), 1);
    assert_eq!(consumers[0].id.0, "op2");
}

#[test]
fn test_future_projection() {
    let mut graph = ExecutionGraph::new();
    for i in 0..10 {
        graph.add_operation(Operation::new(format!("op{}", i), OperationType::Linear));
    }

    let future = graph.project_future(3, 5);
    assert_eq!(future.len(), 5);
    assert_eq!(future[0].id.0, "op3");
    assert_eq!(future[4].id.0, "op7");
}

#[test]
fn test_state_demands() {
    let mut graph = ExecutionGraph::new();

    let op1 = Operation::new("op1".to_string(), OperationType::Linear)
        .with_input("weight".into())
        .with_output("act1".into());
    let op2 = Operation::new("op2".to_string(), OperationType::Attention)
        .with_input("act1".into())
        .with_input("kv".into())
        .with_output("act2".into());

    graph.add_operation(op1);
    graph.add_operation(op2);

    let demands = graph.get_future_state_demands(0, 10);
    assert!(demands.iter().any(|(s, _)| s.0 == "weight"));
    assert!(demands.iter().any(|(s, _)| s.0 == "kv"));
}

#[test]
fn graph_demand_positions_and_curve() {
    let mut graph = ExecutionGraph::new();
    graph.add_operation(Operation::new("a".to_string(), OperationType::Linear).with_input("w".into()));
    graph.add_operation(
        Operation::new("b".to_string(), OperationType::Linear).with_input("x".into()).with_input("w".into()),
    );
    graph.add_operation(Operation::new("c".to_string(), OperationType::Linear).with_input("x".into()));

    let demands = graph.get_future_state_demands(0, 3);
    let pos = |name: &str| demands.iter().find(|(s, _)| s.0 == name).map(|(_, p)| *p);
    assert_eq!(pos("w"), Some(0));
    assert_eq!(pos("x"), Some(1));
    assert_eq!(demands.len(), 2);

    let curve = graph.get_state_demand_curve(&"x".into(), 1);
    let positions: Vec<usize> = curve.iter().map(|(p, _)| *p).collect();
    assert_eq!(positions, vec![0, 1]);
    assert_eq!(curve[0].1 .0, "b");
    assert_eq!(curve[1].1 .0, "c");

    let near = graph.project_future(2, 10);
    assert_eq!(near.len(), 1);
    assert_eq!(near[0].id.0, "c");
}

#[test]
fn graph_recompute_info_and_dependencies() {
    let mut graph = ExecutionGraph::new();
    graph.add_operation(Operation::new("embed".to_string(), OperationType::Embedding).with_input("tokens".into()).with_output("h".into()));
    graph.add_operation(Operation::new("proj".to_string(), OperationType::Linear).with_input("h".into()).with_output("y".into()));

    let info = graph.find_recompute_info(&"y".into()).unwrap();
    assert_eq!(info.len(), 1);
    assert_eq!(info[0].0, "h");
    assert!(graph.find_recompute_info(&"tokens".into()).is_none());

    let deps = graph.get_dependencies(&aether::types::OperationId("proj".to_string()));
    assert_eq!(deps.len(), 1);
    assert_eq!(deps[0].id.0, "embed");
    assert_eq!(graph.num_states(), 2);
    let order: Vec<String> = graph.iter().iter().map(|op| op.id.0.clone()).collect();
    assert_eq!(order, vec!["embed".to_string(), "proj".to_string()]);
}

#[test]
fn test_constraints_builder() {
    let c = Constraints::new()
        .with_hbm_budget(10 * 1024 * 1024 * 1024)
        .with_prefetch_horizon(16)
        .without_recompute();

    assert_eq!(c.hbm_budget_bytes, Some(10 * 1024 * 1024 * 1024));
    assert_eq!(c.prefetch_horizon, 16);
    assert!(!c.allow_recompute);
}

#[test]
fn constraints_defaults() {
    let c = Constraints::default();
    assert_eq!(c.hbm_budget_bytes, None);
    assert_eq!(c.dram_budget_bytes, None);
    assert_eq!(c.prefetch_horizon, 8);
    assert!(c.allow_recompute);
    assert!(c.allow_approximation);
    assert!(c.prioritize_latency);
}

#[test]
fn test_expert_placement() {
    let mut ids = StateIdGenerator::new();
    let mut order: Vec<(StateId, u64, Location)> = Vec::new();
    for i in 0..8 {
        let expert = ExecutionState::expert_weight(0, i, 500 * 1024 * 1024, &mut ids).with_location(Location::Dram);
        order.push((expert.id.clone(), expert.size_bytes, expert.location));
    }
    let constraints = Constraints::new().with_hbm_budget(2 * 1024 * 1024 * 1024);
    let mut stats = DecisionStats::default();
    let plan = place_experts(&order, constraints.hbm_budget_bytes.unwrap(), &mut stats);

    let prefetch_count = plan.by_action(Action::Prefetch).len();
    assert!(prefetch_count > 0);
    // Four experts of 500 MiB fit in 2 GiB.
    assert_eq!(prefetch_count, 4);
    assert_eq!(stats.prefetch_chosen, 4);
}

#[test]
fn expert_placement_evicts_what_does_not_fit() {
    let order: Vec<(StateId, u64, Location)> = vec![
        ("e0".into(), 600, Location::Hbm),
        ("e1".into(), 600, Location::Dram),
        ("e2".into(), 600, Location::Hbm),
    ];
    let mut stats = DecisionStats::default();
    let plan = place_experts(&order, 1000, &mut stats);
    // e0 stays (already in HBM), e1 does not fit (in DRAM: nothing to do),
    // e2 does not fit and is in HBM: evicted.
    assert_eq!(plan.len(), 1);
    assert_eq!(plan.decisions[0].state_id.0, "e2");
    assert_eq!(plan.decisions[0].action, Action::Evict);
    assert_eq!(plan.decisions[0].target_location, Some(Location::Dram));
    assert_eq!(stats.prefetch_chosen, 0);
}

#[test]
fn evictions_stop_at_budget() {
    let candidates: Vec<(StateId, u64)> = vec![("a".into(), 300), ("b".into(), 300), ("c".into(), 300)];
    let evictions = select_evictions(&candidates, 1000, 500);
    assert_eq!(evictions.len(), 2);
    assert_eq!(evictions[0].state_id.0, "a");
    assert_eq!(evictions[1].state_id.0, "b");
    assert_eq!(evictions[0].memory_delta_bytes, -300);
    assert_eq!(evictions[0].target_location, Some(Location::Dram));
    assert!(select_evictions(&candidates, 400, 500).is_empty());
}

#[test]
fn test_plan_add() {
    let mut plan = ExecutionPlan::new();
    let d1 = StateDecision::move_to("s1".into(), Location::Hbm);
    let d2 = StateDecision::recompute("s2".into());

    plan.add(d1);
    plan.add(d2);

    assert_eq!(plan.len(), 2);
}

#[test]
fn test_plan_completion() {
    let mut plan = ExecutionPlan::new();
    plan.add(StateDecision::keep("s1".into()));
    plan.add(StateDecision::keep("s2".into()));

    assert!(!plan.is_complete());
    assert_eq!(plan.count_status(DecisionStatus::Completed), 0);

    plan.decisions[0].mark_completed();
    assert_eq!(plan.count_status(DecisionStatus::Completed), 1);
    assert_eq!(plan.len(), 2);

    plan.decisions[1].mark_completed();
    assert!(plan.is_complete());
}

#[test]
fn test_builder_methods() {
    let mut ids = StateIdGenerator::new();
    let state = ExecutionState::new(StateType::Activation, 1024, &mut ids)
        .with_location(Location::Hbm)
        .with_pinned(true)
        .with_priority(Priority::High);

    assert_eq!(state.location, Location::Hbm);
    assert!(state.pinned);
    assert_eq!(state.priority, Priority::High);
}

#[test]
fn ready_positions_follow_dependencies() {
    let decisions = vec![
        StateDecision::keep("a".into()).with_dependency("b".into()),
        StateDecision::keep("b".into()),
        StateDecision::keep("c".into()).with_dependency("a".into()).with_dependency("b".into()),
    ];
    let none: Vec<StateId> = Vec::new();
    assert_eq!(aether::decision::ready_positions(&decisions, &none), vec![1]);
    let b_done: Vec<StateId> = vec!["b".into()];
    assert_eq!(aether::decision::ready_positions(&decisions, &b_done), vec![0, 1]);
    let both: Vec<StateId> = vec!["b".into(), "a".into()];
    assert_eq!(aether::decision::ready_positions(&decisions, &both), vec![0, 1, 2]);
}
