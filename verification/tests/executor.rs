use aether::buffer::{CpuBuffer, GpuBuffer};
use aether::decision::{ExecutionPlan, StateDecision};
use aether::device::CudaDevice;
use aether::execution::{ExecutorError, KernelError};
use aether::graph::Operation;
use aether::attention::AttentionConfig;
use aether::kernel_executor::{operation_inputs, operation_outputs, KernelExecutor, KernelStats};
use aether::kernel_registry::KernelRegistry;
use aether::executor::{PhysicalBuffer, StateExecutor};
use aether::hardware::TierCapacities;
use aether::state::{ExecutionState, StateIdGenerator};
use aether::state_manager::StateManager;
use aether::types::{Action, DType, Location, OperationType, StateId, StateType};

fn gib(n: u64) -> u64 {
    n * 1024 * 1024 * 1024
}

fn executor_with(location: Location, size: u64) -> (StateExecutor, StateId) {
    let mut manager = StateManager::new(TierCapacities {
        hbm_bytes: gib(24),
        dram_bytes: gib(256),
        nvme_bytes: gib(2048),
        cxl_bytes: 0,
    });
    let mut ids = StateIdGenerator::new();
    let s = ExecutionState::new(StateType::KvCache, size, &mut ids).with_location(location);
    let id = s.id.clone();
    manager.register(s);
    (StateExecutor::new(manager, CudaDevice::new(0).unwrap()), id)
}

#[test]
fn test_executor_creation() {
    let (executor, _) = executor_with(Location::Dram, 1024);
    assert_eq!(executor.stats().actions_executed, 0);
}

#[test]
fn move_from_dram_to_hbm_places_a_device_buffer() {
    let (mut ex, id) = executor_with(Location::Dram, 4096);
    let host = CpuBuffer::allocate(DType::Float32, &[1024]).unwrap();
    ex.register_buffer(id.clone(), PhysicalBuffer::Cpu(host));
    ex.execute_move(&StateDecision::move_to(id.clone(), Location::Hbm)).unwrap();
    assert_eq!(ex.state_manager().get(&id).unwrap().location, Location::Hbm);
    assert_eq!(ex.state_manager().get_usage(Location::Hbm), 4096);
    assert_eq!(ex.state_manager().get_usage(Location::Dram), 0);
    assert_eq!(ex.stats().moves_completed, 1);
    assert_eq!(ex.stats().bytes_transferred, 4096);
    match ex.get_buffer(&id) {
        Some(PhysicalBuffer::Gpu(b)) => {
            assert_eq!(b.dtype(), DType::Float32);
            assert_eq!(b.shape(), &[1024]);
            assert_eq!(b.size_bytes(), 4096);
        }
        _ => panic!("expected a device buffer"),
    }
    assert_eq!(ex.device().allocated_memory(), 4096);
    assert_eq!(ex.get_gpu_buffer(&id).unwrap().size_bytes(), 4096);
}

#[test]
fn move_from_hbm_to_dram_gives_device_memory_back() {
    let (mut ex, id) = executor_with(Location::Dram, 4096);
    let host = CpuBuffer::allocate(DType::Float16, &[2048]).unwrap();
    ex.register_buffer(id.clone(), PhysicalBuffer::Cpu(host));
    ex.execute_move(&StateDecision::move_to(id.clone(), Location::Hbm)).unwrap();
    ex.execute_move(&StateDecision::move_to(id.clone(), Location::Dram)).unwrap();
    assert_eq!(ex.device().allocated_memory(), 0);
    assert_eq!(ex.state_manager().get(&id).unwrap().location, Location::Dram);
    match ex.get_buffer(&id) {
        Some(PhysicalBuffer::Cpu(b)) => assert_eq!(b.size_bytes(), 4096),
        _ => panic!("expected a host buffer"),
    }
    assert!(ex.get_gpu_buffer(&id).is_none());
    assert_eq!(ex.stats().moves_completed, 2);
    assert_eq!(ex.stats().bytes_transferred, 8192);
}

#[test]
fn move_to_nvme_records_the_backing_file() {
    let (mut ex, id) = executor_with(Location::Dram, 100);
    let host = CpuBuffer::allocate(DType::Uint8, &[100]).unwrap();
    ex.register_buffer(id.clone(), PhysicalBuffer::Cpu(host));
    ex.execute_move(&StateDecision::move_to(id.clone(), Location::Nvme)).unwrap();
    match ex.get_buffer(&id) {
        Some(PhysicalBuffer::Nvme(p)) => assert_eq!(p, &format!("/tmp/aether/state_{}.bin", id.0)),
        _ => panic!("expected a backing file"),
    }
    assert_eq!(ex.state_manager().get(&id).unwrap().location, Location::Nvme);
}

#[test]
fn move_errors_leave_everything_in_place() {
    let (mut ex, id) = executor_with(Location::Dram, 100);
    // No target.
    let mut d = StateDecision::new(id.clone(), Action::Move);
    d.target_location = None;
    match ex.execute_move(&d) {
        Err(ExecutorError::InvalidAction(m)) => assert_eq!(m, "MOVE requires target_location"),
        _ => panic!("expected an invalid action"),
    }
    // No buffer yet.
    match ex.execute_move(&StateDecision::move_to(id.clone(), Location::Hbm)) {
        Err(ExecutorError::BufferNotFound(s)) => assert_eq!(s, id),
        _ => panic!("expected a missing buffer"),
    }
    // Unknown state.
    let other = StateId::new("ghost".to_string());
    match ex.execute_move(&StateDecision::move_to(other.clone(), Location::Hbm)) {
        Err(ExecutorError::StateNotFound(s)) => assert_eq!(s, other),
        _ => panic!("expected a missing state"),
    }
    // Source of the wrong kind.
    ex.register_buffer(id.clone(), PhysicalBuffer::Nvme("/x".to_string()));
    match ex.execute_move(&StateDecision::move_to(id.clone(), Location::Hbm)) {
        Err(ExecutorError::InvalidAction(m)) => assert_eq!(m, "Source not on CPU"),
        _ => panic!("expected a wrong source"),
    }
    assert_eq!(ex.state_manager().get(&id).unwrap().location, Location::Dram);
    assert_eq!(ex.state_manager().get_usage(Location::Dram), 100);
    assert_eq!(ex.stats().moves_completed, 0);
}

#[test]
fn move_between_unconnected_tiers_only_books_it() {
    let (mut ex, id) = executor_with(Location::Dram, 100);
    ex.register_buffer(id.clone(), PhysicalBuffer::Nvme("/x".to_string()));
    ex.execute_move(&StateDecision::move_to(id.clone(), Location::Cxl)).unwrap();
    assert_eq!(ex.state_manager().get(&id).unwrap().location, Location::Cxl);
    assert_eq!(ex.state_manager().get_usage(Location::Cxl), 100);
    assert_eq!(ex.state_manager().get_usage(Location::Dram), 0);
    assert_eq!(ex.stats().moves_completed, 1);
    assert_eq!(ex.stats().bytes_transferred, 100);
    match ex.get_buffer(&id) {
        Some(PhysicalBuffer::Nvme(p)) => assert_eq!(p, "/x"),
        _ => panic!("the buffer should stay"),
    }
}

#[test]
fn move_refused_when_the_device_is_full() {
    let mut manager = StateManager::new(TierCapacities {
        hbm_bytes: gib(24),
        dram_bytes: gib(256),
        nvme_bytes: 0,
        cxl_bytes: 0,
    });
    let mut ids = StateIdGenerator::new();
    let s = ExecutionState::new(StateType::Activation, 8, &mut ids).with_location(Location::Dram);
    let id = s.id.clone();
    manager.register(s);
    let mut dev = CudaDevice::new(0).unwrap();
    let total = dev.total_memory();
    let _held = GpuBuffer::allocate(&mut dev, DType::Int8, &[total as usize]).unwrap();
    let mut ex = StateExecutor::new(manager, dev);
    let host = CpuBuffer::allocate(DType::Int8, &[8]).unwrap();
    ex.register_buffer(id.clone(), PhysicalBuffer::Cpu(host));
    match ex.execute_move(&StateDecision::move_to(id.clone(), Location::Hbm)) {
        Err(ExecutorError::CudaError(m)) => {
            assert_eq!(m, "Out of GPU memory: requested 8 bytes, available 0 bytes")
        }
        _ => panic!("expected the device to be full"),
    }
    assert_eq!(ex.state_manager().get(&id).unwrap().location, Location::Dram);
    assert_eq!(ex.device().allocated_memory(), total);
}

#[test]
fn decisions_are_counted() {
    let (mut ex, id) = executor_with(Location::Dram, 64);
    ex.execute_decision(&StateDecision::keep(id.clone())).unwrap();
    ex.execute_decision(&StateDecision::recompute(id.clone())).unwrap();
    assert!(ex.execute_decision(&StateDecision::move_to(id.clone(), Location::Hbm)).is_err());
    let host = CpuBuffer::allocate(DType::Uint8, &[64]).unwrap();
    ex.register_buffer(id.clone(), PhysicalBuffer::Cpu(host));
    ex.execute_decision(&StateDecision::prefetch(id.clone(), Location::Hbm)).unwrap();
    ex.execute_decision(&StateDecision::evict(id.clone(), None)).unwrap();
    let stats = ex.stats();
    assert_eq!(stats.actions_executed, 5);
    assert_eq!(stats.errors, 1);
    assert_eq!(stats.recomputes_completed, 1);
    assert_eq!(stats.moves_completed, 1);
    assert_eq!(stats.evictions_completed, 1);
    assert!(ex.get_buffer(&id).is_none());
    assert_eq!(ex.state_manager().get(&id).unwrap().location, Location::Evicted);
    assert_eq!(ex.state_manager().get_usage(Location::Hbm), 0);
    assert_eq!(ex.device().allocated_memory(), 0);
}

fn registry_with_attention(layer: usize) -> KernelRegistry {
    let mut registry = KernelRegistry::new(0);
    registry.register_attention(layer, AttentionConfig::mha(32, 128, 4096));
    registry
}

#[test]
fn operation_inputs_count_hits_and_misses() {
    let (mut ex, a) = executor_with(Location::Dram, 64);
    let b = StateId::new("b".to_string());
    let c = StateId::new("c".to_string());
    let mut dev = CudaDevice::new(0).unwrap();
    ex.register_buffer(a.clone(), PhysicalBuffer::Cpu(CpuBuffer::allocate(DType::Uint8, &[64]).unwrap()));
    ex.register_buffer(b.clone(), PhysicalBuffer::Gpu(GpuBuffer::allocate(&mut dev, DType::Uint8, &[8]).unwrap()));
    ex.register_buffer(c.clone(), PhysicalBuffer::Nvme("/c".to_string()));
    let (r, stats) = operation_inputs(&ex, &vec![b.clone(), a.clone(), c.clone()], KernelStats::default());
    assert_eq!(r.unwrap(), vec![a.clone(), c.clone()]);
    assert_eq!(stats.cache_hits, 1);
    assert_eq!(stats.cache_misses, 2);
    let missing = StateId::new("missing".to_string());
    let (r, stats) = operation_inputs(&ex, &vec![a.clone(), missing.clone(), b.clone()], KernelStats::default());
    match r {
        Err(KernelError::StateNotAvailable(s)) => assert_eq!(s, missing),
        _ => panic!("expected a missing input"),
    }
    assert_eq!(stats.cache_hits, 0);
    assert_eq!(stats.cache_misses, 1);
}

#[test]
fn attention_needs_its_layer_kernel() {
    let registry = registry_with_attention(2);
    let out = StateId::new("out".to_string());
    let op = Operation::new("attn".to_string(), OperationType::Attention).with_layer(2).with_output(out.clone());
    assert_eq!(operation_outputs(&op, &registry).unwrap(), vec![out.clone()]);
    let op = Operation::new("attn3".to_string(), OperationType::DecodeAttention).with_layer(3);
    match operation_outputs(&op, &registry) {
        Err(e) => assert_eq!(e.message(), "Kernel not registered: attention_3"),
        Ok(_) => panic!("expected a missing kernel"),
    }
    let op = Operation::new("attn".to_string(), OperationType::Attention);
    match operation_outputs(&op, &registry) {
        Err(KernelError::InvalidInput(m)) => assert_eq!(m, "Attention operation has no layer"),
        _ => panic!("expected a missing layer"),
    }
    let op = Operation::new("mlp".to_string(), OperationType::Mlp).with_layer(9).with_output(out.clone());
    assert_eq!(operation_outputs(&op, &registry).unwrap(), vec![out]);
}

#[test]
fn kernel_executor_counts_operations() {
    let (mut ex, a) = executor_with(Location::Dram, 64);
    ex.register_buffer(a.clone(), PhysicalBuffer::Cpu(CpuBuffer::allocate(DType::Uint8, &[64]).unwrap()));
    let mut kx = KernelExecutor::new(registry_with_attention(0));
    let out = StateId::new("o".to_string());
    let op = Operation::new("attn".to_string(), OperationType::PrefillAttention)
        .with_layer(0)
        .with_input(a.clone())
        .with_output(out.clone());
    let run = kx.execute_operation(&ex, &op).unwrap();
    assert_eq!(run.outputs, vec![out]);
    assert_eq!(run.fetched, vec![a.clone()]);
    let op = Operation::new("attn1".to_string(), OperationType::Attention).with_layer(1).with_input(a);
    assert!(kx.execute_operation(&ex, &op).is_err());
    let stats = kx.stats();
    assert_eq!(stats.operations_executed, 1);
    assert_eq!(stats.cache_misses, 2);
    assert_eq!(stats.cache_hits, 0);
}

#[test]
fn plan_stops_at_the_first_failure() {
    let (mut ex, id) = executor_with(Location::Dram, 32);
    ex.register_buffer(id.clone(), PhysicalBuffer::Cpu(CpuBuffer::allocate(DType::Uint8, &[32]).unwrap()));
    let mut plan = ExecutionPlan::new();
    plan.add(StateDecision::move_to(id.clone(), Location::Hbm));
    plan.add(StateDecision::move_to(StateId::new("nope".to_string()), Location::Hbm));
    plan.add(StateDecision::evict(id.clone(), None));
    match ex.execute_plan(&plan) {
        Err(ExecutorError::StateNotFound(s)) => assert_eq!(s.0, "nope"),
        _ => panic!("expected the second decision to fail"),
    }
    let stats = ex.stats();
    assert_eq!(stats.actions_executed, 2);
    assert_eq!(stats.errors, 1);
    assert_eq!(stats.moves_completed, 1);
    assert_eq!(stats.evictions_completed, 0);
    assert_eq!(ex.state_manager().get(&id).unwrap().location, Location::Hbm);
}

#[test]
fn plan_runs_every_decision() {
    let (mut ex, id) = executor_with(Location::Dram, 32);
    ex.register_buffer(id.clone(), PhysicalBuffer::Cpu(CpuBuffer::allocate(DType::Uint8, &[32]).unwrap()));
    let mut plan = ExecutionPlan::new();
    plan.add(StateDecision::move_to(id.clone(), Location::Hbm));
    plan.add(StateDecision::keep(id.clone()));
    plan.add(StateDecision::evict(id.clone(), None));
    ex.execute_plan(&plan).unwrap();
    let stats = ex.stats();
    assert_eq!(stats.actions_executed, 3);
    assert_eq!(stats.errors, 0);
    assert_eq!(stats.evictions_completed, 1);
    assert_eq!(ex.device().allocated_memory(), 0);
    assert!(ex.get_buffer(&id).is_none());
}
