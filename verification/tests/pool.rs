use aether::buffer::{BufferRegistry, GpuBuffer};
use aether::device::CudaDevice;
use aether::cuda_error::CudaError;
use aether::pool::MemoryPool;
use aether::types::{DType, StateId};

fn pool_1gb() -> MemoryPool {
    MemoryPool::new(CudaDevice::new(0).unwrap(), 1024 * 1024 * 1024)
}

#[test]
fn test_pool_allocate() {
    let mut pool = pool_1gb();

    let mem = pool.allocate(1024).unwrap();
    assert!(mem.allocated_size() >= 1024);

    let stats = pool.stats();
    assert_eq!(stats.total_allocations, 1);
    assert_eq!(stats.cache_misses, 1);
    pool.release(mem);
}

#[test]
fn test_pool_reuse() {
    let mut pool = pool_1gb();

    let mem1 = pool.allocate(1024 * 1024).unwrap();
    let size = mem1.allocated_size();
    pool.release(mem1);

    let mem2 = pool.allocate(1024 * 1024).unwrap();
    assert_eq!(mem2.allocated_size(), size);

    let stats = pool.stats();
    assert_eq!(stats.total_allocations, 2);
    assert_eq!(stats.cache_hits, 1);
    assert_eq!(stats.cache_misses, 1);
    pool.release(mem2);
}

#[test]
fn test_pool_clear_cache() {
    let mut pool = pool_1gb();

    let mem = pool.allocate(1024 * 1024).unwrap();
    pool.release(mem);

    let (in_use, cached) = pool.memory_usage();
    assert_eq!(in_use, 0);
    assert!(cached > 0);

    pool.clear_cache();

    let (in_use, cached) = pool.memory_usage();
    assert_eq!(in_use, 0);
    assert_eq!(cached, 0);
    assert_eq!(pool.device().allocated_memory(), 0);
}

#[test]
fn test_pool_hit_rate() {
    let mut pool = pool_1gb();

    let m1 = pool.allocate(1024).unwrap();
    pool.release(m1);
    let m2 = pool.allocate(1024).unwrap();
    pool.release(m2);
    let m3 = pool.allocate(1024).unwrap();

    let stats = pool.stats();
    assert_eq!(stats.total_allocations, 3);
    assert_eq!(stats.cache_hits, 2);
    let hit_rate = stats.cache_hits as f64 / stats.total_allocations as f64;
    assert!((hit_rate - 0.666).abs() < 0.01);
    pool.release(m3);
}

#[test]
fn pool_rounds_to_powers_of_two() {
    let pool = pool_1gb();
    assert_eq!(pool.round_size(1), 256 * 1024);
    assert_eq!(pool.round_size(256 * 1024), 256 * 1024);
    assert_eq!(pool.round_size(256 * 1024 + 1), 512 * 1024);
    assert_eq!(pool.round_size(1000 * 1000), 1024 * 1024);
    assert_eq!(pool.round_size(1024 * 1024 + 1), 2 * 1024 * 1024);
}

#[test]
fn pool_release_then_same_request_hits() {
    let mut pool = pool_1gb();
    let a = pool.allocate(3_000_000).unwrap();
    assert_eq!(a.requested_size(), 3_000_000);
    assert_eq!(a.allocated_size(), 4 * 1024 * 1024);
    pool.release(a);
    let b = pool.allocate(3_000_000).unwrap();
    assert_eq!(b.allocated_size(), 4 * 1024 * 1024);
    assert_eq!(pool.stats().cache_hits, 1);
    let (in_use, cached) = pool.memory_usage();
    assert_eq!(in_use, 4 * 1024 * 1024);
    assert_eq!(cached, 0);
    pool.release(b);
}

#[test]
fn pool_refuses_beyond_device_memory() {
    let device = CudaDevice::new(0).unwrap();
    let total = device.total_memory();
    let mut pool = MemoryPool::new(device, 2 * total);
    assert!(pool.allocate(total + 1).is_err());
    // The attempt is counted as a miss, and nothing is held.
    assert_eq!(pool.stats().total_allocations, 1);
    assert_eq!(pool.stats().cache_misses, 1);
    assert_eq!(pool.memory_usage(), (0, 0));
    assert_eq!(pool.device().allocated_memory(), 0);
}

#[test]
fn test_buffer_registry() {
    let mut device = CudaDevice::new(0).unwrap();
    let mut registry = BufferRegistry::new();

    let mut buffer = GpuBuffer::allocate(&mut device, DType::Float16, &[1024]).unwrap();
    buffer.set_state_id(StateId::new("test_state".to_string()));

    let id = registry.register_gpu(buffer).unwrap();
    assert!(registry.has_gpu(&id));
    assert!(!registry.has_cpu(&id));

    let buffer = registry.remove_gpu(&id).unwrap();
    assert!(!registry.has_gpu(&id));
    assert_eq!(buffer.state_id(), Some(&StateId::new("test_state".to_string())));
}

#[test]
fn buffer_registry_memory_totals() {
    let mut device = CudaDevice::new(0).unwrap();
    let mut registry = BufferRegistry::new();
    let mut a = GpuBuffer::allocate(&mut device, DType::Float32, &[256]).unwrap();
    a.set_state_id(StateId::new("a".to_string()));
    let mut b = GpuBuffer::allocate(&mut device, DType::Float16, &[256]).unwrap();
    b.set_state_id(StateId::new("b".to_string()));
    let unnamed = GpuBuffer::allocate(&mut device, DType::Float16, &[8]).unwrap();
    registry.register_gpu(a);
    registry.register_gpu(b);
    assert!(registry.register_gpu(unnamed).is_none());
    assert_eq!(registry.gpu_memory_used(), 1024 + 512);
    assert_eq!(registry.cpu_memory_used(), 0);
}

#[test]
fn pool_keeps_bytes_in_use_within_maximum() {
    let mib: u64 = 1024 * 1024;
    let mut pool = MemoryPool::new(CudaDevice::new(0).unwrap(), mib);
    let a = pool.allocate(512 * 1024).unwrap();
    pool.release(a);
    let b = pool.allocate(mib).unwrap();
    assert_eq!(pool.stats().bytes_in_use, mib);
    // A cached block fits, but handing it out would pass the maximum: the
    // cache is trimmed and the request refused.
    match pool.allocate(512 * 1024) {
        Err(CudaError::PoolError(m)) => assert_eq!(
            m,
            "Pool size limit exceeded: in use 1048576, requested 524288, maximum 1048576"
        ),
        _ => panic!("expected a pool error"),
    }
    let stats = pool.stats();
    assert_eq!(stats.bytes_in_use, mib);
    assert_eq!(stats.bytes_cached, 0);
    assert_eq!(stats.cache_hits, 0);
    assert_eq!(stats.cache_misses, 3);
    assert_eq!(pool.device().allocated_memory(), mib);
    pool.release(b);
}

#[test]
fn pool_reports_a_trim_that_falls_short() {
    let mib: u64 = 1024 * 1024;
    let mut pool = MemoryPool::new(CudaDevice::new(0).unwrap(), mib);
    let b = pool.allocate(mib).unwrap();
    match pool.allocate(1024) {
        Err(CudaError::PoolError(m)) => {
            assert_eq!(m, "Could not free enough memory: needed 262144, freed 0")
        }
        _ => panic!("expected a pool error"),
    }
    assert_eq!(pool.stats().bytes_in_use, mib);
    pool.release(b);
}
