use aether::buffer::{CpuBuffer, GpuBuffer};
use aether::cuda_error::CudaError;
use aether::device::{device_count, CudaDevice};
use aether::memory::{DeviceMemory, HostMemory, PinnedMemory};
use aether::stream::{CudaStream, StreamIds, StreamPool, StreamPriority};
use aether::transfer::{TransferDirection, TransferEngine, TransferStats};
use aether::types::{DType, Location, StateId};

#[test]
fn test_cpu_buffer() {
    let buffer = CpuBuffer::allocate(DType::Float32, &[256, 256]).unwrap();

    assert_eq!(buffer.shape(), &[256, 256]);
    assert_eq!(buffer.numel(), 256 * 256);
    assert_eq!(buffer.size_bytes(), (256 * 256 * 4) as u64);
}

#[test]
fn test_host_memory_from_vec() {
    let data = vec![1u8, 2, 3, 4, 5];
    let mem = HostMemory::from_vec(data);
    assert_eq!(mem.size(), 5);
    assert_eq!(mem.as_slice(), &[1, 2, 3, 4, 5]);
}

#[test]
fn test_transfer_direction() {
    assert_eq!(
        TransferDirection::from_locations(Location::Dram, Location::Hbm),
        Some(TransferDirection::HostToDevice)
    );
    assert_eq!(
        TransferDirection::from_locations(Location::Hbm, Location::Dram),
        Some(TransferDirection::DeviceToHost)
    );
    assert_eq!(
        TransferDirection::from_locations(Location::Hbm, Location::Hbm),
        Some(TransferDirection::DeviceToDevice)
    );
}

#[test]
fn test_transfer_stats() {
    let mut stats = TransferStats::default();

    stats.record(TransferDirection::HostToDevice, 1024);
    stats.record(TransferDirection::HostToDevice, 2048);
    stats.record(TransferDirection::DeviceToHost, 512);

    assert_eq!(stats.h2d_transfers, 2);
    assert_eq!(stats.h2d_bytes, 3072);
    assert_eq!(stats.d2h_transfers, 1);
    assert_eq!(stats.d2h_bytes, 512);
    assert_eq!(stats.total_transfers(), 3);
    assert_eq!(stats.total_bytes(), 3584);
}

#[test]
fn transfer_totals_sum_every_record() {
    let mut stats = TransferStats::default();
    let records = [
        (TransferDirection::DeviceToDevice, 7u64),
        (TransferDirection::HostToDevice, 100),
        (TransferDirection::DeviceToHost, 0),
        (TransferDirection::DeviceToDevice, 93),
    ];
    for (d, b) in records {
        stats.record(d, b);
    }
    assert_eq!(stats.total_bytes(), 200);
    assert_eq!(stats.total_transfers(), 4);
    assert_eq!(stats.d2d_bytes, 100);
}

#[test]
fn transfer_direction_between_other_tiers() {
    assert_eq!(TransferDirection::from_locations(Location::Dram, Location::Nvme), None);
    assert_eq!(TransferDirection::from_locations(Location::Dram, Location::Dram), None);
}

#[test]
fn test_gpu_buffer() {
    let mut device = CudaDevice::new(0).unwrap();
    let buffer = GpuBuffer::allocate(&mut device, DType::Float16, &[1024, 768]).unwrap();

    assert_eq!(buffer.shape(), &[1024, 768]);
    assert_eq!(buffer.numel(), 1024 * 768);
    assert_eq!(buffer.size_bytes(), (1024 * 768 * 2) as u64);
}

#[test]
fn test_buffer_reshape() {
    let mut device = CudaDevice::new(0).unwrap();
    let mut buffer = GpuBuffer::allocate(&mut device, DType::Float16, &[1024, 768]).unwrap();

    buffer.reshape(&[768, 1024]).unwrap();
    assert_eq!(buffer.shape(), &[768, 1024]);

    assert!(buffer.reshape(&[100, 100]).is_err());
}

#[test]
fn reshape_error_message() {
    let mut buffer = CpuBuffer::allocate(DType::Int8, &[4, 4]).unwrap();
    match buffer.reshape(&[3, 3]) {
        Err(e) => assert_eq!(e.message(), "Invalid buffer: Cannot reshape 16 elements to 9 elements"),
        Ok(()) => panic!("reshape to another element count succeeded"),
    }
    assert_eq!(buffer.shape(), &[4, 4]);
}

#[test]
fn cpu_buffer_from_data() {
    let b = CpuBuffer::from_data(DType::Float16, &[2, 2], vec![7u8; 8]).unwrap();
    assert_eq!(b.as_slice(), &[7u8; 8]);
    assert!(!b.is_pinned());
    assert_eq!(b.dtype(), DType::Float16);
    match CpuBuffer::from_data(DType::Float16, &[2, 2], vec![0u8; 7]) {
        Err(CudaError::InvalidBuffer(m)) => {
            assert_eq!(m, "Data size 7 doesn't match expected 8 bytes")
        }
        _ => panic!("mismatched data accepted"),
    }
}

#[test]
fn cpu_buffer_state_and_slices() {
    let mut b = CpuBuffer::allocate(DType::Int8, &[3]).unwrap();
    assert!(b.state_id().is_none());
    b.set_state_id(StateId::new("kv".to_string()));
    assert_eq!(b.state_id().map(|s| s.0.clone()), Some("kv".to_string()));
    b.as_mut_slice()[1] = 9;
    assert_eq!(b.as_slice(), &[0, 9, 0]);
    assert_eq!(b.memory().size(), 3);
}

#[test]
fn test_mock_device() {
    let device = CudaDevice::new(0).unwrap();
    assert_eq!(device.index(), 0);
    assert!(device.total_memory() > 0);
    assert!(device.can_allocate(1024));
    assert_eq!(device.info().name, "Mock GPU 0");
    assert_eq!(device_count().unwrap(), 1);
}

#[test]
fn device_test_memory_tracking() {
    let mut device = CudaDevice::new(0).unwrap();
    let initial_free = device.free_memory();

    device.track_allocation(1024);
    assert_eq!(device.allocated_memory(), 1024);
    assert_eq!(device.free_memory(), initial_free - 1024);

    device.track_deallocation(512);
    assert_eq!(device.allocated_memory(), 512);
}

#[test]
fn test_device_memory() {
    let mut device = CudaDevice::new(0).unwrap();
    let mem = DeviceMemory::allocate(&mut device, 1024).unwrap();

    assert_eq!(mem.size(), 1024);
    assert_eq!(device.allocated_memory(), 1024);

    mem.release(&mut device);
    assert_eq!(device.allocated_memory(), 0);
}

#[test]
fn device_memory_out_of_memory() {
    let mut device = CudaDevice::new(0).unwrap();
    let total = device.total_memory();
    match DeviceMemory::allocate(&mut device, total + 1) {
        Err(e) => assert_eq!(
            e.message(),
            format!("Out of GPU memory: requested {} bytes, available {} bytes", total + 1, total)
        ),
        Ok(_) => panic!("allocation beyond the device succeeded"),
    }
    assert_eq!(device.allocated_memory(), 0);
}

#[test]
fn test_host_memory() {
    let mem = HostMemory::allocate(1024).unwrap();
    assert_eq!(mem.size(), 1024);
    assert_eq!(mem.as_slice().len(), 1024);
    assert_eq!(mem.into_vec(), vec![0u8; 1024]);
}

#[test]
fn test_pinned_memory() {
    let device = CudaDevice::new(0).unwrap();
    let mem = PinnedMemory::allocate(&device, 1024).unwrap();
    assert_eq!(mem.size(), 1024);
}

#[test]
fn cuda_error_constructors() {
    assert_eq!(CudaError::out_of_memory(5, 3).message(), "Out of GPU memory: requested 5 bytes, available 3 bytes");
    assert_eq!(CudaError::driver("boom".to_string()).message(), "CUDA driver error: boom");
    assert_eq!(CudaError::transfer("late".to_string()).message(), "Memory transfer failed: late");
    assert_eq!(CudaError::InvalidDevice(-3).message(), "Invalid device ID: -3");
}

#[test]
fn test_create_stream() {
    let mut ids = StreamIds::new();
    let stream = CudaStream::new(0, StreamPriority::Normal, &mut ids).unwrap();

    assert!(!stream.is_default());
    assert_eq!(stream.priority(), StreamPriority::Normal);
    assert_eq!(stream.id(), 0);
    assert_eq!(ids.next, 1);
}

#[test]
fn test_default_stream() {
    let stream = CudaStream::default_stream(0).unwrap();
    assert!(stream.is_default());
    assert_eq!(stream.id(), 0);
}

#[test]
fn test_stream_pool() {
    let mut ids = StreamIds::new();
    let mut pool = StreamPool::new(0, 4);

    let stream1 = pool.get(&mut ids).unwrap();
    let stream2 = pool.get(&mut ids).unwrap();

    assert_eq!(pool.size(), 0);

    pool.put(stream1);
    assert_eq!(pool.size(), 1);

    pool.put(stream2);
    assert_eq!(pool.size(), 2);

    let s = pool.get(&mut ids).unwrap();
    assert_eq!(pool.size(), 1);
    assert_eq!(s.id(), 1);
}

#[test]
fn stream_pool_drops_beyond_capacity() {
    let mut ids = StreamIds::new();
    let mut pool = StreamPool::new(0, 1);
    let a = pool.get(&mut ids).unwrap();
    let b = pool.get(&mut ids).unwrap();
    pool.put(a);
    pool.put(b);
    assert_eq!(pool.size(), 1);
}

#[test]
fn test_stream_synchronize() {
    let mut ids = StreamIds::new();
    let mut stream = CudaStream::new(0, StreamPriority::Normal, &mut ids).unwrap();

    stream.synchronize().unwrap();
    assert_eq!(stream.stats().synchronizations, 1);
    assert_eq!(StreamPriority::High.to_cuda_priority(), -1);
    assert_eq!(StreamPriority::Low.to_cuda_priority(), 1);
}

#[test]
fn test_transfer_engine_creation() {
    let engine = TransferEngine::new(0, StreamIds::new()).unwrap();

    assert_eq!(engine.pending_count(), 0);
    assert_eq!(engine.stats.total_transfers(), 0);
}

#[test]
fn test_h2d_transfer() {
    let mut device = CudaDevice::new(0).unwrap();
    let mut engine = TransferEngine::new(0, StreamIds::new()).unwrap();

    let src_data = vec![1u8, 2, 3, 4, 5, 6, 7, 8];
    let mut dst = DeviceMemory::allocate(&mut device, 1024).unwrap();

    engine.copy_h2d(&src_data, &mut dst).unwrap();

    assert_eq!(engine.stats.h2d_transfers, 1);
    assert_eq!(engine.stats.h2d_bytes, 8);
}

#[test]
fn transfer_size_checks_and_records() {
    let mut device = CudaDevice::new(0).unwrap();
    let mut engine = TransferEngine::new(0, StreamIds::new()).unwrap();
    let mut small = DeviceMemory::allocate(&mut device, 4).unwrap();
    match engine.copy_h2d(&[0u8; 8], &mut small) {
        Err(e) => assert_eq!(e.message(), "Memory transfer failed: Source larger than destination"),
        Ok(()) => panic!("oversized copy accepted"),
    }
    let mut host = [0u8; 2];
    assert!(engine.copy_d2h(&small, &mut host).is_err());

    let h = engine.copy_h2d_async(&[1u8, 2], &mut small, None).unwrap();
    assert_eq!(h.id(), 1);
    let h2 = engine.copy_d2h_async(&small, &mut [0u8; 4], None).unwrap();
    assert_eq!(h2.id(), 2);
    assert_eq!(engine.pending_count(), 2);
    assert_eq!(engine.stats.total_transfers(), 2);
    assert_eq!(engine.stats.total_bytes(), 6);
    engine.cleanup_completed();
    assert_eq!(engine.pending_count(), 0);
}
