//! Device management: device information and the accounting of the memory
//! allocated on a device.
//!
//! Without a GPU driver the device is simulated: an 80 GiB device whose
//! allocations are only counted.

use vstd::prelude::*;
use crate::cuda_error::CudaError;
use crate::text::{push_signed, signed_decimal};

verus! {

/// Memory of the simulated device: 80 GiB.
pub const MOCK_TOTAL_MEMORY: u64 = 85899345920;

/// Information about a device. (The peak bandwidth in GB/s, a float, is
/// kept by the application.)
#[derive(Debug)]
pub struct DeviceInfo {
    /// Device index.
    pub index: i32,
    /// Device name.
    pub name: String,
    /// Total memory in bytes.
    pub total_memory: u64,
    /// Free memory in bytes.
    pub free_memory: u64,
    /// Compute capability (major, minor).
    pub compute_capability: (i32, i32),
    /// Number of SMs.
    pub sm_count: i32,
    /// Memory bus width in bits.
    pub memory_bus_width: i32,
    /// Memory clock rate in kHz.
    pub memory_clock_rate: i32,
}

impl Clone for DeviceInfo {
    fn clone(&self) -> (r: Self)
        ensures
            r == *self,
    {
        DeviceInfo {
            index: self.index,
            name: self.name.clone(),
            total_memory: self.total_memory,
            free_memory: self.free_memory,
            compute_capability: (self.compute_capability.0, self.compute_capability.1),
            sm_count: self.sm_count,
            memory_bus_width: self.memory_bus_width,
            memory_clock_rate: self.memory_clock_rate,
        }
    }
}

impl DeviceInfo {
    /// Async memory operations need compute capability 2.0 or later.
    pub fn supports_async_copy(&self) -> (r: bool)
        ensures
            r == (self.compute_capability.0 >= 2),
    {
        self.compute_capability.0 >= 2
    }

    /// Unified memory needs compute capability 3.0 or later.
    pub fn supports_unified_memory(&self) -> (r: bool)
        ensures
            r == (self.compute_capability.0 >= 3),
    {
        self.compute_capability.0 >= 3
    }

    /// Concurrent kernels need compute capability 2.0 or later.
    pub fn supports_concurrent_kernels(&self) -> (r: bool)
        ensures
            r == (self.compute_capability.0 >= 2),
    {
        self.compute_capability.0 >= 2
    }
}

/// A device handle with the bytes currently allocated on it.
#[derive(Debug)]
pub struct CudaDevice {
    /// Device index.
    index: i32,
    /// Device information.
    info: DeviceInfo,
    /// Bytes currently allocated.
    allocated_memory: u64,
}

impl CudaDevice {
    /// The device index.
    pub closed spec fn spec_index(&self) -> i32 {
        self.index
    }

    /// The device information.
    pub closed spec fn spec_info(&self) -> DeviceInfo {
        self.info
    }

    /// Bytes currently allocated.
    pub closed spec fn allocated(&self) -> u64 {
        self.allocated_memory
    }

    /// Total bytes of the device.
    pub open spec fn total(&self) -> u64 {
        self.spec_info().total_memory
    }

    /// Free bytes: total less allocated, or 0.
    pub open spec fn spec_free(&self) -> u64 {
        if self.allocated() <= self.total() {
            (self.total() - self.allocated()) as u64
        } else {
            0
        }
    }

    /// Initialize a (simulated) device: "Mock GPU <index>" with 80 GiB,
    /// compute capability 8.0, 108 SMs, a 5120-bit bus at 1215000 kHz,
    /// nothing allocated.
    pub fn new(device_index: i32) -> (r: Result<Self, CudaError>)
        ensures
            r matches Ok(d) && d.spec_index() == device_index && d.allocated() == 0 && d.spec_info().index
                == device_index && d.spec_info().name@ == "Mock GPU "@ + signed_decimal(
                device_index as int,
            ) && d.spec_info().total_memory == MOCK_TOTAL_MEMORY && d.spec_info().free_memory
                == MOCK_TOTAL_MEMORY && d.spec_info().compute_capability == (8i32, 0i32)
                && d.spec_info().sm_count == 108 && d.spec_info().memory_bus_width == 5120
                && d.spec_info().memory_clock_rate == 1215000,
    {
        let mut name = String::new();
        proof {
            reveal_strlit("Mock GPU ");
        }
        name.append("Mock GPU ");
        push_signed(&mut name, device_index);
        let info = DeviceInfo {
            index: device_index,
            name,
            total_memory: MOCK_TOTAL_MEMORY,
            free_memory: MOCK_TOTAL_MEMORY,
            compute_capability: (8, 0),
            sm_count: 108,
            memory_bus_width: 5120,
            memory_clock_rate: 1215000,
        };
        Ok(CudaDevice { index: device_index, info, allocated_memory: 0 })
    }

    /// Get device index.
    pub fn index(&self) -> (r: i32)
        ensures
            r == self.spec_index(),
    {
        self.index
    }

    /// Get device information.
    pub fn info(&self) -> (r: &DeviceInfo)
        ensures
            *r == self.spec_info(),
    {
        &self.info
    }

    /// Get total memory.
    pub fn total_memory(&self) -> (r: u64)
        ensures
            r == self.total(),
    {
        self.info.total_memory
    }

    /// Get current free memory: total less allocated, or 0.
    pub fn free_memory(&self) -> (r: u64)
        ensures
            r == self.spec_free(),
    {
        self.info.total_memory.saturating_sub(self.allocated_memory)
    }

    /// Get allocated memory.
    pub fn allocated_memory(&self) -> (r: u64)
        ensures
            r == self.allocated(),
    {
        self.allocated_memory
    }

    /// Count an allocation of `bytes`.
    pub fn track_allocation(&mut self, bytes: u64)
        requires
            old(self).allocated() + bytes <= u64::MAX,
        ensures
            final(self).allocated() == old(self).allocated() + bytes,
            final(self).spec_index() == old(self).spec_index(),
            final(self).spec_info() == old(self).spec_info(),
    {
        self.allocated_memory = self.allocated_memory + bytes;
    }

    /// Count a deallocation of `bytes` (never below zero).
    pub fn track_deallocation(&mut self, bytes: u64)
        ensures
            final(self).allocated() == (if old(self).allocated() >= bytes {
                (old(self).allocated() - bytes) as u64
            } else {
                0
            }),
            final(self).spec_index() == old(self).spec_index(),
            final(self).spec_info() == old(self).spec_info(),
    {
        self.allocated_memory = self.allocated_memory.saturating_sub(bytes);
    }

    /// Check if an allocation of `bytes` fits in the free memory.
    pub fn can_allocate(&self, bytes: u64) -> (r: bool)
        ensures
            r == (bytes <= self.spec_free()),
    {
        bytes <= self.free_memory()
    }

    /// Synchronize the device (nothing to wait for without a driver).
    pub fn synchronize(&self) -> (r: Result<(), CudaError>)
        ensures
            r is Ok,
    {
        Ok(())
    }
}

/// Number of available devices: one simulated device.
pub fn device_count() -> (r: Result<i32, CudaError>)
    ensures
        r matches Ok(n) && n == 1,
{
    Ok(1)
}

/// Every available device, in index order.
pub fn get_all_devices() -> (r: Result<Vec<CudaDevice>, CudaError>)
    ensures
        r matches Ok(ds) && ds@.len() == 1 && forall|i: int|
            0 <= i < ds@.len() ==> ds@[i].spec_index() == i && ds@[i].allocated() == 0,
{
    let count = match device_count() {
        Ok(c) => c,
        Err(e) => {
            return Err(e);
        },
    };
    let mut devices: Vec<CudaDevice> = Vec::new();
    let mut i: i32 = 0;
    while i < count
        invariant
            count == 1,
            0 <= i <= count,
            devices@.len() == i,
            forall|j: int|
                0 <= j < devices@.len() ==> devices@[j].spec_index() == j && devices@[j].allocated()
                    == 0,
        decreases count - i,
    {
        match CudaDevice::new(i) {
            Ok(d) => devices.push(d),
            Err(e) => {
                return Err(e);
            },
        }
        i = i + 1;
    }
    Ok(devices)
}

} // verus!
