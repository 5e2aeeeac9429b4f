//! Memory allocations: device memory (counted against its device), host
//! pageable memory and host pinned memory.
//!
//! Device memory goes back to its device through `release`, which takes
//! the allocation by value.

use vstd::prelude::*;
use crate::cuda_error::CudaError;
use crate::device::CudaDevice;

verus! {

// =============================================================================
// Device Memory (GPU HBM)
// =============================================================================

/// A device memory allocation of a number of bytes.
#[derive(Debug)]
pub struct DeviceMemory {
    /// Index of the device this memory belongs to.
    device: i32,
    /// Size in bytes.
    size: u64,
}

impl DeviceMemory {
    /// Size in bytes.
    pub closed spec fn spec_size(&self) -> u64 {
        self.size
    }

    /// Index of the owning device.
    pub closed spec fn spec_device(&self) -> i32 {
        self.device
    }

    /// Allocate `size` bytes on a device: refused, with the requested and
    /// free bytes, when they do not fit in its free memory.
    pub fn allocate(device: &mut CudaDevice, size: u64) -> (r: Result<Self, CudaError>)
        ensures
            r is Ok == (size <= old(device).spec_free()),
            r matches Ok(m) ==> m.spec_size() == size && m.spec_device() == old(device).spec_index()
                && final(device).allocated() == old(device).allocated() + size,
            r matches Err(e) ==> e == (CudaError::OutOfMemory {
                requested: size,
                available: old(device).spec_free(),
            }) && final(device).allocated() == old(device).allocated(),
            final(device).spec_index() == old(device).spec_index(),
            final(device).spec_info() == old(device).spec_info(),
    {
        if !device.can_allocate(size) {
            return Err(CudaError::out_of_memory(size, device.free_memory()));
        }
        device.track_allocation(size);
        Ok(DeviceMemory { device: device.index(), size })
    }

    /// Give the memory back to its device.
    pub fn release(self, device: &mut CudaDevice)
        ensures
            final(device).allocated() == (if old(device).allocated() >= self.spec_size() {
                (old(device).allocated() - self.spec_size()) as u64
            } else {
                0
            }),
            final(device).spec_index() == old(device).spec_index(),
            final(device).spec_info() == old(device).spec_info(),
    {
        device.track_deallocation(self.size);
    }

    /// Get size in bytes.
    pub fn size(&self) -> (r: u64)
        ensures
            r == self.spec_size(),
    {
        self.size
    }

    /// Index of the device this memory belongs to.
    pub fn device(&self) -> (r: i32)
        ensures
            r == self.spec_device(),
    {
        self.device
    }
}

// =============================================================================
// Host Memory (CPU Pageable)
// =============================================================================

/// CPU pageable memory.
#[derive(Debug)]
pub struct HostMemory {
    /// Allocated data.
    data: Vec<u8>,
    /// Size in bytes.
    size: u64,
}

impl HostMemory {
    /// The bytes held.
    pub closed spec fn bytes(&self) -> Seq<u8> {
        self.data@
    }

    /// The recorded size.
    pub closed spec fn spec_size(&self) -> u64 {
        self.size
    }

    /// The recorded size is the number of bytes held.
    pub open spec fn wf(&self) -> bool {
        self.spec_size() == self.bytes().len()
    }

    /// Allocate `size` zeroed bytes.
    pub fn allocate(size: u64) -> (r: Result<Self, CudaError>)
        requires
            size <= usize::MAX,
        ensures
            r matches Ok(m) && m.wf() && m.spec_size() == size && m.bytes() == Seq::new(
                size as nat,
                |i: int| 0u8,
            ),
    {
        let mut data: Vec<u8> = Vec::new();
        let n = size as usize;
        let mut i: usize = 0;
        while i < n
            invariant
                i <= n,
                n == size,
                data@ == Seq::new(i as nat, |j: int| 0u8),
            decreases n - i,
        {
            data.push(0u8);
            i = i + 1;
            assert(data@ =~= Seq::new(i as nat, |j: int| 0u8));
        }
        Ok(HostMemory { data, size })
    }

    /// Create from existing data.
    pub fn from_vec(data: Vec<u8>) -> (r: Self)
        ensures
            r.wf(),
            r.bytes() == data@,
    {
        let size = data.len() as u64;
        HostMemory { data, size }
    }

    /// Get size in bytes.
    pub fn size(&self) -> (r: u64)
        ensures
            r == self.spec_size(),
    {
        self.size
    }

    /// Get data slice.
    pub fn as_slice(&self) -> (r: &[u8])
        ensures
            r@ == self.bytes(),
    {
        self.data.as_slice()
    }

    /// Get mutable data slice.
    pub fn as_mut_slice(&mut self) -> (r: &mut [u8])
        ensures
            r@ == old(self).bytes(),
            final(self).bytes() == final(r)@,
            final(self).spec_size() == old(self).spec_size(),
    {
        self.data.as_mut_slice()
    }

    /// Convert to the bytes, consuming the memory.
    pub fn into_vec(self) -> (r: Vec<u8>)
        ensures
            r@ == self.bytes(),
    {
        self.data
    }
}

// =============================================================================
// Pinned Memory (CPU Pinned for DMA)
// =============================================================================

/// CPU pinned (page-locked) memory; without a driver, ordinary host bytes.
#[derive(Debug)]
pub struct PinnedMemory {
    /// Size in bytes.
    size: u64,
    /// The bytes.
    data: Vec<u8>,
}

impl PinnedMemory {
    /// The bytes held.
    pub closed spec fn bytes(&self) -> Seq<u8> {
        self.data@
    }

    /// The recorded size.
    pub closed spec fn spec_size(&self) -> u64 {
        self.size
    }

    /// Allocate `size` zeroed pinned bytes for a device.
    pub fn allocate(device: &CudaDevice, size: u64) -> (r: Result<Self, CudaError>)
        requires
            size <= usize::MAX,
        ensures
            r matches Ok(m) && m.spec_size() == size && m.bytes() == Seq::new(
                size as nat,
                |i: int| 0u8,
            ),
    {
        let host = match HostMemory::allocate(size) {
            Ok(h) => h,
            Err(e) => {
                return Err(e);
            },
        };
        Ok(PinnedMemory { size, data: host.into_vec() })
    }

    /// Get size in bytes.
    pub fn size(&self) -> (r: u64)
        ensures
            r == self.spec_size(),
    {
        self.size
    }

    /// Get data slice.
    pub fn as_slice(&self) -> (r: &[u8])
        ensures
            r@ == self.bytes(),
    {
        self.data.as_slice()
    }

    /// Get mutable data slice.
    pub fn as_mut_slice(&mut self) -> (r: &mut [u8])
        ensures
            r@ == old(self).bytes(),
            final(self).bytes() == final(r)@,
            final(self).spec_size() == old(self).spec_size(),
    {
        self.data.as_mut_slice()
    }
}

/// Giving back a device allocation undoes it: a device that gained `size`
/// bytes through `DeviceMemory::allocate` and then lost them through
/// `DeviceMemory::release` counts what it counted before.
pub proof fn law_release_undoes_allocate(before: CudaDevice, mid: CudaDevice, after: CudaDevice, size: u64)
    requires
        mid.allocated() == before.allocated() + size,
        after.allocated() == (if mid.allocated() >= size {
            (mid.allocated() - size) as u64
        } else {
            0
        }),
    ensures
        after.allocated() == before.allocated(),
{
}

} // verus!
