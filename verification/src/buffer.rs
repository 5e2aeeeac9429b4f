//! Typed buffers: device or host memory with a data type, a shape and the
//! state they hold, and a registry of buffers by state.
//!
//! A buffer's element count is the product of its shape; its size is the
//! element count times the bytes per element.

use vstd::prelude::*;
use crate::cuda_error::CudaError;
use crate::device::CudaDevice;
use crate::memory::{DeviceMemory, HostMemory};
use crate::text::{decimal, push_decimal};
use crate::types::{DType, StateId};

verus! {

// =============================================================================
// Shapes
// =============================================================================

/// The product of the dimensions of a shape (1 for no dimension).
pub open spec fn shape_product(s: Seq<usize>) -> int
    decreases s.len(),
{
    if s.len() == 0 {
        1
    } else {
        shape_product(s.drop_last()) * s.last()
    }
}

/// Every partial product of the shape, taken left to right, fits in a
/// `usize` (multiplying them out overflows nowhere).
pub open spec fn product_fits(s: Seq<usize>) -> bool {
    forall|i: int| 0 <= i <= s.len() ==> #[trigger] shape_product(s.take(i)) <= usize::MAX
}

/// A product of dimensions is never negative.
pub proof fn lemma_product_nonneg(s: Seq<usize>)
    ensures
        shape_product(s) >= 0,
    decreases s.len(),
{
    if s.len() > 0 {
        lemma_product_nonneg(s.drop_last());
        assert(shape_product(s.drop_last()) * s.last() >= 0) by (nonlinear_arith)
            requires
                shape_product(s.drop_last()) >= 0,
        {
        }
    }
}

/// The number of elements of a shape.
pub fn numel_of(shape: &[usize]) -> (r: usize)
    requires
        product_fits(shape@),
    ensures
        r == shape_product(shape@),
{
    let mut p: usize = 1;
    let mut i: usize = 0;
    proof {
        assert(shape@.take(0) =~= Seq::<usize>::empty());
    }
    while i < shape.len()
        invariant
            i <= shape@.len(),
            product_fits(shape@),
            p == shape_product(shape@.take(i as int)),
        decreases shape@.len() - i,
    {
        proof {
            assert(shape@.take(i + 1).drop_last() =~= shape@.take(i as int));
            assert(shape_product(shape@.take(i + 1)) <= usize::MAX);
        }
        p = p * shape[i];
        i = i + 1;
    }
    proof {
        assert(shape@.take(i as int) =~= shape@);
    }
    p
}

/// A copy of a shape.
pub(crate) fn shape_to_vec(shape: &[usize]) -> (r: Vec<usize>)
    ensures
        r@ == shape@,
{
    let mut v: Vec<usize> = Vec::new();
    let mut i: usize = 0;
    while i < shape.len()
        invariant
            i <= shape@.len(),
            v@ == shape@.take(i as int),
        decreases shape@.len() - i,
    {
        v.push(shape[i]);
        i = i + 1;
        assert(v@ =~= shape@.take(i as int));
    }
    assert(shape@.take(i as int) =~= shape@);
    v
}

/// The message of a refused reshape.
pub open spec fn reshape_message(from: nat, to: nat) -> Seq<char> {
    "Cannot reshape "@ + decimal(from) + " elements to "@ + decimal(to) + " elements"@
}

/// The error of a refused reshape.
fn reshape_error(from: usize, to: usize) -> (r: CudaError)
    ensures
        r matches CudaError::InvalidBuffer(m) && m@ == reshape_message(from as nat, to as nat),
{
    let mut m = String::new();
    proof {
        reveal_strlit("Cannot reshape ");
        reveal_strlit(" elements to ");
        reveal_strlit(" elements");
    }
    m.append("Cannot reshape ");
    push_decimal(&mut m, from as u64);
    m.append(" elements to ");
    push_decimal(&mut m, to as u64);
    m.append(" elements");
    CudaError::InvalidBuffer(m)
}

/// The size in bytes of `numel` elements of a type.
pub open spec fn bytes_of(numel: int, dtype: DType) -> int {
    numel * dtype.spec_size_bytes()
}

// =============================================================================
// GPU Buffer
// =============================================================================

/// Device buffer with its state, data type, shape and memory.
#[derive(Debug)]
pub struct GpuBuffer {
    /// Associated state ID (if any).
    state_id: Option<StateId>,
    /// Data type.
    dtype: DType,
    /// Shape (dimensions).
    shape: Vec<usize>,
    /// Number of elements.
    numel: usize,
    /// Underlying device memory.
    memory: DeviceMemory,
}

impl GpuBuffer {
    /// The state the buffer holds, if any.
    pub closed spec fn spec_state_id(&self) -> Option<StateId> {
        self.state_id
    }

    /// The data type.
    pub closed spec fn spec_dtype(&self) -> DType {
        self.dtype
    }

    /// The shape.
    pub closed spec fn spec_shape(&self) -> Seq<usize> {
        self.shape@
    }

    /// The element count.
    pub closed spec fn spec_numel(&self) -> usize {
        self.numel
    }

    /// The device memory.
    pub closed spec fn spec_memory(&self) -> DeviceMemory {
        self.memory
    }

    /// Allocate a buffer of the given type and shape on a device: its size
    /// is the element count times the element size. Refused when that does
    /// not fit in the device's free memory.
    pub fn allocate(device: &mut CudaDevice, dtype: DType, shape: &[usize]) -> (r: Result<
        Self,
        CudaError,
    >)
        requires
            product_fits(shape@),
            bytes_of(shape_product(shape@), dtype) <= usize::MAX,
        ensures
            r is Ok == (bytes_of(shape_product(shape@), dtype) <= old(device).spec_free()),
            r matches Ok(b) ==> b.spec_state_id() is None && b.spec_dtype() == dtype
                && b.spec_shape() == shape@ && b.spec_numel() == shape_product(shape@)
                && b.spec_memory().spec_size() == bytes_of(shape_product(shape@), dtype)
                && b.spec_memory().spec_device() == old(device).spec_index()
                && final(device).allocated() == old(device).allocated() + bytes_of(
                shape_product(shape@),
                dtype,
            ),
            r matches Err(e) ==> e == (CudaError::OutOfMemory {
                requested: bytes_of(shape_product(shape@), dtype) as u64,
                available: old(device).spec_free(),
            }) && final(device).allocated() == old(device).allocated(),
            final(device).spec_index() == old(device).spec_index(),
            final(device).spec_info() == old(device).spec_info(),
    {
        let numel = numel_of(shape);
        proof {
            lemma_product_nonneg(shape@);
        }
        let size_bytes = (numel * dtype.size_bytes()) as u64;
        let memory = match DeviceMemory::allocate(device, size_bytes) {
            Ok(m) => m,
            Err(e) => {
                return Err(e);
            },
        };
        Ok(GpuBuffer { state_id: None, dtype, shape: shape_to_vec(shape), numel, memory })
    }

    /// Allocate a buffer holding a state.
    pub fn allocate_for_state(
        device: &mut CudaDevice,
        state_id: StateId,
        dtype: DType,
        shape: &[usize],
    ) -> (r: Result<Self, CudaError>)
        requires
            product_fits(shape@),
            bytes_of(shape_product(shape@), dtype) <= usize::MAX,
        ensures
            r is Ok == (bytes_of(shape_product(shape@), dtype) <= old(device).spec_free()),
            r matches Ok(b) ==> b.spec_state_id() == Some(state_id) && b.spec_dtype() == dtype
                && b.spec_shape() == shape@ && b.spec_numel() == shape_product(shape@)
                && b.spec_memory().spec_size() == bytes_of(shape_product(shape@), dtype)
                && final(device).allocated() == old(device).allocated() + bytes_of(
                shape_product(shape@),
                dtype,
            ),
            r matches Err(e) ==> e == (CudaError::OutOfMemory {
                requested: bytes_of(shape_product(shape@), dtype) as u64,
                available: old(device).spec_free(),
            }) && final(device).allocated() == old(device).allocated(),
            final(device).spec_index() == old(device).spec_index(),
            final(device).spec_info() == old(device).spec_info(),
    {
        let mut buffer = match Self::allocate(device, dtype, shape) {
            Ok(b) => b,
            Err(e) => {
                return Err(e);
            },
        };
        buffer.state_id = Some(state_id);
        Ok(buffer)
    }

    /// Get state ID.
    pub fn state_id(&self) -> (r: Option<&StateId>)
        ensures
            r == (match self.spec_state_id() {
                Some(id) => Some(&id),
                None => None,
            }),
    {
        match &self.state_id {
            Some(id) => Some(id),
            None => None,
        }
    }

    /// Set state ID.
    pub fn set_state_id(&mut self, id: StateId)
        ensures
            final(self).spec_state_id() == Some(id),
            final(self).spec_dtype() == old(self).spec_dtype(),
            final(self).spec_shape() == old(self).spec_shape(),
            final(self).spec_numel() == old(self).spec_numel(),
            final(self).spec_memory() == old(self).spec_memory(),
    {
        self.state_id = Some(id);
    }

    /// Get dtype.
    pub fn dtype(&self) -> (r: DType)
        ensures
            r == self.spec_dtype(),
    {
        self.dtype
    }

    /// Get shape.
    pub fn shape(&self) -> (r: &[usize])
        ensures
            r@ == self.spec_shape(),
    {
        self.shape.as_slice()
    }

    /// Get number of elements.
    pub fn numel(&self) -> (r: usize)
        ensures
            r == self.spec_numel(),
    {
        self.numel
    }

    /// Get size in bytes.
    pub fn size_bytes(&self) -> (r: u64)
        ensures
            r == self.spec_memory().spec_size(),
    {
        self.memory.size()
    }

    /// Get underlying memory.
    pub fn memory(&self) -> (r: &DeviceMemory)
        ensures
            *r == self.spec_memory(),
    {
        &self.memory
    }

    /// Get mutable underlying memory.
    pub fn memory_mut(&mut self) -> (r: &mut DeviceMemory)
        ensures
            *r == old(self).spec_memory(),
            final(self).spec_memory() == *final(r),
            final(self).spec_state_id() == old(self).spec_state_id(),
            final(self).spec_dtype() == old(self).spec_dtype(),
            final(self).spec_shape() == old(self).spec_shape(),
            final(self).spec_numel() == old(self).spec_numel(),
    {
        &mut self.memory
    }

    /// Index of the device the buffer lives on.
    pub fn device(&self) -> (r: i32)
        ensures
            r == self.spec_memory().spec_device(),
    {
        self.memory.device()
    }

    /// Reshape: the new shape must have the same element count.
    pub fn reshape(&mut self, new_shape: &[usize]) -> (r: Result<(), CudaError>)
        requires
            product_fits(new_shape@),
        ensures
            r is Ok == (shape_product(new_shape@) == old(self).spec_numel()),
            r is Ok ==> final(self).spec_shape() == new_shape@,
            r matches Err(e) ==> final(self).spec_shape() == old(self).spec_shape() && (
            e matches CudaError::InvalidBuffer(m) && m@ == reshape_message(
                old(self).spec_numel() as nat,
                shape_product(new_shape@) as nat,
            )),
            final(self).spec_state_id() == old(self).spec_state_id(),
            final(self).spec_dtype() == old(self).spec_dtype(),
            final(self).spec_numel() == old(self).spec_numel(),
            final(self).spec_memory() == old(self).spec_memory(),
    {
        let new_numel = numel_of(new_shape);
        if new_numel != self.numel {
            return Err(reshape_error(self.numel, new_numel));
        }
        self.shape = shape_to_vec(new_shape);
        Ok(())
    }

    /// A view with a different shape of the same element count (no copy).
    pub fn view(&self, new_shape: &[usize]) -> (r: Result<GpuBufferView<'_>, CudaError>)
        requires
            product_fits(new_shape@),
        ensures
            r is Ok == (shape_product(new_shape@) == self.spec_numel()),
            r matches Ok(v) ==> v.spec_shape() == new_shape@ && v.spec_buffer() == *self,
            r matches Err(e) ==> e matches CudaError::InvalidBuffer(m) && m@ == (
            "Cannot view "@ + decimal(self.spec_numel() as nat) + " elements as "@ + decimal(
                shape_product(new_shape@) as nat,
            ) + " elements"@),
    {
        let new_numel = numel_of(new_shape);
        if new_numel != self.numel {
            let mut m = String::new();
            proof {
                reveal_strlit("Cannot view ");
                reveal_strlit(" elements as ");
                reveal_strlit(" elements");
            }
            m.append("Cannot view ");
            push_decimal(&mut m, self.numel as u64);
            m.append(" elements as ");
            push_decimal(&mut m, new_numel as u64);
            m.append(" elements");
            return Err(CudaError::InvalidBuffer(m));
        }
        Ok(GpuBufferView { buffer: self, shape: shape_to_vec(new_shape) })
    }

    /// Give the buffer's memory back to its device.
    pub fn release(self, device: &mut CudaDevice)
        ensures
            final(device).allocated() == (if old(device).allocated() >= self.spec_memory().spec_size() {
                (old(device).allocated() - self.spec_memory().spec_size()) as u64
            } else {
                0
            }),
            final(device).spec_index() == old(device).spec_index(),
            final(device).spec_info() == old(device).spec_info(),
    {
        self.memory.release(device);
    }
}

/// View into a GPU buffer with a different shape.
#[derive(Debug)]
pub struct GpuBufferView<'a> {
    buffer: &'a GpuBuffer,
    shape: Vec<usize>,
}

impl<'a> GpuBufferView<'a> {
    /// The viewed buffer.
    pub closed spec fn spec_buffer(&self) -> GpuBuffer {
        *self.buffer
    }

    /// The view's shape.
    pub closed spec fn spec_shape(&self) -> Seq<usize> {
        self.shape@
    }

    /// The buffer's data type.
    pub fn dtype(&self) -> (r: DType)
        ensures
            r == self.spec_buffer().spec_dtype(),
    {
        self.buffer.dtype
    }

    /// The view's shape.
    pub fn shape(&self) -> (r: &[usize])
        ensures
            r@ == self.spec_shape(),
    {
        self.shape.as_slice()
    }

    /// The buffer's element count.
    pub fn numel(&self) -> (r: usize)
        ensures
            r == self.spec_buffer().spec_numel(),
    {
        self.buffer.numel
    }

    /// The buffer's memory.
    pub fn memory(&self) -> (r: &DeviceMemory)
        ensures
            *r == self.spec_buffer().spec_memory(),
    {
        &self.buffer.memory
    }
}

// =============================================================================
// CPU Buffer
// =============================================================================

/// Host buffer with its state, data type, shape and memory.
#[derive(Debug)]
pub struct CpuBuffer {
    /// Associated state ID (if any).
    state_id: Option<StateId>,
    /// Data type.
    dtype: DType,
    /// Shape (dimensions).
    shape: Vec<usize>,
    /// Number of elements.
    numel: usize,
    /// Underlying host memory.
    memory: HostMemory,
    /// Whether this is pinned memory.
    is_pinned: bool,
}

/// The message of data whose length does not match the shape.
pub open spec fn data_size_message(len: nat, expected: nat) -> Seq<char> {
    "Data size "@ + decimal(len) + " doesn't match expected "@ + decimal(expected) + " bytes"@
}

impl CpuBuffer {
    /// The state the buffer holds, if any.
    pub closed spec fn spec_state_id(&self) -> Option<StateId> {
        self.state_id
    }

    /// The data type.
    pub closed spec fn spec_dtype(&self) -> DType {
        self.dtype
    }

    /// The shape.
    pub closed spec fn spec_shape(&self) -> Seq<usize> {
        self.shape@
    }

    /// The element count.
    pub closed spec fn spec_numel(&self) -> usize {
        self.numel
    }

    /// The host memory.
    pub closed spec fn spec_memory(&self) -> HostMemory {
        self.memory
    }

    /// Whether the memory is pinned.
    pub closed spec fn spec_pinned(&self) -> bool {
        self.is_pinned
    }

    /// Allocate a zeroed buffer of the given type and shape.
    pub fn allocate(dtype: DType, shape: &[usize]) -> (r: Result<Self, CudaError>)
        requires
            product_fits(shape@),
            bytes_of(shape_product(shape@), dtype) <= usize::MAX,
        ensures
            r matches Ok(b) && b.spec_state_id() is None && b.spec_dtype() == dtype
                && b.spec_shape() == shape@ && b.spec_numel() == shape_product(shape@)
                && b.spec_memory().wf() && b.spec_memory().spec_size() == bytes_of(
                shape_product(shape@),
                dtype,
            ) && b.spec_memory().bytes() == Seq::new(
                bytes_of(shape_product(shape@), dtype) as nat,
                |i: int| 0u8,
            ) && !b.spec_pinned(),
    {
        let numel = numel_of(shape);
        proof {
            lemma_product_nonneg(shape@);
        }
        let size_bytes = (numel * dtype.size_bytes()) as u64;
        let memory = match HostMemory::allocate(size_bytes) {
            Ok(m) => m,
            Err(e) => {
                return Err(e);
            },
        };
        Ok(
            CpuBuffer {
                state_id: None,
                dtype,
                shape: shape_to_vec(shape),
                numel,
                memory,
                is_pinned: false,
            },
        )
    }

    /// Create from existing data, whose length must be the element count
    /// times the element size.
    pub fn from_data(dtype: DType, shape: &[usize], data: Vec<u8>) -> (r: Result<Self, CudaError>)
        requires
            product_fits(shape@),
            bytes_of(shape_product(shape@), dtype) <= usize::MAX,
        ensures
            r is Ok == (data@.len() == bytes_of(shape_product(shape@), dtype)),
            r matches Ok(b) ==> b.spec_state_id() is None && b.spec_dtype() == dtype
                && b.spec_shape() == shape@ && b.spec_numel() == shape_product(shape@)
                && b.spec_memory().wf() && b.spec_memory().bytes() == data@ && !b.spec_pinned(),
            r matches Err(e) ==> e matches CudaError::InvalidBuffer(m) && m@ == data_size_message(
                data@.len(),
                bytes_of(shape_product(shape@), dtype) as nat,
            ),
    {
        let numel = numel_of(shape);
        proof {
            lemma_product_nonneg(shape@);
        }
        let expected_bytes = numel * dtype.size_bytes();
        if data.len() != expected_bytes {
            let mut m = String::new();
            proof {
                reveal_strlit("Data size ");
                reveal_strlit(" doesn't match expected ");
                reveal_strlit(" bytes");
            }
            m.append("Data size ");
            push_decimal(&mut m, data.len() as u64);
            m.append(" doesn't match expected ");
            push_decimal(&mut m, expected_bytes as u64);
            m.append(" bytes");
            return Err(CudaError::InvalidBuffer(m));
        }
        Ok(
            CpuBuffer {
                state_id: None,
                dtype,
                shape: shape_to_vec(shape),
                numel,
                memory: HostMemory::from_vec(data),
                is_pinned: false,
            },
        )
    }

    /// Get state ID.
    pub fn state_id(&self) -> (r: Option<&StateId>)
        ensures
            r == (match self.spec_state_id() {
                Some(id) => Some(&id),
                None => None,
            }),
    {
        match &self.state_id {
            Some(id) => Some(id),
            None => None,
        }
    }

    /// Set state ID.
    pub fn set_state_id(&mut self, id: StateId)
        ensures
            final(self).spec_state_id() == Some(id),
            final(self).spec_dtype() == old(self).spec_dtype(),
            final(self).spec_shape() == old(self).spec_shape(),
            final(self).spec_numel() == old(self).spec_numel(),
            final(self).spec_memory() == old(self).spec_memory(),
            final(self).spec_pinned() == old(self).spec_pinned(),
    {
        self.state_id = Some(id);
    }

    /// Get dtype.
    pub fn dtype(&self) -> (r: DType)
        ensures
            r == self.spec_dtype(),
    {
        self.dtype
    }

    /// Get shape.
    pub fn shape(&self) -> (r: &[usize])
        ensures
            r@ == self.spec_shape(),
    {
        self.shape.as_slice()
    }

    /// Get number of elements.
    pub fn numel(&self) -> (r: usize)
        ensures
            r == self.spec_numel(),
    {
        self.numel
    }

    /// Get size in bytes.
    pub fn size_bytes(&self) -> (r: u64)
        ensures
            r == self.spec_memory().spec_size(),
    {
        self.memory.size()
    }

    /// Check if pinned.
    pub fn is_pinned(&self) -> (r: bool)
        ensures
            r == self.spec_pinned(),
    {
        self.is_pinned
    }

    /// Get data slice.
    pub fn as_slice(&self) -> (r: &[u8])
        ensures
            r@ == self.spec_memory().bytes(),
    {
        self.memory.as_slice()
    }

    /// Get mutable data slice.
    pub fn as_mut_slice(&mut self) -> (r: &mut [u8])
        ensures
            r@ == old(self).spec_memory().bytes(),
            final(self).spec_memory().bytes() == final(r)@,
            final(self).spec_memory().spec_size() == old(self).spec_memory().spec_size(),
            final(self).spec_state_id() == old(self).spec_state_id(),
            final(self).spec_dtype() == old(self).spec_dtype(),
            final(self).spec_shape() == old(self).spec_shape(),
            final(self).spec_numel() == old(self).spec_numel(),
    {
        self.memory.as_mut_slice()
    }

    /// Get underlying memory.
    pub fn memory(&self) -> (r: &HostMemory)
        ensures
            *r == self.spec_memory(),
    {
        &self.memory
    }

    /// Reshape: the new shape must have the same element count.
    pub fn reshape(&mut self, new_shape: &[usize]) -> (r: Result<(), CudaError>)
        requires
            product_fits(new_shape@),
        ensures
            r is Ok == (shape_product(new_shape@) == old(self).spec_numel()),
            r is Ok ==> final(self).spec_shape() == new_shape@,
            r matches Err(e) ==> final(self).spec_shape() == old(self).spec_shape() && (
            e matches CudaError::InvalidBuffer(m) && m@ == reshape_message(
                old(self).spec_numel() as nat,
                shape_product(new_shape@) as nat,
            )),
            final(self).spec_state_id() == old(self).spec_state_id(),
            final(self).spec_dtype() == old(self).spec_dtype(),
            final(self).spec_numel() == old(self).spec_numel(),
            final(self).spec_memory() == old(self).spec_memory(),
            final(self).spec_pinned() == old(self).spec_pinned(),
    {
        let new_numel = numel_of(new_shape);
        if new_numel != self.numel {
            return Err(reshape_error(self.numel, new_numel));
        }
        self.shape = shape_to_vec(new_shape);
        Ok(())
    }
}

} // verus!

verus! {

// =============================================================================
// Buffer Registry
// =============================================================================

/// The state a device buffer holds, as text (empty when it holds none).
pub open spec fn gpu_key(b: GpuBuffer) -> Seq<char> {
    match b.spec_state_id() {
        Some(id) => id@,
        None => Seq::empty(),
    }
}

/// The state a host buffer holds, as text (empty when it holds none).
pub open spec fn cpu_key(b: CpuBuffer) -> Seq<char> {
    match b.spec_state_id() {
        Some(id) => id@,
        None => Seq::empty(),
    }
}

/// Sum of the sizes of device buffers.
pub open spec fn gpu_bytes(s: Seq<GpuBuffer>) -> int
    decreases s.len(),
{
    if s.len() == 0 {
        0
    } else {
        gpu_bytes(s.drop_last()) + s.last().spec_memory().spec_size()
    }
}

/// Sum of the sizes of host buffers.
pub open spec fn cpu_bytes(s: Seq<CpuBuffer>) -> int
    decreases s.len(),
{
    if s.len() == 0 {
        0
    } else {
        cpu_bytes(s.drop_last()) + s.last().spec_memory().spec_size()
    }
}

/// Registry of buffers by the state they hold: at most one device buffer
/// and one host buffer per state.
#[derive(Debug)]
pub struct BufferRegistry {
    /// Device buffers, each holding a state.
    gpu_buffers: Vec<GpuBuffer>,
    /// Host buffers, each holding a state.
    cpu_buffers: Vec<CpuBuffer>,
}

impl BufferRegistry {
    /// The device buffers registered, in registration order.
    pub closed spec fn gpu(&self) -> Seq<GpuBuffer> {
        self.gpu_buffers@
    }

    /// The host buffers registered, in registration order.
    pub closed spec fn cpu(&self) -> Seq<CpuBuffer> {
        self.cpu_buffers@
    }

    /// Every registered buffer holds a state, and no state has two buffers
    /// of a kind.
    pub open spec fn wf(&self) -> bool {
        &&& forall|i: int| 0 <= i < self.gpu().len() ==> (#[trigger] self.gpu()[i]).spec_state_id() is Some
        &&& forall|i: int, j: int|
            0 <= i < j < self.gpu().len() ==> gpu_key(self.gpu()[i]) != gpu_key(self.gpu()[j])
        &&& forall|i: int| 0 <= i < self.cpu().len() ==> (#[trigger] self.cpu()[i]).spec_state_id() is Some
        &&& forall|i: int, j: int|
            0 <= i < j < self.cpu().len() ==> cpu_key(self.cpu()[i]) != cpu_key(self.cpu()[j])
    }

    /// Create an empty registry.
    pub fn new() -> (r: Self)
        ensures
            r.wf(),
            r.gpu().len() == 0,
            r.cpu().len() == 0,
    {
        BufferRegistry { gpu_buffers: Vec::new(), cpu_buffers: Vec::new() }
    }

    /// Position of the device buffer holding `id`.
    fn gpu_index(&self, id: &StateId) -> (r: Option<usize>)
        requires
            self.wf(),
        ensures
            r matches Some(i) ==> i < self.gpu().len() && gpu_key(self.gpu()[i as int]) == id@,
            r is None ==> forall|i: int| 0 <= i < self.gpu().len() ==> gpu_key(self.gpu()[i]) != id@,
    {
        let mut i: usize = 0;
        while i < self.gpu_buffers.len()
            invariant
                self.wf(),
                i <= self.gpu().len(),
                forall|j: int| 0 <= j < i ==> gpu_key(self.gpu()[j]) != id@,
            decreases self.gpu().len() - i,
        {
            assert(self.gpu()[i as int].spec_state_id() is Some);
            match self.gpu_buffers[i].state_id() {
                Some(s) => {
                    if s.same(id) {
                        return Some(i);
                    }
                },
                None => {},
            }
            i = i + 1;
        }
        None
    }

    /// Position of the host buffer holding `id`.
    fn cpu_index(&self, id: &StateId) -> (r: Option<usize>)
        requires
            self.wf(),
        ensures
            r matches Some(i) ==> i < self.cpu().len() && cpu_key(self.cpu()[i as int]) == id@,
            r is None ==> forall|i: int| 0 <= i < self.cpu().len() ==> cpu_key(self.cpu()[i]) != id@,
    {
        let mut i: usize = 0;
        while i < self.cpu_buffers.len()
            invariant
                self.wf(),
                i <= self.cpu().len(),
                forall|j: int| 0 <= j < i ==> cpu_key(self.cpu()[j]) != id@,
            decreases self.cpu().len() - i,
        {
            assert(self.cpu()[i as int].spec_state_id() is Some);
            match self.cpu_buffers[i].state_id() {
                Some(s) => {
                    if s.same(id) {
                        return Some(i);
                    }
                },
                None => {},
            }
            i = i + 1;
        }
        None
    }

    /// Register a device buffer under the state it holds, replacing any
    /// buffer registered for that state; a buffer holding no state is not
    /// registered (and `None` is returned).
    pub fn register_gpu(&mut self, buffer: GpuBuffer) -> (r: Option<StateId>)
        requires
            old(self).wf(),
        ensures
            final(self).wf(),
            final(self).cpu() == old(self).cpu(),
            match buffer.spec_state_id() {
                None => r is None && final(self).gpu() == old(self).gpu(),
                Some(id) => r == Some(id) && final(self).gpu() == old(self).gpu().filter(|b: GpuBuffer| gpu_key(b) != id@).push(buffer),
            },
    {
        let id = match buffer.state_id() {
            Some(s) => s.clone(),
            None => {
                return None;
            },
        };
        let ghost before = self.gpu();
        match self.gpu_index(&id) {
            Some(i) => {
                let _replaced = self.gpu_buffers.remove(i);
                proof {
                    lemma_filter_drop_unique_gpu(before, i as int, id@);
                    assert forall|a: int| 0 <= a < self.gpu().len() implies gpu_key(
                        #[trigger] self.gpu()[a],
                    ) != id@ by {
                        if a < i {
                            assert(self.gpu()[a] == before[a]);
                            assert(gpu_key(before[a]) != gpu_key(before[i as int]));
                        } else {
                            assert(self.gpu()[a] == before[a + 1]);
                            assert(gpu_key(before[i as int]) != gpu_key(before[a + 1]));
                        }
                    }
                }
            },
            None => {
                proof {
                    lemma_filter_keep_all_gpu(before, id@);
                }
            },
        }
        let ghost kept = self.gpu();
        self.gpu_buffers.push(buffer);
        proof {
            assert(self.gpu() =~= kept.push(buffer));
            assert(self.gpu().drop_last() =~= kept);
            assert forall|i: int, j: int| 0 <= i < j < self.gpu().len() implies gpu_key(self.gpu()[i])
                != gpu_key(self.gpu()[j]) by {
                assert(self.gpu()[i] == kept[i]);
                if j < self.gpu().len() - 1 {
                    assert(self.gpu()[j] == kept[j]);
                }
            }
            assert forall|i: int| 0 <= i < self.gpu().len() implies (#[trigger] self.gpu()[i]).spec_state_id() is Some by {
                if i < self.gpu().len() - 1 {
                    assert(self.gpu()[i] == kept[i]);
                }
            }
        }
        Some(id)
    }

    /// Register a host buffer under the state it holds, replacing any
    /// buffer registered for that state; a buffer holding no state is not
    /// registered (and `None` is returned).
    pub fn register_cpu(&mut self, buffer: CpuBuffer) -> (r: Option<StateId>)
        requires
            old(self).wf(),
        ensures
            final(self).wf(),
            final(self).gpu() == old(self).gpu(),
            match buffer.spec_state_id() {
                None => r is None && final(self).cpu() == old(self).cpu(),
                Some(id) => r == Some(id) && final(self).cpu() == old(self).cpu().filter(|b: CpuBuffer| cpu_key(b) != id@).push(buffer),
            },
    {
        let id = match buffer.state_id() {
            Some(s) => s.clone(),
            None => {
                return None;
            },
        };
        let ghost before = self.cpu();
        match self.cpu_index(&id) {
            Some(i) => {
                let _replaced = self.cpu_buffers.remove(i);
                proof {
                    lemma_filter_drop_unique_cpu(before, i as int, id@);
                    assert forall|a: int| 0 <= a < self.cpu().len() implies cpu_key(
                        #[trigger] self.cpu()[a],
                    ) != id@ by {
                        if a < i {
                            assert(self.cpu()[a] == before[a]);
                            assert(cpu_key(before[a]) != cpu_key(before[i as int]));
                        } else {
                            assert(self.cpu()[a] == before[a + 1]);
                            assert(cpu_key(before[i as int]) != cpu_key(before[a + 1]));
                        }
                    }
                }
            },
            None => {
                proof {
                    lemma_filter_keep_all_cpu(before, id@);
                }
            },
        }
        let ghost kept = self.cpu();
        self.cpu_buffers.push(buffer);
        proof {
            assert(self.cpu() =~= kept.push(buffer));
            assert(self.cpu().drop_last() =~= kept);
            assert forall|i: int, j: int| 0 <= i < j < self.cpu().len() implies cpu_key(self.cpu()[i])
                != cpu_key(self.cpu()[j]) by {
                assert(self.cpu()[i] == kept[i]);
                if j < self.cpu().len() - 1 {
                    assert(self.cpu()[j] == kept[j]);
                }
            }
            assert forall|i: int| 0 <= i < self.cpu().len() implies (#[trigger] self.cpu()[i]).spec_state_id() is Some by {
                if i < self.cpu().len() - 1 {
                    assert(self.cpu()[i] == kept[i]);
                }
            }
        }
        Some(id)
    }

    /// Take the device buffer of a state out of the registry.
    pub fn remove_gpu(&mut self, id: &StateId) -> (r: Option<GpuBuffer>)
        requires
            old(self).wf(),
        ensures
            final(self).wf(),
            final(self).cpu() == old(self).cpu(),
            final(self).gpu() == old(self).gpu().filter(|b: GpuBuffer| gpu_key(b) != id@),
            r matches Some(b) ==> gpu_key(b) == id@ && old(self).gpu().contains(b),
            r is None ==> forall|i: int| 0 <= i < old(self).gpu().len() ==> gpu_key(old(self).gpu()[i]) != id@,
    {
        let ghost before = self.gpu();
        match self.gpu_index(id) {
            Some(i) => {
                let b = self.gpu_buffers.remove(i);
                proof {
                    lemma_filter_drop_unique_gpu(before, i as int, id@);
                    assert(before[i as int] == b);
                }
                Some(b)
            },
            None => {
                proof {
                    lemma_filter_keep_all_gpu(before, id@);
                }
                None
            },
        }
    }

    /// Take the host buffer of a state out of the registry.
    pub fn remove_cpu(&mut self, id: &StateId) -> (r: Option<CpuBuffer>)
        requires
            old(self).wf(),
        ensures
            final(self).wf(),
            final(self).gpu() == old(self).gpu(),
            final(self).cpu() == old(self).cpu().filter(|b: CpuBuffer| cpu_key(b) != id@),
            r matches Some(b) ==> cpu_key(b) == id@ && old(self).cpu().contains(b),
            r is None ==> forall|i: int| 0 <= i < old(self).cpu().len() ==> cpu_key(old(self).cpu()[i]) != id@,
    {
        let ghost before = self.cpu();
        match self.cpu_index(id) {
            Some(i) => {
                let b = self.cpu_buffers.remove(i);
                proof {
                    lemma_filter_drop_unique_cpu(before, i as int, id@);
                    assert(before[i as int] == b);
                }
                Some(b)
            },
            None => {
                proof {
                    lemma_filter_keep_all_cpu(before, id@);
                }
                None
            },
        }
    }

    /// Get a device buffer: it is taken out of the registry.
    pub fn get_gpu(&mut self, id: &StateId) -> (r: Option<GpuBuffer>)
        requires
            old(self).wf(),
        ensures
            final(self).wf(),
            final(self).cpu() == old(self).cpu(),
            final(self).gpu() == old(self).gpu().filter(|b: GpuBuffer| gpu_key(b) != id@),
            r matches Some(b) ==> gpu_key(b) == id@ && old(self).gpu().contains(b),
            r is None ==> forall|i: int| 0 <= i < old(self).gpu().len() ==> gpu_key(old(self).gpu()[i]) != id@,
    {
        self.remove_gpu(id)
    }

    /// Get a host buffer: it is taken out of the registry.
    pub fn get_cpu(&mut self, id: &StateId) -> (r: Option<CpuBuffer>)
        requires
            old(self).wf(),
        ensures
            final(self).wf(),
            final(self).gpu() == old(self).gpu(),
            final(self).cpu() == old(self).cpu().filter(|b: CpuBuffer| cpu_key(b) != id@),
            r matches Some(b) ==> cpu_key(b) == id@ && old(self).cpu().contains(b),
            r is None ==> forall|i: int| 0 <= i < old(self).cpu().len() ==> cpu_key(old(self).cpu()[i]) != id@,
    {
        self.remove_cpu(id)
    }

    /// Whether a device buffer is registered for a state.
    pub fn has_gpu(&self, id: &StateId) -> (r: bool)
        requires
            self.wf(),
        ensures
            r == exists|i: int| 0 <= i < self.gpu().len() && gpu_key(self.gpu()[i]) == id@,
    {
        self.gpu_index(id).is_some()
    }

    /// Whether a host buffer is registered for a state.
    pub fn has_cpu(&self, id: &StateId) -> (r: bool)
        requires
            self.wf(),
        ensures
            r == exists|i: int| 0 <= i < self.cpu().len() && cpu_key(self.cpu()[i]) == id@,
    {
        self.cpu_index(id).is_some()
    }

    /// Total bytes of the registered device buffers.
    pub fn gpu_memory_used(&self) -> (r: u64)
        requires
            forall|k: int| 0 <= k <= self.gpu().len() ==> #[trigger] gpu_bytes(self.gpu().take(k)) <= u64::MAX,
        ensures
            r == gpu_bytes(self.gpu()),
    {
        let mut total: u64 = 0;
        let mut i: usize = 0;
        while i < self.gpu_buffers.len()
            invariant
                i <= self.gpu().len(),
                total == gpu_bytes(self.gpu().take(i as int)),
                forall|k: int| 0 <= k <= self.gpu().len() ==> #[trigger] gpu_bytes(self.gpu().take(k)) <= u64::MAX,
            decreases self.gpu().len() - i,
        {
            proof {
                assert(self.gpu().take(i + 1).drop_last() =~= self.gpu().take(i as int));
                assert(gpu_bytes(self.gpu().take(i + 1)) <= u64::MAX);
            }
            total = total + self.gpu_buffers[i].size_bytes();
            i = i + 1;
        }
        proof {
            assert(self.gpu().take(i as int) =~= self.gpu());
        }
        total
    }

    /// Total bytes of the registered host buffers.
    pub fn cpu_memory_used(&self) -> (r: u64)
        requires
            forall|k: int| 0 <= k <= self.cpu().len() ==> #[trigger] cpu_bytes(self.cpu().take(k)) <= u64::MAX,
        ensures
            r == cpu_bytes(self.cpu()),
    {
        let mut total: u64 = 0;
        let mut i: usize = 0;
        while i < self.cpu_buffers.len()
            invariant
                i <= self.cpu().len(),
                total == cpu_bytes(self.cpu().take(i as int)),
                forall|k: int| 0 <= k <= self.cpu().len() ==> #[trigger] cpu_bytes(self.cpu().take(k)) <= u64::MAX,
            decreases self.cpu().len() - i,
        {
            proof {
                assert(self.cpu().take(i + 1).drop_last() =~= self.cpu().take(i as int));
                assert(cpu_bytes(self.cpu().take(i + 1)) <= u64::MAX);
            }
            total = total + self.cpu_buffers[i].size_bytes();
            i = i + 1;
        }
        proof {
            assert(self.cpu().take(i as int) =~= self.cpu());
        }
        total
    }
}

} // verus!

verus! {

proof fn lemma_filter_keep_all_gpu(s: Seq<GpuBuffer>, k: Seq<char>)
    requires
        forall|i: int| 0 <= i < s.len() ==> gpu_key(s[i]) != k,
    ensures
        s.filter(|b: GpuBuffer| gpu_key(b) != k) == s,
    decreases s.len(),
{
    reveal(Seq::filter);
    if s.len() > 0 {
        lemma_filter_keep_all_gpu(s.drop_last(), k);
        assert(s.drop_last().push(s.last()) =~= s);
    }
}

proof fn lemma_filter_drop_unique_gpu(s: Seq<GpuBuffer>, i: int, k: Seq<char>)
    requires
        0 <= i < s.len(),
        gpu_key(s[i]) == k,
        forall|a: int, b: int| 0 <= a < b < s.len() ==> gpu_key(s[a]) != gpu_key(s[b]),
    ensures
        s.filter(|b: GpuBuffer| gpu_key(b) != k) == s.remove(i),
    decreases s.len(),
{
    reveal(Seq::filter);
    if i == s.len() - 1 {
        lemma_filter_keep_all_gpu(s.drop_last(), k);
        assert(s.remove(i) =~= s.drop_last());
    } else {
        lemma_filter_drop_unique_gpu(s.drop_last(), i, k);
        assert(s.remove(i) =~= s.drop_last().remove(i).push(s.last()));
    }
}

proof fn lemma_filter_keep_all_cpu(s: Seq<CpuBuffer>, k: Seq<char>)
    requires
        forall|i: int| 0 <= i < s.len() ==> cpu_key(s[i]) != k,
    ensures
        s.filter(|b: CpuBuffer| cpu_key(b) != k) == s,
    decreases s.len(),
{
    reveal(Seq::filter);
    if s.len() > 0 {
        lemma_filter_keep_all_cpu(s.drop_last(), k);
        assert(s.drop_last().push(s.last()) =~= s);
    }
}

proof fn lemma_filter_drop_unique_cpu(s: Seq<CpuBuffer>, i: int, k: Seq<char>)
    requires
        0 <= i < s.len(),
        cpu_key(s[i]) == k,
        forall|a: int, b: int| 0 <= a < b < s.len() ==> cpu_key(s[a]) != cpu_key(s[b]),
    ensures
        s.filter(|b: CpuBuffer| cpu_key(b) != k) == s.remove(i),
    decreases s.len(),
{
    reveal(Seq::filter);
    if i == s.len() - 1 {
        lemma_filter_keep_all_cpu(s.drop_last(), k);
        assert(s.remove(i) =~= s.drop_last());
    } else {
        lemma_filter_drop_unique_cpu(s.drop_last(), i, k);
        assert(s.remove(i) =~= s.drop_last().remove(i).push(s.last()));
    }
}

} // verus!
