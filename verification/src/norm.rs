//! Normalization layers (LayerNorm, RMSNorm): the shape check on their input,
//! the allocation of their output, and the size of their weights.

use vstd::prelude::*;
use crate::buffer::{GpuBuffer, bytes_of, product_fits, shape_product};
use crate::cuda_error::CudaError;
use crate::device::CudaDevice;
use crate::text::{debug_list, decimal, push_debug_list, push_decimal};
use crate::types::DType;

verus! {

/// Normalization errors.
#[derive(Debug)]
pub enum NormError {
    /// Invalid tensor shape.
    InvalidShape(String),
    /// Allocation failed.
    AllocationFailed(String),
    /// Kernel execution failed.
    ExecutionFailed(String),
}

impl NormError {
    /// The text the error displays.
    pub open spec fn message_spec(&self) -> Seq<char> {
        match self {
            NormError::InvalidShape(m) => "Invalid tensor shape: "@ + m@,
            NormError::AllocationFailed(m) => "Allocation failed: "@ + m@,
            NormError::ExecutionFailed(m) => "Kernel execution failed: "@ + m@,
        }
    }

    /// The error's message, as its `Display` writes it.
    pub fn message(&self) -> (r: String)
        ensures
            r@ == self.message_spec(),
    {
        let mut s = String::new();
        proof {
            reveal_strlit("Invalid tensor shape: ");
            reveal_strlit("Allocation failed: ");
            reveal_strlit("Kernel execution failed: ");
        }
        match self {
            NormError::InvalidShape(m) => {
                s.append("Invalid tensor shape: ");
                s.append(m.as_str());
            },
            NormError::AllocationFailed(m) => {
                s.append("Allocation failed: ");
                s.append(m.as_str());
            },
            NormError::ExecutionFailed(m) => {
                s.append("Kernel execution failed: ");
                s.append(m.as_str());
            },
        }
        s
    }
}

/// The input of a normalization over `hidden_dim` features is accepted when
/// its last dimension is `hidden_dim`.
pub open spec fn norm_shape_ok(shape: Seq<usize>, hidden_dim: usize) -> bool {
    shape.len() > 0 && shape.last() == hidden_dim
}

/// The message of a refused input shape.
pub open spec fn last_dim_message(hidden_dim: usize, shape: Seq<usize>) -> Seq<char> {
    "Last dimension must be "@ + decimal(hidden_dim as nat) + ", got "@ + debug_list(shape)
}

/// The bytes of an output of the input's shape.
pub open spec fn output_bytes(shape: Seq<usize>, dtype: DType) -> int {
    bytes_of(shape_product(shape), dtype)
}

/// Check the input shape of a normalization.
fn check_last_dim(shape: &[usize], hidden_dim: usize) -> (r: Result<(), NormError>)
    ensures
        r is Ok <==> norm_shape_ok(shape@, hidden_dim),
        r matches Err(e) ==> e matches NormError::InvalidShape(m) && m@ == last_dim_message(
            hidden_dim,
            shape@,
        ),
{
    if shape.len() == 0 || shape[shape.len() - 1] != hidden_dim {
        proof {
            reveal_strlit("Last dimension must be ");
            reveal_strlit(", got ");
        }
        let mut m = String::new();
        m.append("Last dimension must be ");
        push_decimal(&mut m, hidden_dim as u64);
        m.append(", got ");
        push_debug_list(&mut m, shape);
        assert(m@ =~= last_dim_message(hidden_dim, shape@));
        return Err(NormError::InvalidShape(m));
    }
    Ok(())
}

/// Allocate an output buffer of the input's shape, mapping the device error.
fn allocate_output(device: &mut CudaDevice, dtype: DType, shape: &[usize]) -> (r: Result<
    GpuBuffer,
    NormError,
>)
    requires
        product_fits(shape@),
        output_bytes(shape@, dtype) <= usize::MAX,
    ensures
        r is Ok <==> output_bytes(shape@, dtype) <= old(device).spec_free(),
        r matches Ok(b) ==> b.spec_state_id() is None && b.spec_dtype() == dtype && b.spec_shape()
            == shape@ && b.spec_memory().spec_size() == output_bytes(shape@, dtype)
            && final(device).allocated() == old(device).allocated() + output_bytes(shape@, dtype),
        r matches Err(e) ==> e matches NormError::AllocationFailed(m) && m@ == (
        CudaError::OutOfMemory {
            requested: output_bytes(shape@, dtype) as u64,
            available: old(device).spec_free(),
        }).message_spec() && final(device).allocated() == old(device).allocated(),
        final(device).spec_index() == old(device).spec_index(),
        final(device).spec_info() == old(device).spec_info(),
{
    match GpuBuffer::allocate(device, dtype, shape) {
        Ok(out) => Ok(out),
        Err(e) => Err(NormError::AllocationFailed(e.message())),
    }
}

/// Layer normalization kernel.
#[derive(Debug)]
pub struct LayerNormKernel {
    hidden_dim: usize,
    dtype: DType,
    device: i32,
}

impl LayerNormKernel {
    /// Hidden dimension.
    pub closed spec fn spec_hidden_dim(&self) -> usize {
        self.hidden_dim
    }

    /// Data type.
    pub closed spec fn spec_dtype(&self) -> DType {
        self.dtype
    }

    /// Device index.
    pub closed spec fn spec_device(&self) -> i32 {
        self.device
    }

    /// Create a new LayerNorm kernel.
    pub fn new(device: i32, hidden_dim: usize, dtype: DType) -> (r: Self)
        ensures
            r.spec_hidden_dim() == hidden_dim,
            r.spec_dtype() == dtype,
            r.spec_device() == device,
    {
        LayerNormKernel { hidden_dim, dtype, device }
    }

    /// Forward pass, LayerNorm(x) = (x - mean) / sqrt(var + eps) * weight
    /// + bias: the input's last dimension must be the hidden dimension;
    /// the output, of the input's shape, is allocated on the device.
    pub fn forward(
        &self,
        device: &mut CudaDevice,
        input: &GpuBuffer,
        weight: &GpuBuffer,
        bias: Option<&GpuBuffer>,
    ) -> (r: Result<GpuBuffer, NormError>)
        requires
            product_fits(input.spec_shape()),
            output_bytes(input.spec_shape(), self.spec_dtype()) <= usize::MAX,
        ensures
            !norm_shape_ok(input.spec_shape(), self.spec_hidden_dim()) ==> (r matches Err(
                NormError::InvalidShape(m),
            ) && m@ == last_dim_message(self.spec_hidden_dim(), input.spec_shape())),
            norm_shape_ok(input.spec_shape(), self.spec_hidden_dim()) ==> (r is Ok <==> output_bytes(
                input.spec_shape(),
                self.spec_dtype(),
            ) <= old(device).spec_free()),
            r matches Ok(out) ==> out.spec_shape() == input.spec_shape() && out.spec_dtype()
                == self.spec_dtype() && out.spec_state_id() is None
                && final(device).allocated() == old(device).allocated() + output_bytes(
                input.spec_shape(),
                self.spec_dtype(),
            ),
            r matches Err(NormError::AllocationFailed(m)) ==> m@ == (CudaError::OutOfMemory {
                requested: output_bytes(input.spec_shape(), self.spec_dtype()) as u64,
                available: old(device).spec_free(),
            }).message_spec(),
            r is Err ==> final(device).allocated() == old(device).allocated(),
            final(device).spec_index() == old(device).spec_index(),
    {
        match check_last_dim(input.shape(), self.hidden_dim) {
            Ok(()) => {},
            Err(e) => {
                return Err(e);
            },
        }
        allocate_output(device, self.dtype, input.shape())
    }

    /// Weight size in bytes: hidden dimension times the element size.
    pub fn weight_size(&self) -> (r: usize)
        requires
            self.spec_hidden_dim() * self.spec_dtype().spec_size_bytes() <= usize::MAX,
        ensures
            r == self.spec_hidden_dim() * self.spec_dtype().spec_size_bytes(),
    {
        self.hidden_dim * self.dtype.size_bytes()
    }
}

/// RMS normalization kernel.
#[derive(Debug)]
pub struct RmsNormKernel {
    hidden_dim: usize,
    dtype: DType,
    device: i32,
}

impl RmsNormKernel {
    /// Hidden dimension.
    pub closed spec fn spec_hidden_dim(&self) -> usize {
        self.hidden_dim
    }

    /// Data type.
    pub closed spec fn spec_dtype(&self) -> DType {
        self.dtype
    }

    /// Device index.
    pub closed spec fn spec_device(&self) -> i32 {
        self.device
    }

    /// Create a new RMSNorm kernel.
    pub fn new(device: i32, hidden_dim: usize, dtype: DType) -> (r: Self)
        ensures
            r.spec_hidden_dim() == hidden_dim,
            r.spec_dtype() == dtype,
            r.spec_device() == device,
    {
        RmsNormKernel { hidden_dim, dtype, device }
    }

    /// Forward pass, RMSNorm(x) = x / sqrt(mean(x^2) + eps) * weight: the
    /// input's last dimension must be the hidden dimension; the output, of
    /// the input's shape, is allocated on the device.
    pub fn forward(&self, device: &mut CudaDevice, input: &GpuBuffer, weight: &GpuBuffer) -> (r:
        Result<GpuBuffer, NormError>)
        requires
            product_fits(input.spec_shape()),
            output_bytes(input.spec_shape(), self.spec_dtype()) <= usize::MAX,
        ensures
            !norm_shape_ok(input.spec_shape(), self.spec_hidden_dim()) ==> (r matches Err(
                NormError::InvalidShape(m),
            ) && m@ == last_dim_message(self.spec_hidden_dim(), input.spec_shape())),
            norm_shape_ok(input.spec_shape(), self.spec_hidden_dim()) ==> (r is Ok <==> output_bytes(
                input.spec_shape(),
                self.spec_dtype(),
            ) <= old(device).spec_free()),
            r matches Ok(out) ==> out.spec_shape() == input.spec_shape() && out.spec_dtype()
                == self.spec_dtype() && out.spec_state_id() is None
                && final(device).allocated() == old(device).allocated() + output_bytes(
                input.spec_shape(),
                self.spec_dtype(),
            ),
            r matches Err(NormError::AllocationFailed(m)) ==> m@ == (CudaError::OutOfMemory {
                requested: output_bytes(input.spec_shape(), self.spec_dtype()) as u64,
                available: old(device).spec_free(),
            }).message_spec(),
            r is Err ==> final(device).allocated() == old(device).allocated(),
            final(device).spec_index() == old(device).spec_index(),
    {
        match check_last_dim(input.shape(), self.hidden_dim) {
            Ok(()) => {},
            Err(e) => {
                return Err(e);
            },
        }
        allocate_output(device, self.dtype, input.shape())
    }

    /// Fused RMSNorm and residual add: allocates the normalized output and
    /// the new residual (`input + residual`), both of the input's shape.
    /// The input's shape is not checked. When the second allocation fails
    /// the first buffer's memory is given back.
    pub fn forward_with_residual(
        &self,
        device: &mut CudaDevice,
        input: &GpuBuffer,
        residual: &GpuBuffer,
        weight: &GpuBuffer,
    ) -> (r: Result<(GpuBuffer, GpuBuffer), NormError>)
        requires
            product_fits(input.spec_shape()),
            output_bytes(input.spec_shape(), self.spec_dtype()) <= usize::MAX,
        ensures
            r is Ok <==> 2 * output_bytes(input.spec_shape(), self.spec_dtype()) <= old(
                device,
            ).spec_free(),
            r matches Ok((normed, new_residual)) ==> normed.spec_shape() == input.spec_shape()
                && normed.spec_dtype() == self.spec_dtype() && new_residual.spec_shape()
                == input.spec_shape() && new_residual.spec_dtype() == self.spec_dtype()
                && final(device).allocated() == old(device).allocated() + 2 * output_bytes(
                input.spec_shape(),
                self.spec_dtype(),
            ),
            r matches Err(e) ==> e matches NormError::AllocationFailed(m) && (m@ == (
            CudaError::OutOfMemory {
                requested: output_bytes(input.spec_shape(), self.spec_dtype()) as u64,
                available: old(device).spec_free(),
            }).message_spec() || m@ == (CudaError::OutOfMemory {
                requested: output_bytes(input.spec_shape(), self.spec_dtype()) as u64,
                available: (old(device).spec_free() - output_bytes(
                    input.spec_shape(),
                    self.spec_dtype(),
                )) as u64,
            }).message_spec()),
            r is Err ==> final(device).allocated() == old(device).allocated(),
            final(device).spec_index() == old(device).spec_index(),
    {
        let normed = match allocate_output(device, self.dtype, input.shape()) {
            Ok(b) => b,
            Err(e) => {
                return Err(e);
            },
        };
        let new_residual = match allocate_output(device, self.dtype, input.shape()) {
            Ok(b) => b,
            Err(e) => {
                normed.release(device);
                return Err(e);
            },
        };
        Ok((normed, new_residual))
    }

    /// Weight size in bytes: hidden dimension times the element size.
    pub fn weight_size(&self) -> (r: usize)
        requires
            self.spec_hidden_dim() * self.spec_dtype().spec_size_bytes() <= usize::MAX,
        ensures
            r == self.spec_hidden_dim() * self.spec_dtype().spec_size_bytes(),
    {
        self.hidden_dim * self.dtype.size_bytes()
    }
}

} // verus!
