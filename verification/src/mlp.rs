//! Feed-forward (MLP) layers: their configuration, weight and activation
//! sizes, and the checks and output allocation of a forward pass.

use vstd::prelude::*;
use crate::buffer::{GpuBuffer, bytes_of, product_fits, shape_product};
use crate::cuda_error::CudaError;
use crate::device::CudaDevice;
use crate::types::DType;

verus! {

/// Activation function.
#[derive(Debug, Clone, Copy, PartialEq, Eq, Structural)]
pub enum Activation {
    /// GELU activation.
    Gelu,
    /// ReLU activation.
    Relu,
    /// SiLU / Swish activation.
    Silu,
    /// Squared ReLU.
    ReluSquared,
}

/// MLP configuration.
#[derive(Debug, Clone, Copy, PartialEq, Eq, Structural)]
pub struct MlpConfig {
    /// Hidden dimension (input/output).
    pub hidden_dim: usize,
    /// Intermediate dimension (usually 4x hidden).
    pub intermediate_dim: usize,
    /// Data type.
    pub dtype: DType,
    /// Activation function.
    pub activation: Activation,
    /// Whether to use gated activation (SwiGLU, GeGLU).
    pub gated: bool,
}

impl MlpConfig {
    /// Standard MLP: FP16, GELU, not gated.
    pub fn standard(hidden_dim: usize, intermediate_dim: usize) -> (r: Self)
        ensures
            r == (MlpConfig {
                hidden_dim,
                intermediate_dim,
                dtype: DType::Float16,
                activation: Activation::Gelu,
                gated: false,
            }),
    {
        MlpConfig {
            hidden_dim,
            intermediate_dim,
            dtype: DType::Float16,
            activation: Activation::Gelu,
            gated: false,
        }
    }

    /// SwiGLU MLP (LLaMA style): FP16, SiLU, gated.
    pub fn swiglu(hidden_dim: usize, intermediate_dim: usize) -> (r: Self)
        ensures
            r == (MlpConfig {
                hidden_dim,
                intermediate_dim,
                dtype: DType::Float16,
                activation: Activation::Silu,
                gated: true,
            }),
    {
        MlpConfig {
            hidden_dim,
            intermediate_dim,
            dtype: DType::Float16,
            activation: Activation::Silu,
            gated: true,
        }
    }

    /// Number of up projections: two when gated (gate and up), else one.
    pub open spec fn projections(&self) -> int {
        if self.gated {
            2
        } else {
            1
        }
    }

    /// Bytes of the up (and gate) projection weights.
    pub open spec fn spec_up_weight_size(&self) -> int {
        self.hidden_dim * self.intermediate_dim * self.projections()
            * self.dtype.spec_size_bytes()
    }

    /// Bytes of the down projection weights.
    pub open spec fn spec_down_weight_size(&self) -> int {
        self.intermediate_dim * self.hidden_dim * self.dtype.spec_size_bytes()
    }

    /// The up weight size fits in a `usize` at every step.
    pub open spec fn up_fits(&self) -> bool {
        &&& self.hidden_dim * self.intermediate_dim <= usize::MAX
        &&& self.hidden_dim * self.intermediate_dim * self.projections() <= usize::MAX
        &&& self.spec_up_weight_size() <= usize::MAX
    }

    /// The down weight size fits in a `usize` at every step.
    pub open spec fn down_fits(&self) -> bool {
        &&& self.intermediate_dim * self.hidden_dim <= usize::MAX
        &&& self.spec_down_weight_size() <= usize::MAX
    }

    /// Up projection weight size in bytes.
    pub fn up_weight_size(&self) -> (r: usize)
        requires
            self.up_fits(),
        ensures
            r == self.spec_up_weight_size(),
    {
        let num_projections: usize = if self.gated {
            2
        } else {
            1
        };
        self.hidden_dim * self.intermediate_dim * num_projections * self.dtype.size_bytes()
    }

    /// Down projection weight size in bytes.
    pub fn down_weight_size(&self) -> (r: usize)
        requires
            self.down_fits(),
        ensures
            r == self.spec_down_weight_size(),
    {
        self.intermediate_dim * self.hidden_dim * self.dtype.size_bytes()
    }

    /// Total weight size in bytes.
    pub fn total_weight_size(&self) -> (r: usize)
        requires
            self.up_fits(),
            self.down_fits(),
            self.spec_up_weight_size() + self.spec_down_weight_size() <= usize::MAX,
        ensures
            r == self.spec_up_weight_size() + self.spec_down_weight_size(),
    {
        self.up_weight_size() + self.down_weight_size()
    }

    /// Bytes of the intermediate activations for a batch.
    pub open spec fn spec_activation_memory(&self, batch_size: int, seq_len: int) -> int {
        batch_size * seq_len * self.intermediate_dim * self.dtype.spec_size_bytes()
    }

    /// Activation memory for a batch, in bytes.
    pub fn activation_memory(&self, batch_size: usize, seq_len: usize) -> (r: usize)
        requires
            batch_size * seq_len <= usize::MAX,
            batch_size * seq_len * self.intermediate_dim <= usize::MAX,
            self.spec_activation_memory(batch_size as int, seq_len as int) <= usize::MAX,
        ensures
            r == self.spec_activation_memory(batch_size as int, seq_len as int),
    {
        batch_size * seq_len * self.intermediate_dim * self.dtype.size_bytes()
    }
}

/// MLP kernel errors.
#[derive(Debug)]
pub enum MlpError {
    /// Invalid tensor shape.
    InvalidShape(String),
    /// Allocation failed.
    AllocationFailed(String),
    /// Kernel execution failed.
    ExecutionFailed(String),
}

impl MlpError {
    /// The text the error displays.
    pub open spec fn message_spec(&self) -> Seq<char> {
        match self {
            MlpError::InvalidShape(m) => "Invalid tensor shape: "@ + m@,
            MlpError::AllocationFailed(m) => "Allocation failed: "@ + m@,
            MlpError::ExecutionFailed(m) => "Kernel execution failed: "@ + m@,
        }
    }

    /// The error's message, as its `Display` writes it.
    pub fn message(&self) -> (r: String)
        ensures
            r@ == self.message_spec(),
    {
        let mut s = String::new();
        proof {
            reveal_strlit("Invalid tensor shape: ");
            reveal_strlit("Allocation failed: ");
            reveal_strlit("Kernel execution failed: ");
        }
        match self {
            MlpError::InvalidShape(m) => {
                s.append("Invalid tensor shape: ");
                s.append(m.as_str());
            },
            MlpError::AllocationFailed(m) => {
                s.append("Allocation failed: ");
                s.append(m.as_str());
            },
            MlpError::ExecutionFailed(m) => {
                s.append("Kernel execution failed: ");
                s.append(m.as_str());
            },
        }
        s
    }
}

/// MLP kernel for a device.
#[derive(Debug)]
pub struct MlpKernel {
    config: MlpConfig,
    device: i32,
}

impl MlpKernel {
    /// The configuration.
    pub closed spec fn spec_config(&self) -> MlpConfig {
        self.config
    }

    /// The device index.
    pub closed spec fn spec_device(&self) -> i32 {
        self.device
    }

    /// Create a new MLP kernel.
    pub fn new(device: i32, config: MlpConfig) -> (r: Self)
        ensures
            r.spec_config() == config,
            r.spec_device() == device,
    {
        MlpKernel { config, device }
    }

    /// Get configuration.
    pub fn config(&self) -> (r: &MlpConfig)
        ensures
            *r == self.spec_config(),
    {
        &self.config
    }

    /// Forward pass: the input must be 3-D ([batch, seq, hidden]) and a
    /// gated MLP needs a gate weight; the output, of the input's shape and
    /// the configured type, is allocated on the device.
    pub fn forward(
        &self,
        device: &mut CudaDevice,
        input: &GpuBuffer,
        up_weight: &GpuBuffer,
        down_weight: &GpuBuffer,
        gate_weight: Option<&GpuBuffer>,
    ) -> (r: Result<GpuBuffer, MlpError>)
        requires
            product_fits(input.spec_shape()),
            bytes_of(shape_product(input.spec_shape()), self.spec_config().dtype) <= usize::MAX,
        ensures
            input.spec_shape().len() != 3 ==> (r matches Err(MlpError::InvalidShape(m)) && m@
                == "Expected 3D input [batch, seq, hidden]"@),
            input.spec_shape().len() == 3 && self.spec_config().gated && gate_weight is None ==> (
            r matches Err(MlpError::InvalidShape(m)) && m@ == "Gated MLP requires gate weight"@),
            input.spec_shape().len() == 3 && !(self.spec_config().gated && gate_weight is None) ==> (
            r is Ok <==> bytes_of(shape_product(input.spec_shape()), self.spec_config().dtype)
                <= old(device).spec_free()),
            r matches Ok(out) ==> out.spec_shape() == input.spec_shape() && out.spec_dtype()
                == self.spec_config().dtype && out.spec_state_id() is None,
            r matches Err(MlpError::AllocationFailed(m)) ==> m@ == (CudaError::OutOfMemory {
                requested: bytes_of(shape_product(input.spec_shape()), self.spec_config().dtype) as u64,
                available: old(device).spec_free(),
            }).message_spec(),
            r is Err ==> final(device).allocated() == old(device).allocated(),
            final(device).spec_index() == old(device).spec_index(),
    {
        if input.shape().len() != 3 {
            proof {
                reveal_strlit("Expected 3D input [batch, seq, hidden]");
            }
            return Err(MlpError::InvalidShape(String::from_str("Expected 3D input [batch, seq, hidden]")));
        }
        if self.config.gated && gate_weight.is_none() {
            proof {
                reveal_strlit("Gated MLP requires gate weight");
            }
            return Err(MlpError::InvalidShape(String::from_str("Gated MLP requires gate weight")));
        }
        match GpuBuffer::allocate(device, self.config.dtype, input.shape()) {
            Ok(out) => Ok(out),
            Err(e) => Err(MlpError::AllocationFailed(e.message())),
        }
    }

    /// Floating-point operations of a forward pass:
    /// tokens x hidden x intermediate x 2, times 3 when gated (two up
    /// projections and the down one) or 2 otherwise.
    pub open spec fn spec_flops(&self, batch_size: int, seq_len: int) -> int {
        batch_size * seq_len * self.spec_config().hidden_dim * self.spec_config().intermediate_dim
            * 2 * (if self.spec_config().gated {
            3int
        } else {
            2int
        })
    }

    /// Estimate FLOPs of a forward pass.
    pub fn estimate_flops(&self, batch_size: usize, seq_len: usize) -> (r: u64)
        requires
            batch_size * seq_len <= u64::MAX,
            batch_size * seq_len * self.spec_config().hidden_dim <= u64::MAX,
            batch_size * seq_len * self.spec_config().hidden_dim
                * self.spec_config().intermediate_dim <= u64::MAX,
            batch_size * seq_len * self.spec_config().hidden_dim
                * self.spec_config().intermediate_dim * 2 <= u64::MAX,
            self.spec_flops(batch_size as int, seq_len as int) <= u64::MAX,
        ensures
            r == self.spec_flops(batch_size as int, seq_len as int),
    {
        let tokens = batch_size as u64 * seq_len as u64;
        let hidden = self.config.hidden_dim as u64;
        let intermediate = self.config.intermediate_dim as u64;
        let multiplier: u64 = if self.config.gated {
            3
        } else {
            2
        };
        tokens * hidden * intermediate * 2 * multiplier
    }
}

} // verus!
