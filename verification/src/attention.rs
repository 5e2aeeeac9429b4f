//! Attention layers: configuration (multi-head, grouped-query and
//! multi-query), the input checks and output allocation of prefill and
//! decode, cost estimates, and per-layer KV caches.
//!
//! The softmax scale and dropout rate (floats) are kept by the caller.

use vstd::prelude::*;
use crate::buffer::{GpuBuffer, bytes_of, lemma_product_nonneg, product_fits, shape_product};
use crate::cuda_error::CudaError;
use crate::device::CudaDevice;
use crate::text::{decimal, push_decimal};
use crate::types::{DType, LayerId};

verus! {

/// Attention configuration.
#[derive(Debug, Clone, Copy, PartialEq, Eq, Structural)]
pub struct AttentionConfig {
    /// Number of attention heads.
    pub num_heads: usize,
    /// Number of KV heads (for GQA; equals num_heads for MHA).
    pub num_kv_heads: usize,
    /// Dimension per head.
    pub head_dim: usize,
    /// Hidden dimension (num_heads * head_dim).
    pub hidden_dim: usize,
    /// Maximum sequence length.
    pub max_seq_len: usize,
    /// Data type.
    pub dtype: DType,
    /// Whether to use causal masking.
    pub causal: bool,
    /// Layer ID (for state management).
    pub layer_id: Option<LayerId>,
}

impl AttentionConfig {
    /// Grouped-query attention: FP16, causal, no layer.
    pub fn gqa(num_heads: usize, num_kv_heads: usize, head_dim: usize, max_seq_len: usize) -> (r: Self)
        requires
            num_heads * head_dim <= usize::MAX,
        ensures
            r == (AttentionConfig {
                num_heads,
                num_kv_heads,
                head_dim,
                hidden_dim: (num_heads * head_dim) as usize,
                max_seq_len,
                dtype: DType::Float16,
                causal: true,
                layer_id: None,
            }),
    {
        AttentionConfig {
            num_heads,
            num_kv_heads,
            head_dim,
            hidden_dim: num_heads * head_dim,
            max_seq_len,
            dtype: DType::Float16,
            causal: true,
            layer_id: None,
        }
    }

    /// Standard multi-head attention: as many KV heads as heads.
    pub fn mha(num_heads: usize, head_dim: usize, max_seq_len: usize) -> (r: Self)
        requires
            num_heads * head_dim <= usize::MAX,
        ensures
            r == (AttentionConfig {
                num_heads,
                num_kv_heads: num_heads,
                head_dim,
                hidden_dim: (num_heads * head_dim) as usize,
                max_seq_len,
                dtype: DType::Float16,
                causal: true,
                layer_id: None,
            }),
    {
        Self::gqa(num_heads, num_heads, head_dim, max_seq_len)
    }

    /// Multi-query attention: a single KV head.
    pub fn mqa(num_heads: usize, head_dim: usize, max_seq_len: usize) -> (r: Self)
        requires
            num_heads * head_dim <= usize::MAX,
        ensures
            r == (AttentionConfig {
                num_heads,
                num_kv_heads: 1,
                head_dim,
                hidden_dim: (num_heads * head_dim) as usize,
                max_seq_len,
                dtype: DType::Float16,
                causal: true,
                layer_id: None,
            }),
    {
        Self::gqa(num_heads, 1, head_dim, max_seq_len)
    }

    /// Set layer ID.
    pub fn with_layer(self, layer_id: LayerId) -> (r: Self)
        ensures
            r == (AttentionConfig { layer_id: Some(layer_id), ..self }),
    {
        let mut c = self;
        c.layer_id = Some(layer_id);
        c
    }

    /// Grouped-query: fewer KV heads than heads, but more than one.
    pub fn is_gqa(&self) -> (r: bool)
        ensures
            r == (self.num_kv_heads < self.num_heads && self.num_kv_heads > 1),
    {
        self.num_kv_heads < self.num_heads && self.num_kv_heads > 1
    }

    /// Multi-query: a single KV head.
    pub fn is_mqa(&self) -> (r: bool)
        ensures
            r == (self.num_kv_heads == 1),
    {
        self.num_kv_heads == 1
    }

    /// KV cache bytes per token: key and value for every KV head.
    pub open spec fn spec_kv_size_per_token(&self) -> int {
        2 * self.num_kv_heads * self.head_dim * self.dtype.spec_size_bytes()
    }

    /// The per-token size fits in a `usize` at every step.
    pub open spec fn kv_fits(&self) -> bool {
        &&& 2 * self.num_kv_heads <= usize::MAX
        &&& 2 * self.num_kv_heads * self.head_dim <= usize::MAX
        &&& self.spec_kv_size_per_token() <= usize::MAX
    }

    /// Memory for KV cache per token, in bytes.
    pub fn kv_size_per_token(&self) -> (r: usize)
        requires
            self.kv_fits(),
        ensures
            r == self.spec_kv_size_per_token(),
    {
        2 * self.num_kv_heads * self.head_dim * self.dtype.size_bytes()
    }
}

/// Attention kernel errors.
#[derive(Debug)]
pub enum AttentionError {
    /// Invalid tensor shape.
    InvalidShape(String),
    /// Allocation failed.
    AllocationFailed(String),
    /// Kernel execution failed.
    ExecutionFailed(String),
    /// Unsupported configuration.
    Unsupported(String),
}

impl AttentionError {
    /// The text the error displays.
    pub open spec fn message_spec(&self) -> Seq<char> {
        match self {
            AttentionError::InvalidShape(m) => "Invalid tensor shape: "@ + m@,
            AttentionError::AllocationFailed(m) => "Allocation failed: "@ + m@,
            AttentionError::ExecutionFailed(m) => "Kernel execution failed: "@ + m@,
            AttentionError::Unsupported(m) => "Unsupported configuration: "@ + m@,
        }
    }

    /// The error's message, as its `Display` writes it.
    pub fn message(&self) -> (r: String)
        ensures
            r@ == self.message_spec(),
    {
        let mut s = String::new();
        proof {
            reveal_strlit("Invalid tensor shape: ");
            reveal_strlit("Allocation failed: ");
            reveal_strlit("Kernel execution failed: ");
            reveal_strlit("Unsupported configuration: ");
        }
        match self {
            AttentionError::InvalidShape(m) => {
                s.append("Invalid tensor shape: ");
                s.append(m.as_str());
            },
            AttentionError::AllocationFailed(m) => {
                s.append("Allocation failed: ");
                s.append(m.as_str());
            },
            AttentionError::ExecutionFailed(m) => {
                s.append("Kernel execution failed: ");
                s.append(m.as_str());
            },
            AttentionError::Unsupported(m) => {
                s.append("Unsupported configuration: ");
                s.append(m.as_str());
            },
        }
        s
    }
}

/// Output of an attention forward pass.
#[derive(Debug)]
pub struct AttentionOutput {
    /// Output tensor [batch, seq_len, hidden_dim].
    pub output: GpuBuffer,
    /// Updated K cache (if using KV cache).
    pub k_cache: Option<GpuBuffer>,
    /// Updated V cache (if using KV cache).
    pub v_cache: Option<GpuBuffer>,
    /// Attention weights (if requested).
    pub attention_weights: Option<GpuBuffer>,
}

/// The message of the first failing check of prefill inputs, if any:
/// 4-D tensors, matching batch and sequence, and the configured head
/// counts.
pub open spec fn prefill_check(c: AttentionConfig, q: Seq<usize>, k: Seq<usize>, v: Seq<usize>) -> Option<Seq<char>> {
    if q.len() != 4 || k.len() != 4 || v.len() != 4 {
        Some("Expected 4D tensors [batch, seq, heads, head_dim]"@)
    } else if q[0] != k[0] || q[0] != v[0] {
        Some("Batch dimensions must match"@)
    } else if q[1] != k[1] || q[1] != v[1] {
        Some("Sequence lengths must match for prefill"@)
    } else if q[2] != c.num_heads {
        Some("Expected "@ + decimal(c.num_heads as nat) + " Q heads, got "@ + decimal(q[2] as nat))
    } else if k[2] != c.num_kv_heads || v[2] != c.num_kv_heads {
        Some("Expected "@ + decimal(c.num_kv_heads as nat) + " KV heads"@)
    } else {
        None
    }
}

/// An allocation error of a kernel: the device's out-of-memory message.
pub open spec fn out_of_memory_text(requested: int, free: u64) -> Seq<char> {
    (CudaError::OutOfMemory { requested: requested as u64, available: free }).message_spec()
}

/// Attention kernel for a device.
#[derive(Debug)]
pub struct AttentionKernel {
    config: AttentionConfig,
    device: i32,
}

impl AttentionKernel {
    /// The configuration.
    pub closed spec fn spec_config(&self) -> AttentionConfig {
        self.config
    }

    /// The device index.
    pub closed spec fn spec_device(&self) -> i32 {
        self.device
    }

    /// Create a new attention kernel.
    pub fn new(device: i32, config: AttentionConfig) -> (r: Self)
        ensures
            r.spec_config() == config,
            r.spec_device() == device,
    {
        AttentionKernel { config, device }
    }

    /// Get configuration.
    pub fn config(&self) -> (r: &AttentionConfig)
        ensures
            *r == self.spec_config(),
    {
        &self.config
    }

    /// Check the inputs of a prefill pass.
    fn validate_prefill_inputs(&self, q: &GpuBuffer, k: &GpuBuffer, v: &GpuBuffer) -> (r: Result<
        (),
        AttentionError,
    >)
        ensures
            match prefill_check(self.spec_config(), q.spec_shape(), k.spec_shape(), v.spec_shape()) {
                Some(m) => r matches Err(AttentionError::InvalidShape(e)) && e@ == m,
                None => r is Ok,
            },
    {
        let q_shape = q.shape();
        let k_shape = k.shape();
        let v_shape = v.shape();
        if q_shape.len() != 4 || k_shape.len() != 4 || v_shape.len() != 4 {
            proof {
                reveal_strlit("Expected 4D tensors [batch, seq, heads, head_dim]");
            }
            return Err(
                AttentionError::InvalidShape(
                    String::from_str("Expected 4D tensors [batch, seq, heads, head_dim]"),
                ),
            );
        }
        if q_shape[0] != k_shape[0] || q_shape[0] != v_shape[0] {
            proof {
                reveal_strlit("Batch dimensions must match");
            }
            return Err(AttentionError::InvalidShape(String::from_str("Batch dimensions must match")));
        }
        if q_shape[1] != k_shape[1] || q_shape[1] != v_shape[1] {
            proof {
                reveal_strlit("Sequence lengths must match for prefill");
            }
            return Err(
                AttentionError::InvalidShape(String::from_str("Sequence lengths must match for prefill")),
            );
        }
        proof {
            reveal_strlit("Expected ");
            reveal_strlit(" Q heads, got ");
            reveal_strlit(" KV heads");
        }
        if q_shape[2] != self.config.num_heads {
            let mut m = String::new();
            m.append("Expected ");
            push_decimal(&mut m, self.config.num_heads as u64);
            m.append(" Q heads, got ");
            push_decimal(&mut m, q_shape[2] as u64);
            return Err(AttentionError::InvalidShape(m));
        }
        if k_shape[2] != self.config.num_kv_heads || v_shape[2] != self.config.num_kv_heads {
            let mut m = String::new();
            m.append("Expected ");
            push_decimal(&mut m, self.config.num_kv_heads as u64);
            m.append(" KV heads");
            return Err(AttentionError::InvalidShape(m));
        }
        Ok(())
    }

    /// Prefill: check the inputs, then allocate the output with the query's
    /// shape and the configured type.
    pub fn forward_prefill(
        &self,
        device: &mut CudaDevice,
        q: &GpuBuffer,
        k: &GpuBuffer,
        v: &GpuBuffer,
    ) -> (r: Result<AttentionOutput, AttentionError>)
        requires
            product_fits(q.spec_shape()),
            bytes_of(shape_product(q.spec_shape()), self.spec_config().dtype) <= usize::MAX,
        ensures
            match prefill_check(self.spec_config(), q.spec_shape(), k.spec_shape(), v.spec_shape()) {
                Some(m) => (r matches Err(AttentionError::InvalidShape(e)) && e@ == m)
                    && final(device).allocated() == old(device).allocated(),
                None => (r is Ok <==> bytes_of(shape_product(q.spec_shape()), self.spec_config().dtype)
                    <= old(device).spec_free()),
            },
            r matches Ok(out) ==> out.output.spec_shape() == q.spec_shape()
                && out.output.spec_dtype() == self.spec_config().dtype && out.k_cache is None
                && out.v_cache is None && out.attention_weights is None,
            r matches Err(AttentionError::AllocationFailed(m)) ==> m@ == out_of_memory_text(
                bytes_of(shape_product(q.spec_shape()), self.spec_config().dtype),
                old(device).spec_free(),
            ),
            r is Err ==> final(device).allocated() == old(device).allocated(),
            final(device).spec_index() == old(device).spec_index(),
    {
        match self.validate_prefill_inputs(q, k, v) {
            Ok(()) => {},
            Err(e) => {
                return Err(e);
            },
        }
        match GpuBuffer::allocate(device, self.config.dtype, q.shape()) {
            Ok(output) => Ok(
                AttentionOutput { output, k_cache: None, v_cache: None, attention_weights: None },
            ),
            Err(e) => Err(AttentionError::AllocationFailed(e.message())),
        }
    }

    /// Decode: the query must hold one token per sequence; the output, of
    /// the query's shape, is allocated on the device.
    pub fn forward_decode(
        &self,
        device: &mut CudaDevice,
        q: &GpuBuffer,
        k_cache: &mut GpuBuffer,
        v_cache: &mut GpuBuffer,
        new_k: &GpuBuffer,
        new_v: &GpuBuffer,
        cache_position: usize,
    ) -> (r: Result<AttentionOutput, AttentionError>)
        requires
            q.spec_shape().len() >= 2,
            product_fits(q.spec_shape()),
            bytes_of(shape_product(q.spec_shape()), self.spec_config().dtype) <= usize::MAX,
        ensures
            q.spec_shape()[1] != 1 ==> (r matches Err(AttentionError::InvalidShape(m)) && m@
                == "Decode expects seq_len=1 for query"@),
            q.spec_shape()[1] == 1 ==> (r is Ok <==> bytes_of(
                shape_product(q.spec_shape()),
                self.spec_config().dtype,
            ) <= old(device).spec_free()),
            r matches Ok(out) ==> out.output.spec_shape() == q.spec_shape()
                && out.output.spec_dtype() == self.spec_config().dtype,
            r is Err ==> final(device).allocated() == old(device).allocated(),
            *final(k_cache) == *old(k_cache),
            *final(v_cache) == *old(v_cache),
            final(device).spec_index() == old(device).spec_index(),
    {
        if q.shape()[1] != 1 {
            proof {
                reveal_strlit("Decode expects seq_len=1 for query");
            }
            return Err(AttentionError::InvalidShape(String::from_str("Decode expects seq_len=1 for query")));
        }
        match GpuBuffer::allocate(device, self.config.dtype, q.shape()) {
            Ok(output) => Ok(
                AttentionOutput { output, k_cache: None, v_cache: None, attention_weights: None },
            ),
            Err(e) => Err(AttentionError::AllocationFailed(e.message())),
        }
    }

    /// Approximate attention FLOPs: 4 x batch x seq^2 x hidden.
    pub open spec fn spec_flops(&self, batch_size: int, seq_len: int) -> int {
        4 * batch_size * seq_len * seq_len * self.spec_config().hidden_dim
    }

    /// Estimate FLOPs for a forward pass.
    pub fn estimate_flops(&self, batch_size: usize, seq_len: usize) -> (r: u64)
        requires
            4 * batch_size <= u64::MAX,
            4 * batch_size * seq_len <= u64::MAX,
            4 * batch_size * seq_len * seq_len <= u64::MAX,
            self.spec_flops(batch_size as int, seq_len as int) <= u64::MAX,
        ensures
            r == self.spec_flops(batch_size as int, seq_len as int),
    {
        4 * batch_size as u64 * seq_len as u64 * seq_len as u64 * self.config.hidden_dim as u64
    }

    /// Estimate KV cache bytes for a batch and sequence length.
    pub fn estimate_kv_memory(&self, batch_size: usize, seq_len: usize) -> (r: u64)
        requires
            self.spec_config().kv_fits(),
            batch_size * seq_len <= usize::MAX,
            batch_size * seq_len * self.spec_config().spec_kv_size_per_token() <= usize::MAX,
        ensures
            r == batch_size * seq_len * self.spec_config().spec_kv_size_per_token(),
    {
        (batch_size * seq_len * self.config.kv_size_per_token()) as u64
    }
}

// =============================================================================
// KV Cache
// =============================================================================

/// The shape of a layer's key (or value) cache.
pub open spec fn cache_shape(c: AttentionConfig, batch_size: usize, max_len: usize) -> Seq<usize> {
    seq![batch_size, max_len, c.num_kv_heads, c.head_dim]
}

/// KV cache for a single layer.
#[derive(Debug)]
pub struct LayerKvCache {
    /// Key cache [batch, max_seq_len, num_kv_heads, head_dim].
    pub k_cache: GpuBuffer,
    /// Value cache [batch, max_seq_len, num_kv_heads, head_dim].
    pub v_cache: GpuBuffer,
    /// Current sequence length.
    pub current_len: usize,
    /// Maximum sequence length.
    pub max_len: usize,
    /// Layer ID.
    pub layer_id: LayerId,
}

impl LayerKvCache {
    /// Allocate the key and value caches of a layer on a device, each of
    /// shape [batch, max_len, KV heads, head_dim]; empty. When the value
    /// cache does not fit, the key cache goes back to the device.
    pub fn new(
        device: &mut CudaDevice,
        config: &AttentionConfig,
        batch_size: usize,
        max_len: usize,
        layer_id: LayerId,
    ) -> (r: Result<Self, AttentionError>)
        requires
            product_fits(cache_shape(*config, batch_size, max_len)),
            bytes_of(shape_product(cache_shape(*config, batch_size, max_len)), config.dtype)
                <= usize::MAX,
        ensures
            ({
                let size = bytes_of(shape_product(cache_shape(*config, batch_size, max_len)), config.dtype);
                &&& r is Ok <==> 2 * size <= old(device).spec_free()
                &&& r matches Ok(c) ==> c.k_cache.spec_shape() == cache_shape(*config, batch_size, max_len)
                    && c.v_cache.spec_shape() == cache_shape(*config, batch_size, max_len)
                    && c.k_cache.spec_memory().spec_size() == size
                    && c.v_cache.spec_memory().spec_size() == size && c.current_len == 0 && c.max_len
                    == max_len && c.layer_id == layer_id && final(device).allocated()
                    == old(device).allocated() + 2 * size
                &&& r is Err ==> final(device).allocated() == old(device).allocated()
            }),
            final(device).spec_index() == old(device).spec_index(),
            final(device).spec_info() == old(device).spec_info(),
    {
        let shape = vec![batch_size, max_len, config.num_kv_heads, config.head_dim];
        assert(shape@ =~= cache_shape(*config, batch_size, max_len));
        let k_cache = match GpuBuffer::allocate(device, config.dtype, shape.as_slice()) {
            Ok(b) => b,
            Err(e) => {
                return Err(AttentionError::AllocationFailed(e.message()));
            },
        };
        let v_cache = match GpuBuffer::allocate(device, config.dtype, shape.as_slice()) {
            Ok(b) => b,
            Err(e) => {
                k_cache.release(device);
                return Err(AttentionError::AllocationFailed(e.message()));
            },
        };
        Ok(LayerKvCache { k_cache, v_cache, current_len: 0, max_len, layer_id })
    }

    /// Get current length.
    pub fn len(&self) -> (r: usize)
        ensures
            r == self.current_len,
    {
        self.current_len
    }

    /// Check if empty.
    pub fn is_empty(&self) -> (r: bool)
        ensures
            r == (self.current_len == 0),
    {
        self.current_len == 0
    }

    /// Check if full.
    pub fn is_full(&self) -> (r: bool)
        ensures
            r == (self.current_len >= self.max_len),
    {
        self.current_len >= self.max_len
    }

    /// Remaining capacity (never below zero).
    pub fn remaining(&self) -> (r: usize)
        ensures
            r == (if self.max_len >= self.current_len {
                self.max_len - self.current_len
            } else {
                0
            }),
    {
        self.max_len.saturating_sub(self.current_len)
    }

    /// Bytes of the two caches.
    pub open spec fn spec_memory_used(&self) -> int {
        self.k_cache.spec_memory().spec_size() + self.v_cache.spec_memory().spec_size()
    }

    /// Memory used by the two caches.
    pub fn memory_used(&self) -> (r: u64)
        requires
            self.spec_memory_used() <= u64::MAX,
        ensures
            r == self.spec_memory_used(),
    {
        self.k_cache.size_bytes() + self.v_cache.size_bytes()
    }
}

/// Sum of the memory of layer caches.
pub open spec fn layers_memory(ls: Seq<LayerKvCache>) -> int
    decreases ls.len(),
{
    if ls.len() == 0 {
        0
    } else {
        layers_memory(ls.drop_last()) + ls.last().spec_memory_used()
    }
}

proof fn lemma_layers_memory_nonneg(ls: Seq<LayerKvCache>)
    ensures
        layers_memory(ls) >= 0,
    decreases ls.len(),
{
    if ls.len() > 0 {
        lemma_layers_memory_nonneg(ls.drop_last());
    }
}

/// KV cache for all layers.
#[derive(Debug)]
pub struct KvCache {
    layers: Vec<LayerKvCache>,
    config: AttentionConfig,
}

impl KvCache {
    /// The layer caches, by layer.
    pub closed spec fn spec_layers(&self) -> Seq<LayerKvCache> {
        self.layers@
    }

    /// The configuration.
    pub closed spec fn spec_config(&self) -> AttentionConfig {
        self.config
    }

    /// Allocate the caches of `num_layers` layers (numbered from 0). When
    /// one does not fit, the caches allocated so far go back to the device.
    pub fn new(
        device: &mut CudaDevice,
        config: AttentionConfig,
        num_layers: usize,
        batch_size: usize,
        max_len: usize,
    ) -> (r: Result<Self, AttentionError>)
        requires
            product_fits(cache_shape(config, batch_size, max_len)),
            bytes_of(shape_product(cache_shape(config, batch_size, max_len)), config.dtype)
                <= usize::MAX,
        ensures
            ({
                let size = bytes_of(shape_product(cache_shape(config, batch_size, max_len)), config.dtype);
                &&& r is Ok <==> 2 * size * num_layers <= old(device).spec_free()
                &&& r matches Ok(c) ==> c.spec_layers().len() == num_layers && c.spec_config() == config
                    && final(device).allocated() == old(device).allocated() + 2 * size * num_layers
                    && forall|i: int|
                    0 <= i < num_layers ==> (#[trigger] c.spec_layers()[i]).layer_id == i as u32
                        && c.spec_layers()[i].current_len == 0 && c.spec_layers()[i].max_len == max_len
                        && c.spec_layers()[i].k_cache.spec_memory().spec_size() == size
                        && c.spec_layers()[i].v_cache.spec_memory().spec_size() == size
                &&& r is Err ==> final(device).allocated() == old(device).allocated()
            }),
            final(device).spec_index() == old(device).spec_index(),
    {
        let ghost size = bytes_of(shape_product(cache_shape(config, batch_size, max_len)), config.dtype);
        let ghost a0 = device.allocated();
        let ghost free0 = old(device).spec_free() as int;
        proof {
            lemma_product_nonneg(cache_shape(config, batch_size, max_len));
            assert(size >= 0) by (nonlinear_arith)
                requires
                    size == shape_product(cache_shape(config, batch_size, max_len)) * config.dtype.spec_size_bytes(),
                    shape_product(cache_shape(config, batch_size, max_len)) >= 0,
                    config.dtype.spec_size_bytes() >= 1,
            ;
        }
        let mut layers: Vec<LayerKvCache> = Vec::new();
        let mut i: usize = 0;
        while i < num_layers
            invariant
                i <= num_layers,
                size == bytes_of(shape_product(cache_shape(config, batch_size, max_len)), config.dtype),
                size >= 0,
                layers@.len() == i,
                layers_memory(layers@) == 2 * size * i,
                device.allocated() == a0 + 2 * size * i,
                2 * size * i <= free0,
                free0 == (if a0 <= device.total() { device.total() - a0 } else { 0 }),
                device.spec_index() == old(device).spec_index(),
                device.spec_info() == old(device).spec_info(),
                a0 == old(device).allocated(),
                product_fits(cache_shape(config, batch_size, max_len)),
                bytes_of(shape_product(cache_shape(config, batch_size, max_len)), config.dtype) <= usize::MAX,
                forall|j: int|
                    0 <= j < i ==> (#[trigger] layers@[j]).layer_id == j as u32 && layers@[j].current_len
                        == 0 && layers@[j].max_len == max_len
                        && layers@[j].k_cache.spec_memory().spec_size() == size
                        && layers@[j].v_cache.spec_memory().spec_size() == size,
            decreases num_layers - i,
        {
            proof {
                assert(2 * size * (i + 1) == 2 * size * i + 2 * size) by (nonlinear_arith);
            }
            let ghost alloc_before = device.allocated();
            let ghost total = device.total();
            match LayerKvCache::new(device, &config, batch_size, max_len, i as LayerId) {
                Ok(layer) => {
                    let ghost before = layers@;
                    layers.push(layer);
                    proof {
                        assert(layers@.drop_last() =~= before);
                        assert(device.total() == total);
                        assert(alloc_before == a0 + 2 * size * i);
                    }
                },
                Err(e) => {
                    proof {
                        assert(2 * size * num_layers >= 2 * size * (i + 1)) by (nonlinear_arith)
                            requires
                                size >= 0,
                                i + 1 <= num_layers,
                        ;
                    }
                    Self::release_layers(layers, device);
                    return Err(e);
                },
            }
            i = i + 1;
        }
        Ok(KvCache { layers, config })
    }

    /// Give the caches of `layers` back to the device.
    fn release_layers(layers: Vec<LayerKvCache>, device: &mut CudaDevice)
        requires
            old(device).allocated() >= layers_memory(layers@),
        ensures
            final(device).allocated() == old(device).allocated() - layers_memory(layers@),
            final(device).spec_index() == old(device).spec_index(),
            final(device).spec_info() == old(device).spec_info(),
    {
        let ghost all = layers@;
        let mut rest = layers;
        while rest.len() > 0
            invariant
                device.allocated() >= layers_memory(rest@),
                device.allocated() == old(device).allocated() - (layers_memory(all) - layers_memory(rest@)),
                device.spec_index() == old(device).spec_index(),
                device.spec_info() == old(device).spec_info(),
            decreases rest@.len(),
        {
            let ghost before = rest@;
            let l = rest.pop().unwrap();
            proof {
                assert(before.drop_last() =~= rest@);
                lemma_layers_memory_nonneg(rest@);
            }
            l.k_cache.release(device);
            l.v_cache.release(device);
        }
    }

    /// The cache of a layer.
    pub fn get(&self, layer_id: LayerId) -> (r: Option<&LayerKvCache>)
        ensures
            r == (if (layer_id as int) < self.spec_layers().len() {
                Some(&self.spec_layers()[layer_id as int])
            } else {
                None
            }),
    {
        let i = layer_id as usize;
        if i < self.layers.len() {
            Some(&self.layers[i])
        } else {
            None
        }
    }

    /// Total memory of all layer caches.
    pub fn total_memory(&self) -> (r: u64)
        requires
            forall|k: int| 0 <= k <= self.spec_layers().len() ==> #[trigger] layers_memory(self.spec_layers().take(k)) <= u64::MAX,
            forall|k: int| 0 <= k < self.spec_layers().len() ==> (#[trigger] self.spec_layers()[k]).spec_memory_used() <= u64::MAX,
        ensures
            r == layers_memory(self.spec_layers()),
    {
        let mut total: u64 = 0;
        let mut i: usize = 0;
        while i < self.layers.len()
            invariant
                i <= self.spec_layers().len(),
                total == layers_memory(self.spec_layers().take(i as int)),
                forall|k: int| 0 <= k <= self.spec_layers().len() ==> #[trigger] layers_memory(self.spec_layers().take(k)) <= u64::MAX,
                forall|k: int| 0 <= k < self.spec_layers().len() ==> (#[trigger] self.spec_layers()[k]).spec_memory_used() <= u64::MAX,
            decreases self.spec_layers().len() - i,
        {
            proof {
                assert(self.spec_layers().take(i + 1).drop_last() =~= self.spec_layers().take(i as int));
                assert(layers_memory(self.spec_layers().take(i + 1)) <= u64::MAX);
            }
            total = total + self.layers[i].memory_used();
            i = i + 1;
        }
        proof {
            assert(self.spec_layers().take(i as int) =~= self.spec_layers());
        }
        total
    }

    /// Number of layers.
    pub fn num_layers(&self) -> (r: usize)
        ensures
            r == self.spec_layers().len(),
    {
        self.layers.len()
    }
}

} // verus!
