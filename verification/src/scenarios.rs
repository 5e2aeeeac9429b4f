//! Benchmark scenarios: model configurations with their memory estimates,
//! and the parameter sets of the transfer, memory and inference
//! benchmarks.

use vstd::prelude::*;

verus! {

/// Whether an intermediate product fits in a `usize` (the estimates
/// overflow nowhere on their way to the result).
pub open spec fn fits(x: int) -> bool {
    0 <= x <= usize::MAX
}

/// Model configuration for benchmarks.
#[derive(Debug, Clone)]
pub struct ModelConfig {
    /// Model name (for identification).
    pub name: String,
    /// Number of layers.
    pub num_layers: usize,
    /// Hidden dimension.
    pub hidden_dim: usize,
    /// Number of attention heads.
    pub num_heads: usize,
    /// Number of KV heads (for GQA).
    pub num_kv_heads: usize,
    /// Head dimension.
    pub head_dim: usize,
    /// Intermediate dimension (FFN).
    pub intermediate_dim: usize,
    /// Vocabulary size.
    pub vocab_size: usize,
    /// Maximum sequence length.
    pub max_seq_len: usize,
    /// Is this a MoE model?
    pub is_moe: bool,
    /// Number of experts (if MoE).
    pub num_experts: Option<usize>,
    /// Top-K experts (if MoE).
    pub top_k_experts: Option<usize>,
}

impl ModelConfig {
    /// Whether the configuration has the given dimensions.
    pub open spec fn has_dims(
        &self,
        num_layers: usize,
        hidden_dim: usize,
        num_heads: usize,
        num_kv_heads: usize,
        head_dim: usize,
        intermediate_dim: usize,
        vocab_size: usize,
        max_seq_len: usize,
    ) -> bool {
        &&& self.num_layers == num_layers
        &&& self.hidden_dim == hidden_dim
        &&& self.num_heads == num_heads
        &&& self.num_kv_heads == num_kv_heads
        &&& self.head_dim == head_dim
        &&& self.intermediate_dim == intermediate_dim
        &&& self.vocab_size == vocab_size
        &&& self.max_seq_len == max_seq_len
    }

    /// LLaMA 7B configuration.
    pub fn llama_7b() -> (r: Self)
        ensures
            r.name@ == "LLaMA-7B"@,
            r.has_dims(32, 4096, 32, 32, 128, 11008, 32000, 4096),
            !r.is_moe,
            r.num_experts is None,
            r.top_k_experts is None,
    {
        ModelConfig {
            name: String::from_str("LLaMA-7B"),
            num_layers: 32,
            hidden_dim: 4096,
            num_heads: 32,
            num_kv_heads: 32,
            head_dim: 128,
            intermediate_dim: 11008,
            vocab_size: 32000,
            max_seq_len: 4096,
            is_moe: false,
            num_experts: None,
            top_k_experts: None,
        }
    }

    /// LLaMA 70B configuration (grouped-query attention).
    pub fn llama_70b() -> (r: Self)
        ensures
            r.name@ == "LLaMA-70B"@,
            r.has_dims(80, 8192, 64, 8, 128, 28672, 32000, 4096),
            !r.is_moe,
            r.num_experts is None,
            r.top_k_experts is None,
    {
        ModelConfig {
            name: String::from_str("LLaMA-70B"),
            num_layers: 80,
            hidden_dim: 8192,
            num_heads: 64,
            num_kv_heads: 8,
            head_dim: 128,
            intermediate_dim: 28672,
            vocab_size: 32000,
            max_seq_len: 4096,
            is_moe: false,
            num_experts: None,
            top_k_experts: None,
        }
    }

    /// Mixtral 8x7B configuration.
    pub fn mixtral_8x7b() -> (r: Self)
        ensures
            r.name@ == "Mixtral-8x7B"@,
            r.has_dims(32, 4096, 32, 8, 128, 14336, 32000, 32768),
            r.is_moe,
            r.num_experts == Some(8usize),
            r.top_k_experts == Some(2usize),
    {
        ModelConfig {
            name: String::from_str("Mixtral-8x7B"),
            num_layers: 32,
            hidden_dim: 4096,
            num_heads: 32,
            num_kv_heads: 8,
            head_dim: 128,
            intermediate_dim: 14336,
            vocab_size: 32000,
            max_seq_len: 32768,
            is_moe: true,
            num_experts: Some(8),
            top_k_experts: Some(2),
        }
    }

    /// DeepSeek V2 (simplified).
    pub fn deepseek_v2() -> (r: Self)
        ensures
            r.name@ == "DeepSeek-V2"@,
            r.has_dims(60, 5120, 40, 8, 128, 12288, 100000, 128000),
            r.is_moe,
            r.num_experts == Some(160usize),
            r.top_k_experts == Some(6usize),
    {
        ModelConfig {
            name: String::from_str("DeepSeek-V2"),
            num_layers: 60,
            hidden_dim: 5120,
            num_heads: 40,
            num_kv_heads: 8,
            head_dim: 128,
            intermediate_dim: 12288,
            vocab_size: 100000,
            max_seq_len: 128000,
            is_moe: true,
            num_experts: Some(160),
            top_k_experts: Some(6),
        }
    }

    /// KV cache bytes per token: key and value, each `num_kv_heads *
    /// head_dim` values of two bytes (FP16).
    pub open spec fn spec_kv_bytes_per_token(&self) -> int {
        2 * self.num_kv_heads * self.head_dim * 2
    }

    /// The per-token estimate fits in a `usize` at every step.
    pub open spec fn kv_bytes_fit(&self) -> bool {
        &&& fits(2 * self.num_kv_heads)
        &&& fits(2 * self.num_kv_heads * self.head_dim)
        &&& fits(self.spec_kv_bytes_per_token())
    }

    /// Estimate KV cache size per token (bytes).
    pub fn kv_bytes_per_token(&self) -> (r: usize)
        requires
            self.kv_bytes_fit(),
        ensures
            r == self.spec_kv_bytes_per_token(),
    {
        2 * self.num_kv_heads * self.head_dim * 2
    }

    /// Total KV cache bytes for a batch and sequence length: layers times
    /// batch times tokens times the per-token size.
    pub open spec fn spec_kv_cache_size(&self, batch_size: int, seq_len: int) -> int {
        self.num_layers * batch_size * seq_len * self.spec_kv_bytes_per_token()
    }

    /// The cache estimate fits in a `usize` at every step.
    pub open spec fn kv_cache_fits(&self, batch_size: int, seq_len: int) -> bool {
        &&& self.kv_bytes_fit()
        &&& fits(self.num_layers * batch_size)
        &&& fits(self.num_layers * batch_size * seq_len)
        &&& fits(self.spec_kv_cache_size(batch_size, seq_len))
    }

    /// Estimate total KV cache size (bytes) for given batch and sequence length.
    pub fn kv_cache_size(&self, batch_size: usize, seq_len: usize) -> (r: u64)
        requires
            self.kv_cache_fits(batch_size as int, seq_len as int),
        ensures
            r == self.spec_kv_cache_size(batch_size as int, seq_len as int),
    {
        let per_token = self.kv_bytes_per_token();
        (self.num_layers * batch_size * seq_len * per_token) as u64
    }

    /// Experts counted per MoE layer: the configured number, or 8.
    pub open spec fn spec_expert_count(&self) -> int {
        match self.num_experts {
            Some(n) => n as int,
            None => 8,
        }
    }

    /// Embedding weights in bytes (FP16).
    pub open spec fn spec_embedding_bytes(&self) -> int {
        self.vocab_size * self.hidden_dim * 2
    }

    /// Attention weights of one layer in bytes: Q, K, V and O projections.
    pub open spec fn spec_attention_bytes(&self) -> int {
        4 * self.hidden_dim * self.hidden_dim * 2
    }

    /// Feed-forward weights of one network in bytes: gate, up and down.
    pub open spec fn spec_ffn_bytes(&self) -> int {
        3 * self.hidden_dim * self.intermediate_dim * 2
    }

    /// Router weights of one MoE layer in bytes.
    pub open spec fn spec_router_bytes(&self) -> int {
        self.hidden_dim * self.spec_expert_count() * 2
    }

    /// Weights of one layer in bytes: attention plus one FFN, or for a MoE
    /// model attention plus one FFN per expert plus the router.
    pub open spec fn spec_layer_bytes(&self) -> int {
        if self.is_moe {
            self.spec_attention_bytes() + self.spec_ffn_bytes() * self.spec_expert_count()
                + self.spec_router_bytes()
        } else {
            self.spec_attention_bytes() + self.spec_ffn_bytes()
        }
    }

    /// Model weights in bytes (FP16): embedding plus every layer.
    pub open spec fn spec_model_size(&self) -> int {
        self.spec_embedding_bytes() + self.num_layers * self.spec_layer_bytes()
    }

    /// The weight estimate fits in a `usize` at every step.
    pub open spec fn model_size_fits(&self) -> bool {
        let h = self.hidden_dim;
        &&& fits(self.vocab_size * h)
        &&& fits(self.spec_embedding_bytes())
        &&& fits(4 * h)
        &&& fits(4 * h * h)
        &&& fits(self.spec_attention_bytes())
        &&& fits(3 * h)
        &&& fits(3 * h * self.intermediate_dim)
        &&& fits(self.spec_ffn_bytes())
        &&& (self.is_moe ==> {
            &&& fits(h * self.spec_expert_count())
            &&& fits(self.spec_router_bytes())
            &&& fits(self.spec_ffn_bytes() * self.spec_expert_count())
            &&& fits(self.spec_attention_bytes() + self.spec_ffn_bytes() * self.spec_expert_count())
        })
        &&& fits(self.spec_layer_bytes())
        &&& fits(self.num_layers * self.spec_layer_bytes())
        &&& fits(self.spec_model_size())
    }

    /// Estimate model weight size (bytes, FP16).
    pub fn model_size(&self) -> (r: u64)
        requires
            self.model_size_fits(),
        ensures
            r == self.spec_model_size(),
    {
        let embedding = self.vocab_size * self.hidden_dim * 2;
        let per_layer = if self.is_moe {
            let experts = match self.num_experts {
                Some(n) => n,
                None => 8,
            };
            let attention = 4 * self.hidden_dim * self.hidden_dim * 2;
            let expert_ffn = 3 * self.hidden_dim * self.intermediate_dim * 2;
            let router = self.hidden_dim * experts * 2;
            attention + (expert_ffn * experts) + router
        } else {
            let attention = 4 * self.hidden_dim * self.hidden_dim * 2;
            let ffn = 3 * self.hidden_dim * self.intermediate_dim * 2;
            attention + ffn
        };
        (embedding + self.num_layers * per_layer) as u64
    }
}

/// Transfer benchmark scenarios.
#[derive(Debug, Clone)]
pub struct TransferScenario {
    /// Sizes to benchmark (bytes).
    pub sizes: Vec<u64>,
    /// Number of iterations per size.
    pub iterations: usize,
    /// Warmup iterations.
    pub warmup: usize,
    /// Test H2D (host to device).
    pub test_h2d: bool,
    /// Test D2H (device to host).
    pub test_d2h: bool,
    /// Test D2D (device to device).
    pub test_d2d: bool,
    /// Test concurrent transfers.
    pub test_concurrent: bool,
}

impl Default for TransferScenario {
    /// Sizes from 1 KB to 1 GB, 100 iterations after 10 warmups, every
    /// direction and concurrency tested.
    fn default() -> (r: Self)
        ensures
            r.sizes@ == seq![1024u64, 1048576, 16777216, 134217728, 536870912, 1073741824],
            r.iterations == 100,
            r.warmup == 10,
            r.test_h2d && r.test_d2h && r.test_d2d && r.test_concurrent,
    {
        TransferScenario {
            sizes: vec![
                1024,
                1024 * 1024,
                16 * 1024 * 1024,
                128 * 1024 * 1024,
                512 * 1024 * 1024,
                1024 * 1024 * 1024,
            ],
            iterations: 100,
            warmup: 10,
            test_h2d: true,
            test_d2h: true,
            test_d2d: true,
            test_concurrent: true,
        }
    }
}

/// Memory management benchmark scenarios.
#[derive(Debug, Clone)]
pub struct MemoryScenario {
    /// Pool size.
    pub pool_size: u64,
    /// Allocation sizes.
    pub allocation_sizes: Vec<u64>,
    /// Number of allocations.
    pub num_allocations: usize,
    /// Test fragmentation.
    pub test_fragmentation: bool,
}

impl Default for MemoryScenario {
    /// An 8 GB pool, allocations from 1 MB to 512 MB, 1000 allocations,
    /// fragmentation tested.
    fn default() -> (r: Self)
        ensures
            r.pool_size == 8589934592,
            r.allocation_sizes@ == seq![1048576u64, 16777216, 134217728, 536870912],
            r.num_allocations == 1000,
            r.test_fragmentation,
    {
        MemoryScenario {
            pool_size: 8 * 1024 * 1024 * 1024,
            allocation_sizes: vec![1024 * 1024, 16 * 1024 * 1024, 128 * 1024 * 1024, 512 * 1024 * 1024],
            num_allocations: 1000,
            test_fragmentation: true,
        }
    }
}

/// End-to-end inference benchmark scenarios.
#[derive(Debug, Clone)]
pub struct InferenceScenario {
    /// Model configuration.
    pub model: ModelConfig,
    /// Batch sizes to test.
    pub batch_sizes: Vec<usize>,
    /// Sequence lengths to test (prefill).
    pub prefill_lengths: Vec<usize>,
    /// Decode steps.
    pub decode_steps: usize,
    /// GPU memory limit (for testing constrained scenarios).
    pub gpu_memory_limit: Option<u64>,
    /// Enable state offloading.
    pub enable_offload: bool,
    /// Enable recomputation.
    pub enable_recompute: bool,
}

impl InferenceScenario {
    /// Standard inference scenario for a model.
    pub fn standard(model: ModelConfig) -> (r: Self)
        ensures
            r.model == model,
            r.batch_sizes@ == seq![1usize, 4, 8, 16],
            r.prefill_lengths@ == seq![128usize, 512, 2048],
            r.decode_steps == 128,
            r.gpu_memory_limit is None,
            !r.enable_offload,
            !r.enable_recompute,
    {
        InferenceScenario {
            model,
            batch_sizes: vec![1, 4, 8, 16],
            prefill_lengths: vec![128, 512, 2048],
            decode_steps: 128,
            gpu_memory_limit: None,
            enable_offload: false,
            enable_recompute: false,
        }
    }

    /// Memory-constrained scenario: the GPU limited to `gpu_memory_gb` GiB,
    /// with offload and recomputation on.
    pub fn memory_constrained(model: ModelConfig, gpu_memory_gb: u64) -> (r: Self)
        requires
            gpu_memory_gb * 1073741824 <= u64::MAX,
        ensures
            r.model == model,
            r.batch_sizes@ == seq![1usize, 2, 4],
            r.prefill_lengths@ == seq![128usize, 512],
            r.decode_steps == 64,
            r.gpu_memory_limit == Some((gpu_memory_gb * 1073741824) as u64),
            r.enable_offload,
            r.enable_recompute,
    {
        InferenceScenario {
            model,
            batch_sizes: vec![1, 2, 4],
            prefill_lengths: vec![128, 512],
            decode_steps: 64,
            gpu_memory_limit: Some(gpu_memory_gb * 1024 * 1024 * 1024),
            enable_offload: true,
            enable_recompute: true,
        }
    }

    /// Long-context scenario.
    pub fn long_context(model: ModelConfig) -> (r: Self)
        ensures
            r.model == model,
            r.batch_sizes@ == seq![1usize, 2],
            r.prefill_lengths@ == seq![8192usize, 32768, 65536],
            r.decode_steps == 64,
            r.gpu_memory_limit is None,
            r.enable_offload,
            !r.enable_recompute,
    {
        InferenceScenario {
            model,
            batch_sizes: vec![1, 2],
            prefill_lengths: vec![8192, 32768, 65536],
            decode_steps: 64,
            gpu_memory_limit: None,
            enable_offload: true,
            enable_recompute: false,
        }
    }
}

/// Model presets selectable for the inference benchmark.
#[derive(Debug, Clone, Copy, PartialEq, Eq, Structural)]
pub enum ModelPreset {
    Llama7b,
    Llama70b,
    Mixtral8x7b,
    DeepseekV2,
}

impl ModelPreset {
    /// The configuration of the preset.
    pub fn to_config(self) -> (r: ModelConfig)
        ensures
            self == ModelPreset::Llama7b ==> r.name@ == "LLaMA-7B"@ && r.has_dims(
                32,
                4096,
                32,
                32,
                128,
                11008,
                32000,
                4096,
            ) && !r.is_moe,
            self == ModelPreset::Llama70b ==> r.name@ == "LLaMA-70B"@ && r.has_dims(
                80,
                8192,
                64,
                8,
                128,
                28672,
                32000,
                4096,
            ) && !r.is_moe,
            self == ModelPreset::Mixtral8x7b ==> r.name@ == "Mixtral-8x7B"@ && r.has_dims(
                32,
                4096,
                32,
                8,
                128,
                14336,
                32000,
                32768,
            ) && r.is_moe && r.num_experts == Some(8usize) && r.top_k_experts == Some(2usize),
            self == ModelPreset::DeepseekV2 ==> r.name@ == "DeepSeek-V2"@ && r.has_dims(
                60,
                5120,
                40,
                8,
                128,
                12288,
                100000,
                128000,
            ) && r.is_moe && r.num_experts == Some(160usize) && r.top_k_experts == Some(6usize),
    {
        match self {
            ModelPreset::Llama7b => ModelConfig::llama_7b(),
            ModelPreset::Llama70b => ModelConfig::llama_70b(),
            ModelPreset::Mixtral8x7b => ModelConfig::mixtral_8x7b(),
            ModelPreset::DeepseekV2 => ModelConfig::deepseek_v2(),
        }
    }
}

} // verus!
