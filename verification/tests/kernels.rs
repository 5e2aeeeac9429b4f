use aether::mlp::{Activation, MlpConfig};

#[test]
fn test_standard_mlp_config() {
    let config = MlpConfig::standard(4096, 11008);
    assert!(!config.gated);
    assert_eq!(config.activation, Activation::Gelu);
}

#[test]
fn test_swiglu_config() {
    let config = MlpConfig::swiglu(4096, 11008);
    assert!(config.gated);
    assert_eq!(config.activation, Activation::Silu);
}

#[test]
fn test_weight_sizes() {
    let config = MlpConfig::swiglu(4096, 11008);
    assert_eq!(config.up_weight_size(), 4096 * 11008 * 2 * 2);
    assert_eq!(config.down_weight_size(), 11008 * 4096 * 2);
}

#[test]
fn mlp_totals() {
    let config = MlpConfig::standard(1024, 4096);
    assert_eq!(config.up_weight_size(), 1024 * 4096 * 2);
    assert_eq!(config.total_weight_size(), 2 * 1024 * 4096 * 2);
    assert_eq!(config.activation_memory(2, 16), 2 * 16 * 4096 * 2);
}

use aether::attention::{AttentionConfig, AttentionError, AttentionKernel, KvCache};
use aether::buffer::GpuBuffer;
use aether::device::CudaDevice;
use aether::estimate::{estimate_kv_cache_size, estimate_model_size};
use aether::execution::{ExecutorError, KernelError, RuntimeError, TransferPriority};
use aether::kernel_registry::{KernelId, KernelRegistry, RegisteredKernel};
use aether::moe::{MoeConfig, MoeKernel};
use aether::norm::{LayerNormKernel, NormError, RmsNormKernel};
use aether::sampling::{SamplingError, SamplingKernel};
use aether::types::{DType, OperationId, StateId};

#[test]
fn test_attention_config() {
    let config = AttentionConfig::mha(32, 128, 4096);
    assert_eq!(config.num_heads, 32);
    assert_eq!(config.num_kv_heads, 32);
    assert_eq!(config.hidden_dim, 4096);
    assert!(!config.is_gqa());
    assert!(!config.is_mqa());
}

#[test]
fn test_gqa_config() {
    let config = AttentionConfig::gqa(32, 8, 128, 4096);
    assert!(config.is_gqa());
    assert!(!config.is_mqa());
}

#[test]
fn test_mqa_config() {
    let config = AttentionConfig::mqa(32, 128, 4096);
    assert!(!config.is_gqa());
    assert!(config.is_mqa());
}

#[test]
fn test_kv_size() {
    let config = AttentionConfig::gqa(32, 8, 128, 4096);
    assert_eq!(config.kv_size_per_token(), 2 * 8 * 128 * 2);
}

#[test]
fn attention_prefill_checks_shapes() {
    let mut device = CudaDevice::new(0).unwrap();
    let kernel = AttentionKernel::new(0, AttentionConfig::gqa(4, 2, 8, 128));
    let q = GpuBuffer::allocate(&mut device, DType::Float16, &[1, 3, 4, 8]).unwrap();
    let k = GpuBuffer::allocate(&mut device, DType::Float16, &[1, 3, 2, 8]).unwrap();
    let bad_k = GpuBuffer::allocate(&mut device, DType::Float16, &[1, 3, 3, 8]).unwrap();
    let out = kernel.forward_prefill(&mut device, &q, &k, &k).unwrap();
    assert_eq!(out.output.shape(), &[1, 3, 4, 8]);
    match kernel.forward_prefill(&mut device, &q, &bad_k, &k) {
        Err(e @ AttentionError::InvalidShape(_)) => assert_eq!(e.message(), "Invalid tensor shape: Expected 2 KV heads"),
        other => panic!("unexpected: {:?}", other.is_ok()),
    }
    assert_eq!(kernel.estimate_flops(2, 10), 4 * 2 * 10 * 10 * 32);
    assert_eq!(kernel.estimate_kv_memory(2, 10), (2 * 10 * 2 * 2 * 8 * 2) as u64);
}

#[test]
fn kv_cache_sizes() {
    let mut device = CudaDevice::new(0).unwrap();
    let config = AttentionConfig::gqa(4, 2, 8, 128);
    let cache = KvCache::new(&mut device, config, 3, 2, 16).unwrap();
    assert_eq!(cache.num_layers(), 3);
    let layer = cache.get(1).unwrap();
    assert!(layer.is_empty());
    assert_eq!(layer.remaining(), 16);
    let per_layer = 2 * (2 * 16 * 2 * 8 * 2) as u64;
    assert_eq!(layer.memory_used(), per_layer);
    assert_eq!(cache.total_memory(), 3 * per_layer);
    assert_eq!(device.allocated_memory(), 3 * per_layer);
}

#[test]
fn test_mixtral_config() {
    let config = MoeConfig::mixtral(4096, 14336);
    assert_eq!(config.num_experts, 8);
    assert_eq!(config.top_k, 2);
}

#[test]
fn test_deepseek_config() {
    let config = MoeConfig::deepseek(160, 6, 7168, 2048);
    assert_eq!(config.num_experts, 160);
    assert_eq!(config.top_k, 6);
}

#[test]
fn test_expert_weight_size() {
    let config = MoeConfig::mixtral(4096, 14336);
    let expert_size = config.expert_weight_size();
    assert!(expert_size > 0);
    // Gated: (two up projections + one down) x hidden x intermediate x 2 bytes.
    assert_eq!(expert_size, 3 * 4096 * 14336 * 2);
    assert_eq!(config.total_weight_size(), 8 * expert_size);
    assert_eq!(config.router_weight_size(), 4096 * 8 * 2);
}

#[test]
fn moe_routing_mock() {
    let mut device = CudaDevice::new(0).unwrap();
    let kernel = MoeKernel::new(0, MoeConfig::mixtral(16, 32));
    let hidden = GpuBuffer::allocate(&mut device, DType::Float16, &[1, 3, 16]).unwrap();
    let router = GpuBuffer::allocate(&mut device, DType::Float16, &[16, 8]).unwrap();
    let sel = kernel.compute_routing(&hidden, &router).unwrap();
    assert_eq!(sel.total_tokens(), 3);
    assert_eq!(sel.expert_indices[0], vec![0, 1]);
    assert_eq!(sel.expert_indices[2], vec![2, 3]);
    assert!(sel.needs_expert(3));
    assert!(!sel.needs_expert(4));
    let mut needed = sel.needed_experts();
    needed.sort();
    assert_eq!(needed, vec![0, 1, 2, 3]);
    assert_eq!(kernel.predict_experts(&[]), vec![0, 1]);
}

#[test]
fn test_layer_norm_weight_size() {
    let kernel = LayerNormKernel::new(0, 4096, DType::Float16);
    assert_eq!(kernel.weight_size(), 4096 * 2);
}

#[test]
fn test_rms_norm_weight_size() {
    let kernel = RmsNormKernel::new(0, 4096, DType::Float16);
    assert_eq!(kernel.weight_size(), 4096 * 2);
}

#[test]
fn norm_checks_last_dimension() {
    let mut device = CudaDevice::new(0).unwrap();
    let kernel = RmsNormKernel::new(0, 64, DType::Float16);
    let input = GpuBuffer::allocate(&mut device, DType::Float16, &[2, 3, 32]).unwrap();
    let weight = GpuBuffer::allocate(&mut device, DType::Float16, &[64]).unwrap();
    match kernel.forward(&mut device, &input, &weight) {
        Err(e @ NormError::InvalidShape(_)) => {
            assert_eq!(e.message(), "Invalid tensor shape: Last dimension must be 64, got [2, 3, 32]")
        },
        other => panic!("unexpected: {:?}", other.is_ok()),
    }
    let good = GpuBuffer::allocate(&mut device, DType::Float16, &[2, 64]).unwrap();
    let before = device.allocated_memory();
    let out = kernel.forward(&mut device, &good, &weight).unwrap();
    assert_eq!(out.shape(), &[2, 64]);
    assert_eq!(device.allocated_memory(), before + 2 * 64 * 2);
    let (normed, residual) = kernel.forward_with_residual(&mut device, &good, &good, &weight).unwrap();
    assert_eq!(normed.shape(), &[2, 64]);
    assert_eq!(residual.shape(), &[2, 64]);
    assert_eq!(device.allocated_memory(), before + 3 * 2 * 64 * 2);

    let layer = LayerNormKernel::new(0, 64, DType::Float32);
    let empty = GpuBuffer::allocate(&mut device, DType::Float16, &[]).unwrap();
    match layer.forward(&mut device, &empty, &weight, None) {
        Err(NormError::InvalidShape(m)) => assert_eq!(m, "Last dimension must be 64, got []"),
        other => panic!("unexpected: {:?}", other.is_ok()),
    }
}

#[test]
fn test_registry_creation() {
    let registry = KernelRegistry::new(0);
    assert!(registry.is_empty());
}

#[test]
fn test_register_attention() {
    let mut registry = KernelRegistry::new(0);

    let config = AttentionConfig::mha(32, 128, 4096);
    registry.register_attention(0, config);

    assert!(registry.has_kernel(&KernelId::Attention(0)));
    assert!(!registry.has_kernel(&KernelId::Attention(1)));
}

#[test]
fn registry_replaces_and_removes() {
    let mut registry = KernelRegistry::new(0);
    registry.register_attention(0, AttentionConfig::mha(32, 128, 4096));
    registry.register_attention(0, AttentionConfig::mqa(8, 64, 1024));
    assert_eq!(registry.len(), 1);
    assert_eq!(registry.get_attention(0).unwrap().config().num_heads, 8);
    assert!(registry.get_attention(1).is_none());
    registry.register_sampling(32000, DType::Float16);
    assert_eq!(registry.len(), 2);
    assert!(registry.remove(&KernelId::Attention(0)));
    assert!(!registry.remove(&KernelId::Attention(0)));
    assert_eq!(registry.len(), 1);
    assert!(registry.has_kernel(&KernelId::Sampling));
}

#[test]
fn registry_transformer_layout() {
    let mut registry = KernelRegistry::new(0);
    registry.register_transformer(
        3,
        AttentionConfig::gqa(32, 8, 128, 4096),
        Some(MlpConfig::swiglu(4096, 11008)),
        Some(MoeConfig::mixtral(4096, 14336)),
        4096,
        DType::Float16,
    );
    // Per layer: attention, MoE (preferred over MLP), two RMSNorms.
    assert_eq!(registry.len(), 3 * 4);
    assert!(registry.has_kernel(&KernelId::Moe(2)));
    assert!(!registry.has_kernel(&KernelId::Mlp(0)));
    assert!(registry.has_kernel(&KernelId::RmsNorm(5)));
    assert!(!registry.has_kernel(&KernelId::RmsNorm(6)));
    assert!(matches!(registry.get_attention(1), Some(k) if k.config().num_kv_heads == 8));
    let _ = RegisteredKernel::Sampling(SamplingKernel::new(0, 10, DType::Float16));
}

#[test]
fn sampling_tokens_and_shapes() {
    let mut device = CudaDevice::new(0).unwrap();
    let kernel = SamplingKernel::new(0, 5, DType::Float16);
    let logits = GpuBuffer::allocate(&mut device, DType::Float16, &[7, 5]).unwrap();
    assert_eq!(kernel.sample(&logits).unwrap(), vec![0, 1, 2, 3, 4, 0, 1]);
    assert_eq!(kernel.sample_with_history(&logits, &[vec![1, 2]]).unwrap().len(), 7);

    let wrong = GpuBuffer::allocate(&mut device, DType::Float16, &[7, 6]).unwrap();
    match kernel.sample(&wrong) {
        Err(e) => assert_eq!(e.message(), "Invalid tensor shape: Expected vocab size 5, got 6"),
        Ok(_) => panic!("accepted a wrong vocabulary"),
    }
    let flat = GpuBuffer::allocate(&mut device, DType::Float16, &[35]).unwrap();
    assert!(matches!(kernel.sample(&flat), Err(SamplingError::InvalidShape(m)) if m == "Expected 2D logits [batch, vocab]"));

    let beams = GpuBuffer::allocate(&mut device, DType::Float16, &[6, 5]).unwrap();
    let out = kernel.beam_step(&beams, 3).unwrap();
    assert_eq!(out.tokens, vec![0; 6]);
    assert_eq!(out.beam_indices, vec![0, 1, 2, 0, 1, 2]);
    assert!(matches!(kernel.beam_step(&beams, 4), Err(SamplingError::InvalidShape(m)) if m == "Batch size must be divisible by num_beams"));
}

#[test]
fn size_estimates() {
    assert_eq!(estimate_kv_cache_size(32, 8, 128, 1, 4096, "float16"), Ok(2 * 32 * 4096 * 8 * 128 * 2));
    assert_eq!(estimate_kv_cache_size(1, 1, 1, 1, 1, "int8"), Ok(2));
    assert_eq!(estimate_kv_cache_size(1, 1, 1, 1, 1, "fp8"), Err("Unknown dtype: fp8".to_string()));
    // Dense: 100 x 16 x 4 embedding; per layer 4 x 16^2 x 4 + 3 x 16 x 64 x 4.
    assert_eq!(
        estimate_model_size(2, 16, 64, 100, 0, "float32"),
        Ok(100 * 16 * 4 + 2 * (4 * 16 * 16 * 4 + 3 * 16 * 64 * 4))
    );
    // MoE with 4 experts: per layer adds 3 x 16 x 64 x 2 per expert and the router.
    assert_eq!(
        estimate_model_size(1, 16, 64, 10, 4, "bfloat16"),
        Ok(10 * 16 * 2 + (4 * 16 * 16 * 2 + 3 * 16 * 64 * 2 * 4 + 16 * 4 * 2))
    );
}

#[test]
fn execution_layer_messages() {
    assert!(TransferPriority::Critical > TransferPriority::Normal);
    assert!(TransferPriority::Prefetch < TransferPriority::Background);
    assert_eq!(TransferPriority::Critical.level(), 4);
    assert_eq!(TransferPriority::Prefetch.level(), 0);
    assert_eq!(KernelError::OperationNotFound(OperationId("op9".to_string())).message(), "Operation not found: op9");
    assert_eq!(ExecutorError::BufferNotFound(StateId::new("kv".to_string())).message(), "Buffer not found for state: kv");
    assert_eq!(RuntimeError::NoGraph.message(), "No execution graph set");
    assert_eq!(RuntimeError::OutOfMemory("1 GiB".to_string()).message(), "Memory allocation failed: 1 GiB");
}

#[test]
fn moe_routing_pads_to_top_k() {
    let mut device = CudaDevice::new(0).unwrap();
    // Three experts, five per token: every expert once, then the first again.
    let kernel = MoeKernel::new(0, MoeConfig::deepseek(3, 5, 16, 32));
    let hidden = GpuBuffer::allocate(&mut device, DType::Float16, &[1, 2, 16]).unwrap();
    let router = GpuBuffer::allocate(&mut device, DType::Float16, &[16, 3]).unwrap();
    let sel = kernel.compute_routing(&hidden, &router).unwrap();
    assert_eq!(sel.expert_indices[0], vec![0, 1, 2, 0, 0]);
    assert_eq!(sel.expert_indices[1], vec![0, 1, 2, 0, 0]);
    let count_of = |e: usize| sel.expert_counts.iter().find(|(x, _)| *x == e).map(|(_, c)| *c);
    assert_eq!(count_of(0), Some(6));
    assert_eq!(count_of(1), Some(2));
    assert_eq!(count_of(2), Some(2));
    // Two experts of eight from token 7: 7 and 0, ascending.
    let mixtral = MoeKernel::new(0, MoeConfig::mixtral(16, 32));
    let eight = GpuBuffer::allocate(&mut device, DType::Float16, &[1, 8, 16]).unwrap();
    let sel = mixtral.compute_routing(&eight, &router).unwrap();
    assert_eq!(sel.expert_indices[7], vec![0, 7]);
}
