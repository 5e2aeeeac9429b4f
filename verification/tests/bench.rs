use aether::report::{chrono_lite, format_size};
use aether::scenarios::{InferenceScenario, MemoryScenario, ModelConfig, ModelPreset, TransferScenario};

#[test]
fn memory_test_format_size() {
    assert_eq!(format_size(1024 * 1024), "1.0 MB");
    assert_eq!(format_size(1024 * 1024 * 1024), "1.0 GB");
}

#[test]
fn transfer_test_format_size() {
    assert_eq!(format_size(512), "512 B");
    assert_eq!(format_size(1024), "1.0 KB");
    assert_eq!(format_size(1024 * 1024), "1.0 MB");
    assert_eq!(format_size(1024 * 1024 * 1024), "1.0 GB");
}

/// The size text agrees with `{:.1}` applied to the `f64` quotient, ties
/// and large values included.
#[test]
fn format_size_matches_float_formatting() {
    let cases: [u64; 14] = [
        0,
        1023,
        1280,
        1536,
        1587,
        2047,
        1048575,
        3 * 1024 * 1024 / 2,
        1073741823,
        5 * 1024 * 1024 * 1024 + 123456789,
        (1u64 << 53) + 1,
        (1u64 << 60) + 12345,
        u64::MAX - 1,
        u64::MAX,
    ];
    for &b in cases.iter() {
        let expected = if b >= 1024 * 1024 * 1024 {
            format!("{:.1} GB", b as f64 / (1024u64 * 1024 * 1024) as f64)
        } else if b >= 1024 * 1024 {
            format!("{:.1} MB", b as f64 / (1024u64 * 1024) as f64)
        } else if b >= 1024 {
            format!("{:.1} KB", b as f64 / 1024f64)
        } else {
            format!("{} B", b)
        };
        assert_eq!(format_size(b), expected, "bytes = {}", b);
    }
}

#[test]
fn format_size_rounds_ties_to_even() {
    assert_eq!(format_size(1280), "1.2 KB");
    assert_eq!(format_size(1331), "1.3 KB");
    assert_eq!(format_size(1024 * 1023 + 1000), "1024.0 KB");
}

#[test]
fn chrono_lite_formats_fields() {
    assert_eq!(chrono_lite(0), "1970-000 00:00:00 UTC");
    assert_eq!(chrono_lite(86400 * 365 + 3600 * 5 + 60 * 7 + 9), "1971-000 05:07:09 UTC");
    assert_eq!(chrono_lite(86400 * 42 + 59), "1970-042 00:00:59 UTC");
}

#[test]
fn test_llama_7b_config() {
    let config = ModelConfig::llama_7b();
    assert_eq!(config.num_layers, 32);
    assert_eq!(config.hidden_dim, 4096);
    assert!(!config.is_moe);
}

#[test]
fn test_kv_cache_size() {
    let config = ModelConfig::llama_7b();
    let expected = 32 * 1 * 2048 * (2 * 32 * 128 * 2);
    assert_eq!(config.kv_cache_size(1, 2048), expected as u64);
}

#[test]
fn test_mixtral_moe() {
    let config = ModelConfig::mixtral_8x7b();
    assert!(config.is_moe);
    assert_eq!(config.num_experts, Some(8));
}

#[test]
fn model_sizes() {
    let llama = ModelConfig::llama_7b();
    assert_eq!(llama.kv_bytes_per_token(), 2 * 32 * 128 * 2);
    let dense: u64 = 32000 * 4096 * 2 + 32 * (4 * 4096 * 4096 * 2 + 3 * 4096 * 11008 * 2);
    assert_eq!(llama.model_size(), dense);

    let mixtral = ModelConfig::mixtral_8x7b();
    let per_layer: u64 = 4 * 4096 * 4096 * 2 + 3 * 4096 * 14336 * 2 * 8 + 4096 * 8 * 2;
    assert_eq!(mixtral.model_size(), 32000 * 4096 * 2 + 32 * per_layer);

    let deepseek = ModelConfig::deepseek_v2();
    assert_eq!(deepseek.num_experts, Some(160));
    assert_eq!(deepseek.top_k_experts, Some(6));
    assert_eq!(ModelConfig::llama_70b().num_kv_heads, 8);
}

#[test]
fn presets_and_scenarios() {
    assert_eq!(ModelPreset::Mixtral8x7b.to_config().name, "Mixtral-8x7B");
    assert_eq!(ModelPreset::Llama70b.to_config().num_layers, 80);

    let s = InferenceScenario::standard(ModelConfig::llama_7b());
    assert_eq!(s.batch_sizes, vec![1, 4, 8, 16]);
    assert_eq!(s.gpu_memory_limit, None);

    let c = InferenceScenario::memory_constrained(ModelConfig::llama_7b(), 16);
    assert_eq!(c.gpu_memory_limit, Some(16 * 1024 * 1024 * 1024));
    assert!(c.enable_offload && c.enable_recompute);

    let l = InferenceScenario::long_context(ModelConfig::llama_7b());
    assert_eq!(l.prefill_lengths, vec![8192, 32768, 65536]);

    let t = TransferScenario::default();
    assert_eq!(t.sizes.len(), 6);
    assert_eq!(t.sizes[5], 1024 * 1024 * 1024);
    let m = MemoryScenario::default();
    assert_eq!(m.pool_size, 8 * 1024 * 1024 * 1024);
}
