//! Aether: a state-aware AI execution runtime.
//!
//! The library decides, for every piece of inference state (KV cache,
//! activations, weights, experts), whether to keep, move, recompute or evict
//! it, and keeps exact books on where each piece lives and how much memory
//! every tier holds.
#![allow(unused_imports)]

pub mod types;
pub mod text;
pub mod error;
pub mod state;
pub mod decision;
pub mod hardware;
pub mod state_manager;
pub mod scenarios;
pub mod report;
pub mod cuda_error;
pub mod device;
pub mod memory;
pub mod buffer;
pub mod stream;
pub mod transfer;
pub mod mlp;
pub mod graph;
pub mod pool;
pub mod planning;
pub mod attention;
pub mod moe;
pub mod norm;
pub mod sampling;
pub mod kernel_registry;
pub mod execution;
pub mod estimate;
pub mod executor;
pub mod kernel_executor;
pub mod transfer_scheduler;
