use aether::types::{Action, DType, Location, StateId, StateType};

#[test]
fn test_state_type_recomputable() {
    assert!(!StateType::Weight.is_recomputable());
    assert!(!StateType::ExpertWeight.is_recomputable());
    assert!(StateType::KvCache.is_recomputable());
    assert!(StateType::Activation.is_recomputable());
}

#[test]
fn types_test_location_properties() {
    assert!(Location::Hbm.is_gpu());
    assert!(Location::Hbm.is_materialized());
    assert!(!Location::Dram.is_gpu());
    assert!(Location::Dram.is_local());
    assert!(!Location::NotMaterialized.is_materialized());
    assert!(Location::RemoteGpu.is_remote());
}

#[test]
fn test_action_properties() {
    assert!(Action::Move.is_movement());
    assert!(Action::Prefetch.is_movement());
    assert!(!Action::Keep.is_movement());
    assert!(Action::Recompute.is_compute());
    assert!(!Action::Move.is_compute());
}

#[test]
fn test_state_id_from() {
    let id: StateId = "test".into();
    assert_eq!(id.0, "test");

    let id: StateId = String::from("test2").into();
    assert_eq!(id.0, "test2");
}

#[test]
fn dtype_sizes() {
    assert_eq!(DType::Float32.size_bytes(), 4);
    assert_eq!(DType::Float16.size_bytes(), 2);
    assert_eq!(DType::BFloat16.size_bytes(), 2);
    assert_eq!(DType::Int8.size_bytes(), 1);
}

#[test]
fn state_type_weights() {
    assert!(StateType::Weight.is_weight());
    assert!(StateType::ExpertWeight.is_weight());
    assert!(!StateType::KvCache.is_weight());
}
