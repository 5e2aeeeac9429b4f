//! Error types for Aether operations, with the exact messages they display.

use vstd::prelude::*;
use std::time::Duration;
use crate::types::{Location, StateId};

verus! {

/// Errors that can occur in Aether operations.
#[derive(Debug)]
pub enum AetherError {
    /// State not found in registry.
    StateNotFound(StateId),
    /// Insufficient memory at target location.
    InsufficientMemory { location: Location, required: u64, available: u64 },
    /// Invalid state transition.
    InvalidTransition { from: Location, to: Location },
    /// State is pinned and cannot be evicted.
    StatePinned(StateId),
    /// State cannot be recomputed.
    NotRecomputable(StateId),
    /// Transfer failed.
    TransferFailed(String),
    /// Planning failed.
    PlanningFailed(String),
    /// Invalid configuration.
    InvalidConfig(String),
    /// Operation timed out.
    Timeout(Duration),
    /// CUDA error.
    CudaError(String),
    /// Internal error.
    Internal(String),
}

/// Result type for Aether operations.
pub type Result<T> = std::result::Result<T, AetherError>;

/// The name `{:?}` gives a location.
pub open spec fn location_name(l: Location) -> Seq<char> {
    match l {
        Location::Hbm => "Hbm"@,
        Location::Dram => "Dram"@,
        Location::Cxl => "Cxl"@,
        Location::Nvme => "Nvme"@,
        Location::RemoteGpu => "RemoteGpu"@,
        Location::RemoteHost => "RemoteHost"@,
        Location::NotMaterialized => "NotMaterialized"@,
        Location::Evicted => "Evicted"@,
    }
}

/// The name `{:?}` gives a location.
pub fn location_str(l: Location) -> (r: &'static str)
    ensures
        r@ == location_name(l),
{
    match l {
        Location::Hbm => "Hbm",
        Location::Dram => "Dram",
        Location::Cxl => "Cxl",
        Location::Nvme => "Nvme",
        Location::RemoteGpu => "RemoteGpu",
        Location::RemoteHost => "RemoteHost",
        Location::NotMaterialized => "NotMaterialized",
        Location::Evicted => "Evicted",
    }
}

/// `Duration`'s `{:?}` text.
///
/// Calls `format!("{:?}", d)`. `Duration` is opaque to the library, so the
/// contract states nothing of the text.
#[verifier::external_body]
fn duration_debug_text(d: &Duration) -> String {
    format!("{:?}", d)
}

impl AetherError {
    /// The text the error displays (the `Display` message).
    pub open spec fn message_spec(&self) -> Seq<char> {
        match self {
            AetherError::StateNotFound(id) => "State not found: "@ + id.0@,
            AetherError::InsufficientMemory { location, required, available } =>
                "Insufficient memory at "@ + location_name(*location) + ": need "@
                    + crate::text::decimal(*required as nat) + " bytes, have "@
                    + crate::text::decimal(*available as nat) + " bytes"@,
            AetherError::InvalidTransition { from, to } =>
                "Invalid state transition: cannot move from "@ + location_name(*from) + " to "@
                    + location_name(*to),
            AetherError::StatePinned(id) => "State "@ + id.0@
                + " is pinned and cannot be evicted"@,
            AetherError::NotRecomputable(id) => "State "@ + id.0@
                + " cannot be recomputed (no producer or non-recomputable type)"@,
            AetherError::TransferFailed(m) => "Transfer failed: "@ + m@,
            AetherError::PlanningFailed(m) => "Planning failed: "@ + m@,
            AetherError::InvalidConfig(m) => "Invalid configuration: "@ + m@,
            AetherError::Timeout(_) => "Operation timed out after "@,
            AetherError::CudaError(m) => "CUDA error: "@ + m@,
            AetherError::Internal(m) => "Internal error: "@ + m@,
        }
    }

    /// The error's message, as its `Display` writes it. For `Timeout` the
    /// message is the fixed prefix followed by the duration's `{:?}` text.
    pub fn message(&self) -> (r: String)
        ensures
            !(self is Timeout) ==> r@ == self.message_spec(),
            self is Timeout ==> r@.subrange(0, self.message_spec().len() as int)
                == self.message_spec(),
    {
        let mut s = String::new();
        match self {
            AetherError::StateNotFound(id) => {
                s.append("State not found: ");
                s.append(id.0.as_str());
            },
            AetherError::InsufficientMemory { location, required, available } => {
                s.append("Insufficient memory at ");
                s.append(location_str(*location));
                s.append(": need ");
                crate::text::push_decimal(&mut s, *required);
                s.append(" bytes, have ");
                crate::text::push_decimal(&mut s, *available);
                s.append(" bytes");
            },
            AetherError::InvalidTransition { from, to } => {
                s.append("Invalid state transition: cannot move from ");
                s.append(location_str(*from));
                s.append(" to ");
                s.append(location_str(*to));
            },
            AetherError::StatePinned(id) => {
                s.append("State ");
                s.append(id.0.as_str());
                s.append(" is pinned and cannot be evicted");
            },
            AetherError::NotRecomputable(id) => {
                s.append("State ");
                s.append(id.0.as_str());
                s.append(" cannot be recomputed (no producer or non-recomputable type)");
            },
            AetherError::TransferFailed(m) => {
                s.append("Transfer failed: ");
                s.append(m.as_str());
            },
            AetherError::PlanningFailed(m) => {
                s.append("Planning failed: ");
                s.append(m.as_str());
            },
            AetherError::InvalidConfig(m) => {
                s.append("Invalid configuration: ");
                s.append(m.as_str());
            },
            AetherError::Timeout(d) => {
                s.append("Operation timed out after ");
                let ghost prefix = s@;
                let t = duration_debug_text(d);
                s.append(t.as_str());
                assert(s@.subrange(0, prefix.len() as int) =~= prefix);
            },
            AetherError::CudaError(m) => {
                s.append("CUDA error: ");
                s.append(m.as_str());
            },
            AetherError::Internal(m) => {
                s.append("Internal error: ");
                s.append(m.as_str());
            },
        }
        s
    }

    /// Create a new internal error.
    pub fn internal(msg: String) -> (r: Self)
        ensures
            r == AetherError::Internal(msg),
    {
        AetherError::Internal(msg)
    }

    /// Create a new planning error.
    pub fn planning(msg: String) -> (r: Self)
        ensures
            r == AetherError::PlanningFailed(msg),
    {
        AetherError::PlanningFailed(msg)
    }

    /// Create a new transfer error.
    pub fn transfer(msg: String) -> (r: Self)
        ensures
            r == AetherError::TransferFailed(msg),
    {
        AetherError::TransferFailed(msg)
    }
}

} // verus!
