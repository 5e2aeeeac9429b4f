//! The execution layer's vocabulary: the priority of a scheduled transfer and
//! the errors of kernel execution, state execution and the runtime, with the
//! exact messages they display.

use vstd::prelude::*;
use crate::types::{OperationId, StateId};

verus! {

/// Transfer priority levels, from least to most urgent; the derived order
/// follows that.
#[derive(Debug, Clone, Copy, PartialEq, Eq, PartialOrd, Ord, Structural)]
pub enum TransferPriority {
    /// Prefetch - speculative.
    Prefetch,
    /// Background - opportunistic.
    Background,
    /// Normal priority.
    Normal,
    /// High priority - needed soon.
    High,
    /// Critical path - blocking execution.
    Critical,
}

impl TransferPriority {
    /// The numeric level: 0 for a prefetch up to 4 for a critical transfer.
    pub open spec fn spec_level(&self) -> u8 {
        match self {
            TransferPriority::Prefetch => 0,
            TransferPriority::Background => 1,
            TransferPriority::Normal => 2,
            TransferPriority::High => 3,
            TransferPriority::Critical => 4,
        }
    }

    /// The numeric level: 0 for a prefetch up to 4 for a critical transfer.
    pub fn level(&self) -> (r: u8)
        ensures
            r == self.spec_level(),
    {
        match self {
            TransferPriority::Prefetch => 0,
            TransferPriority::Background => 1,
            TransferPriority::Normal => 2,
            TransferPriority::High => 3,
            TransferPriority::Critical => 4,
        }
    }
}

/// Kernel executor error.
#[derive(Debug)]
pub enum KernelError {
    /// Operation not found.
    OperationNotFound(OperationId),
    /// State not available.
    StateNotAvailable(StateId),
    /// Kernel not registered.
    KernelNotRegistered(String),
    /// Execution failed.
    ExecutionFailed(String),
    /// Invalid input.
    InvalidInput(String),
}

impl KernelError {
    /// The text the error displays.
    pub open spec fn message_spec(&self) -> Seq<char> {
        match self {
            KernelError::OperationNotFound(id) => "Operation not found: "@ + id.0@,
            KernelError::StateNotAvailable(id) => "State not available: "@ + id.0@,
            KernelError::KernelNotRegistered(m) => "Kernel not registered: "@ + m@,
            KernelError::ExecutionFailed(m) => "Execution failed: "@ + m@,
            KernelError::InvalidInput(m) => "Invalid input: "@ + m@,
        }
    }

    /// The error's message, as its `Display` writes it.
    pub fn message(&self) -> (r: String)
        ensures
            r@ == self.message_spec(),
    {
        proof {
            reveal_strlit("Operation not found: ");
            reveal_strlit("State not available: ");
            reveal_strlit("Kernel not registered: ");
            reveal_strlit("Execution failed: ");
            reveal_strlit("Invalid input: ");
        }
        let (prefix, detail): (&str, &str) = match self {
            KernelError::OperationNotFound(id) => ("Operation not found: ", id.0.as_str()),
            KernelError::StateNotAvailable(id) => ("State not available: ", id.0.as_str()),
            KernelError::KernelNotRegistered(m) => ("Kernel not registered: ", m.as_str()),
            KernelError::ExecutionFailed(m) => ("Execution failed: ", m.as_str()),
            KernelError::InvalidInput(m) => ("Invalid input: ", m.as_str()),
        };
        let mut s = String::new();
        s.append(prefix);
        s.append(detail);
        s
    }
}

/// State executor error.
#[derive(Debug)]
pub enum ExecutorError {
    /// State not found.
    StateNotFound(StateId),
    /// Buffer not found for state.
    BufferNotFound(StateId),
    /// Transfer failed.
    TransferFailed(String),
    /// Invalid action.
    InvalidAction(String),
    /// CUDA error.
    CudaError(String),
    /// Out of memory.
    OutOfMemory(String),
}

impl ExecutorError {
    /// The text the error displays.
    pub open spec fn message_spec(&self) -> Seq<char> {
        match self {
            ExecutorError::StateNotFound(id) => "State not found: "@ + id.0@,
            ExecutorError::BufferNotFound(id) => "Buffer not found for state: "@ + id.0@,
            ExecutorError::TransferFailed(m) => "Transfer failed: "@ + m@,
            ExecutorError::InvalidAction(m) => "Invalid action: "@ + m@,
            ExecutorError::CudaError(m) => "CUDA error: "@ + m@,
            ExecutorError::OutOfMemory(m) => "Out of memory: "@ + m@,
        }
    }

    /// The error's message, as its `Display` writes it.
    pub fn message(&self) -> (r: String)
        ensures
            r@ == self.message_spec(),
    {
        proof {
            reveal_strlit("State not found: ");
            reveal_strlit("Buffer not found for state: ");
            reveal_strlit("Transfer failed: ");
            reveal_strlit("Invalid action: ");
            reveal_strlit("CUDA error: ");
            reveal_strlit("Out of memory: ");
        }
        let (prefix, detail): (&str, &str) = match self {
            ExecutorError::StateNotFound(id) => ("State not found: ", id.0.as_str()),
            ExecutorError::BufferNotFound(id) => ("Buffer not found for state: ", id.0.as_str()),
            ExecutorError::TransferFailed(m) => ("Transfer failed: ", m.as_str()),
            ExecutorError::InvalidAction(m) => ("Invalid action: ", m.as_str()),
            ExecutorError::CudaError(m) => ("CUDA error: ", m.as_str()),
            ExecutorError::OutOfMemory(m) => ("Out of memory: ", m.as_str()),
        };
        let mut s = String::new();
        s.append(prefix);
        s.append(detail);
        s
    }
}

/// Runtime errors.
#[derive(Debug)]
pub enum RuntimeError {
    /// Initialization failed.
    Initialization(String),
    /// No execution graph set.
    NoGraph,
    /// Execution failed.
    Execution(String),
    /// Memory allocation failed.
    OutOfMemory(String),
}

impl RuntimeError {
    /// The text the error displays.
    pub open spec fn message_spec(&self) -> Seq<char> {
        match self {
            RuntimeError::Initialization(m) => "Initialization failed: "@ + m@,
            RuntimeError::NoGraph => "No execution graph set"@,
            RuntimeError::Execution(m) => "Execution failed: "@ + m@,
            RuntimeError::OutOfMemory(m) => "Memory allocation failed: "@ + m@,
        }
    }

    /// The error's message, as its `Display` writes it.
    pub fn message(&self) -> (r: String)
        ensures
            r@ == self.message_spec(),
    {
        proof {
            reveal_strlit("Initialization failed: ");
            reveal_strlit("No execution graph set");
            reveal_strlit("Execution failed: ");
            reveal_strlit("Memory allocation failed: ");
            reveal_strlit("");
        }
        let (prefix, detail): (&str, &str) = match self {
            RuntimeError::Initialization(m) => ("Initialization failed: ", m.as_str()),
            RuntimeError::NoGraph => ("No execution graph set", ""),
            RuntimeError::Execution(m) => ("Execution failed: ", m.as_str()),
            RuntimeError::OutOfMemory(m) => ("Memory allocation failed: ", m.as_str()),
        };
        let mut s = String::new();
        s.append(prefix);
        s.append(detail);
        assert(s@ =~= self.message_spec());
        s
    }
}


/// Levels rise strictly with urgency: a prefetch is below a background
/// transfer, which is below a normal one, then a high-priority one, then a
/// critical one.
pub proof fn law_levels_follow_urgency()
    ensures
        TransferPriority::Prefetch.spec_level() < TransferPriority::Background.spec_level(),
        TransferPriority::Background.spec_level() < TransferPriority::Normal.spec_level(),
        TransferPriority::Normal.spec_level() < TransferPriority::High.spec_level(),
        TransferPriority::High.spec_level() < TransferPriority::Critical.spec_level(),
{
}

} // verus!
