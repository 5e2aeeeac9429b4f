//! Errors of device, memory, stream and transfer operations, with the
//! exact messages they display.

use vstd::prelude::*;
use crate::text::{decimal, push_decimal, push_signed, signed_decimal};

verus! {

/// Errors that can occur in CUDA operations.
#[derive(Debug)]
pub enum CudaError {
    /// CUDA driver error.
    DriverError(String),
    /// Out of GPU memory.
    OutOfMemory { requested: u64, available: u64 },
    /// Invalid device ID.
    InvalidDevice(i32),
    /// Device not initialized.
    DeviceNotInitialized,
    /// Stream error.
    StreamError(String),
    /// Transfer error.
    TransferError(String),
    /// Invalid buffer.
    InvalidBuffer(String),
    /// Synchronization error.
    SyncError(String),
    /// Pool allocation error.
    PoolError(String),
    /// Feature not available.
    NotAvailable(String),
    /// Internal error.
    Internal(String),
}

impl CudaError {
    /// The text the error displays.
    pub open spec fn message_spec(&self) -> Seq<char> {
        match self {
            CudaError::DriverError(m) => "CUDA driver error: "@ + m@,
            CudaError::OutOfMemory { requested, available } => "Out of GPU memory: requested "@
                + decimal(*requested as nat) + " bytes, available "@ + decimal(*available as nat)
                + " bytes"@,
            CudaError::InvalidDevice(d) => "Invalid device ID: "@ + signed_decimal(*d as int),
            CudaError::DeviceNotInitialized => "CUDA device not initialized"@,
            CudaError::StreamError(m) => "CUDA stream error: "@ + m@,
            CudaError::TransferError(m) => "Memory transfer failed: "@ + m@,
            CudaError::InvalidBuffer(m) => "Invalid buffer: "@ + m@,
            CudaError::SyncError(m) => "Synchronization error: "@ + m@,
            CudaError::PoolError(m) => "Memory pool error: "@ + m@,
            CudaError::NotAvailable(m) => "Feature not available: "@ + m@,
            CudaError::Internal(m) => "Internal error: "@ + m@,
        }
    }

    /// The error's message, as its `Display` writes it.
    pub fn message(&self) -> (r: String)
        ensures
            r@ == self.message_spec(),
    {
        let mut s = String::new();
        match self {
            CudaError::DriverError(m) => {
                proof {
                    reveal_strlit("CUDA driver error: ");
                }
                s.append("CUDA driver error: ");
                s.append(m.as_str());
            },
            CudaError::OutOfMemory { requested, available } => {
                proof {
                    reveal_strlit("Out of GPU memory: requested ");
                    reveal_strlit(" bytes, available ");
                    reveal_strlit(" bytes");
                }
                s.append("Out of GPU memory: requested ");
                push_decimal(&mut s, *requested);
                s.append(" bytes, available ");
                push_decimal(&mut s, *available);
                s.append(" bytes");
            },
            CudaError::InvalidDevice(d) => {
                proof {
                    reveal_strlit("Invalid device ID: ");
                }
                s.append("Invalid device ID: ");
                push_signed(&mut s, *d);
            },
            CudaError::DeviceNotInitialized => {
                proof {
                    reveal_strlit("CUDA device not initialized");
                }
                s.append("CUDA device not initialized");
            },
            CudaError::StreamError(m) => {
                proof {
                    reveal_strlit("CUDA stream error: ");
                }
                s.append("CUDA stream error: ");
                s.append(m.as_str());
            },
            CudaError::TransferError(m) => {
                proof {
                    reveal_strlit("Memory transfer failed: ");
                }
                s.append("Memory transfer failed: ");
                s.append(m.as_str());
            },
            CudaError::InvalidBuffer(m) => {
                proof {
                    reveal_strlit("Invalid buffer: ");
                }
                s.append("Invalid buffer: ");
                s.append(m.as_str());
            },
            CudaError::SyncError(m) => {
                proof {
                    reveal_strlit("Synchronization error: ");
                }
                s.append("Synchronization error: ");
                s.append(m.as_str());
            },
            CudaError::PoolError(m) => {
                proof {
                    reveal_strlit("Memory pool error: ");
                }
                s.append("Memory pool error: ");
                s.append(m.as_str());
            },
            CudaError::NotAvailable(m) => {
                proof {
                    reveal_strlit("Feature not available: ");
                }
                s.append("Feature not available: ");
                s.append(m.as_str());
            },
            CudaError::Internal(m) => {
                proof {
                    reveal_strlit("Internal error: ");
                }
                s.append("Internal error: ");
                s.append(m.as_str());
            },
        }
        s
    }

    /// Create an out of memory error.
    pub fn out_of_memory(requested: u64, available: u64) -> (r: Self)
        ensures
            r == (CudaError::OutOfMemory { requested, available }),
    {
        CudaError::OutOfMemory { requested, available }
    }

    /// Create a driver error.
    pub fn driver(msg: String) -> (r: Self)
        ensures
            r == CudaError::DriverError(msg),
    {
        CudaError::DriverError(msg)
    }

    /// Create a transfer error.
    pub fn transfer(msg: String) -> (r: Self)
        ensures
            r == CudaError::TransferError(msg),
    {
        CudaError::TransferError(msg)
    }
}

} // verus!
