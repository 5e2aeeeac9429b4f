//! Streams: ordered queues of device work, their statistics, and a pool of
//! reusable streams.
//!
//! Stream identifiers are handed out by a `StreamIds` counter that the
//! caller owns (the first stream created gets 0, the next 1, and so on,
//! wrapping at `u64::MAX`).

use vstd::prelude::*;
use crate::cuda_error::CudaError;

verus! {

/// Stream priority.
#[derive(Debug, Clone, Copy, PartialEq, Eq, Structural)]
pub enum StreamPriority {
    /// High priority (for latency-critical transfers).
    High,
    /// Normal priority.
    Normal,
    /// Low priority (for background prefetching).
    Low,
}

impl StreamPriority {
    /// The driver's priority number: lower is higher priority.
    pub open spec fn spec_cuda_priority(self) -> int {
        match self {
            StreamPriority::High => -1,
            StreamPriority::Normal => 0,
            StreamPriority::Low => 1,
        }
    }

    /// Convert to the driver's priority number (lower = higher priority).
    pub fn to_cuda_priority(self) -> (r: i32)
        ensures
            r == self.spec_cuda_priority(),
    {
        match self {
            StreamPriority::High => -1,
            StreamPriority::Normal => 0,
            StreamPriority::Low => 1,
        }
    }
}

/// Stream statistics. Counters wrap at `u64::MAX`.
#[derive(Debug, Clone, Copy, PartialEq, Eq, Structural)]
pub struct StreamStats {
    /// Operations submitted.
    pub operations_submitted: u64,
    /// Synchronizations.
    pub synchronizations: u64,
    /// Bytes transferred.
    pub bytes_transferred: u64,
}

impl StreamStats {
    /// All counters at zero.
    pub open spec fn spec_zero() -> StreamStats {
        StreamStats { operations_submitted: 0, synchronizations: 0, bytes_transferred: 0 }
    }
}

impl Default for StreamStats {
    fn default() -> (r: Self)
        ensures
            r == StreamStats::spec_zero(),
    {
        StreamStats { operations_submitted: 0, synchronizations: 0, bytes_transferred: 0 }
    }
}

impl StreamStats {
    /// Count one submitted operation.
    pub fn increment_ops(&mut self)
        ensures
            *final(self) == (StreamStats {
                operations_submitted: old(self).operations_submitted.wrapping_add(1),
                ..*old(self)
            }),
    {
        self.operations_submitted = self.operations_submitted.wrapping_add(1);
    }

    /// Count one synchronization.
    pub fn increment_syncs(&mut self)
        ensures
            *final(self) == (StreamStats {
                synchronizations: old(self).synchronizations.wrapping_add(1),
                ..*old(self)
            }),
    {
        self.synchronizations = self.synchronizations.wrapping_add(1);
    }

    /// Count transferred bytes.
    pub fn add_bytes(&mut self, bytes: u64)
        ensures
            *final(self) == (StreamStats {
                bytes_transferred: old(self).bytes_transferred.wrapping_add(bytes),
                ..*old(self)
            }),
    {
        self.bytes_transferred = self.bytes_transferred.wrapping_add(bytes);
    }
}

/// The source of stream identifiers.
#[derive(Debug)]
pub struct StreamIds {
    /// The identifier the next stream gets.
    pub next: u64,
}

impl StreamIds {
    /// A counter starting at 0.
    pub fn new() -> (r: Self)
        ensures
            r.next == 0,
    {
        StreamIds { next: 0 }
    }

    /// Take the next identifier.
    pub fn take(&mut self) -> (r: u64)
        ensures
            r == old(self).next,
            final(self).next == old(self).next.wrapping_add(1),
    {
        let id = self.next;
        self.next = self.next.wrapping_add(1);
        id
    }
}

/// A stream on a device.
#[derive(Debug)]
pub struct CudaStream {
    /// Index of the device.
    device: i32,
    /// Stream ID (for tracking).
    id: u64,
    /// Priority.
    priority: StreamPriority,
    /// Statistics.
    stats: StreamStats,
    /// Whether this is the default stream.
    is_default: bool,
}

impl CudaStream {
    /// The device index.
    pub closed spec fn spec_device(&self) -> i32 {
        self.device
    }

    /// The stream identifier.
    pub closed spec fn spec_id(&self) -> u64 {
        self.id
    }

    /// The priority.
    pub closed spec fn spec_priority(&self) -> StreamPriority {
        self.priority
    }

    /// The statistics.
    pub closed spec fn spec_stats(&self) -> StreamStats {
        self.stats
    }

    /// Whether it is the device's default stream.
    pub closed spec fn spec_is_default(&self) -> bool {
        self.is_default
    }

    /// Create a stream on a device with the next identifier.
    pub fn new(device: i32, priority: StreamPriority, ids: &mut StreamIds) -> (r: Result<
        Self,
        CudaError,
    >)
        ensures
            final(ids).next == old(ids).next.wrapping_add(1),
            r matches Ok(s) && s.spec_device() == device && s.spec_id() == old(ids).next
                && s.spec_priority() == priority && !s.spec_is_default() && s.spec_stats()
                == StreamStats::spec_zero(),
    {
        let id = ids.take();
        Ok(CudaStream { device, id, priority, stats: StreamStats::default(), is_default: false })
    }

    /// The device's default stream: identifier 0, normal priority.
    pub fn default_stream(device: i32) -> (r: Result<Self, CudaError>)
        ensures
            r matches Ok(s) && s.spec_device() == device && s.spec_id() == 0 && s.spec_priority()
                == StreamPriority::Normal && s.spec_is_default() && s.spec_stats()
                == StreamStats::spec_zero(),
    {
        Ok(
            CudaStream {
                device,
                id: 0,
                priority: StreamPriority::Normal,
                stats: StreamStats::default(),
                is_default: true,
            },
        )
    }

    /// Get stream ID.
    pub fn id(&self) -> (r: u64)
        ensures
            r == self.spec_id(),
    {
        self.id
    }

    /// Get the device index.
    pub fn device(&self) -> (r: i32)
        ensures
            r == self.spec_device(),
    {
        self.device
    }

    /// Get priority.
    pub fn priority(&self) -> (r: StreamPriority)
        ensures
            r == self.spec_priority(),
    {
        self.priority
    }

    /// Check if this is the default stream.
    pub fn is_default(&self) -> (r: bool)
        ensures
            r == self.spec_is_default(),
    {
        self.is_default
    }

    /// Get statistics.
    pub fn stats(&self) -> (r: &StreamStats)
        ensures
            *r == self.spec_stats(),
    {
        &self.stats
    }

    /// Wait for the stream's work (none is outstanding without a driver)
    /// and count the synchronization.
    pub fn synchronize(&mut self) -> (r: Result<(), CudaError>)
        ensures
            r is Ok,
            final(self).spec_stats() == (StreamStats {
                synchronizations: old(self).spec_stats().synchronizations.wrapping_add(1),
                ..old(self).spec_stats()
            }),
            final(self).spec_id() == old(self).spec_id(),
            final(self).spec_device() == old(self).spec_device(),
            final(self).spec_priority() == old(self).spec_priority(),
            final(self).spec_is_default() == old(self).spec_is_default(),
    {
        self.stats.increment_syncs();
        Ok(())
    }

    /// Whether all work on the stream is complete.
    pub fn is_complete(&self) -> (r: Result<bool, CudaError>)
        ensures
            r == Ok::<bool, CudaError>(true),
    {
        Ok(true)
    }

    /// Count a submitted operation.
    pub fn record_operation(&mut self)
        ensures
            final(self).spec_stats() == (StreamStats {
                operations_submitted: old(self).spec_stats().operations_submitted.wrapping_add(1),
                ..old(self).spec_stats()
            }),
            final(self).spec_id() == old(self).spec_id(),
            final(self).spec_device() == old(self).spec_device(),
            final(self).spec_priority() == old(self).spec_priority(),
            final(self).spec_is_default() == old(self).spec_is_default(),
    {
        self.stats.increment_ops();
    }

    /// Count transferred bytes.
    pub fn record_transfer(&mut self, bytes: u64)
        ensures
            final(self).spec_stats() == (StreamStats {
                bytes_transferred: old(self).spec_stats().bytes_transferred.wrapping_add(bytes),
                ..old(self).spec_stats()
            }),
            final(self).spec_id() == old(self).spec_id(),
            final(self).spec_device() == old(self).spec_device(),
            final(self).spec_priority() == old(self).spec_priority(),
            final(self).spec_is_default() == old(self).spec_is_default(),
    {
        self.stats.add_bytes(bytes);
    }
}

/// A pool of reusable streams, holding at most `max_size` of them.
#[derive(Debug)]
pub struct StreamPool {
    /// Index of the device.
    device: i32,
    /// Streams available for reuse, the last returned at the end.
    available: Vec<CudaStream>,
    /// Maximum number of streams kept.
    max_size: usize,
}

impl StreamPool {
    /// The streams available for reuse (the last returned at the end).
    pub closed spec fn spec_available(&self) -> Seq<CudaStream> {
        self.available@
    }

    /// The most streams kept.
    pub closed spec fn spec_max_size(&self) -> usize {
        self.max_size
    }

    /// The device index.
    pub closed spec fn spec_device(&self) -> i32 {
        self.device
    }

    /// Create an empty pool for a device.
    pub fn new(device: i32, max_size: usize) -> (r: Self)
        ensures
            r.spec_available().len() == 0,
            r.spec_max_size() == max_size,
            r.spec_device() == device,
    {
        StreamPool { device, available: Vec::new(), max_size }
    }

    /// Get a stream: the one returned last, or a new normal-priority stream
    /// numbered from `ids` when none is available.
    pub fn get(&mut self, ids: &mut StreamIds) -> (r: Result<CudaStream, CudaError>)
        ensures
            final(self).spec_max_size() == old(self).spec_max_size(),
            final(self).spec_device() == old(self).spec_device(),
            old(self).spec_available().len() > 0 ==> r == Ok::<CudaStream, CudaError>(
                old(self).spec_available().last(),
            ) && final(self).spec_available() == old(self).spec_available().drop_last()
                && final(ids).next == old(ids).next,
            old(self).spec_available().len() == 0 ==> (r matches Ok(s) && s.spec_device()
                == old(self).spec_device() && s.spec_id() == old(ids).next && s.spec_priority()
                == StreamPriority::Normal && !s.spec_is_default()) && final(self).spec_available().len()
                == 0 && final(ids).next == old(ids).next.wrapping_add(1),
    {
        match self.available.pop() {
            Some(stream) => Ok(stream),
            None => CudaStream::new(self.device, StreamPriority::Normal, ids),
        }
    }

    /// Return a stream to the pool; it is dropped when the pool is full.
    pub fn put(&mut self, stream: CudaStream)
        ensures
            final(self).spec_available() == (if old(self).spec_available().len()
                < old(self).spec_max_size() {
                old(self).spec_available().push(stream)
            } else {
                old(self).spec_available()
            }),
            final(self).spec_max_size() == old(self).spec_max_size(),
            final(self).spec_device() == old(self).spec_device(),
    {
        if self.available.len() < self.max_size {
            self.available.push(stream);
        }
    }

    /// Number of streams available.
    pub fn size(&self) -> (r: usize)
        ensures
            r == self.spec_available().len(),
    {
        self.available.len()
    }
}


/// A more urgent stream gets a lower driver priority number: High below
/// Normal below Low, Normal being the driver's default 0.
pub proof fn law_cuda_priority_follows_urgency()
    ensures
        StreamPriority::High.spec_cuda_priority() < StreamPriority::Normal.spec_cuda_priority(),
        StreamPriority::Normal.spec_cuda_priority() < StreamPriority::Low.spec_cuda_priority(),
        StreamPriority::Normal.spec_cuda_priority() == 0,
{
}

} // verus!
