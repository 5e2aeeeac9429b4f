//! Transfers between host and device memory: their directions, records and
//! statistics, and the engine that checks and counts them.
//!
//! Without a driver no bytes move; the engine checks sizes, counts each
//! transfer by direction, and keeps a record of the asynchronous ones.

use vstd::prelude::*;
use crate::buffer::{CpuBuffer, GpuBuffer};
use crate::cuda_error::CudaError;
use crate::memory::DeviceMemory;
use crate::stream::{CudaStream, StreamIds, StreamPool, StreamPriority, StreamStats};
use crate::types::{Location, StateId};

verus! {

/// Direction of a memory transfer.
#[derive(Debug, Clone, Copy, PartialEq, Eq, Structural)]
pub enum TransferDirection {
    /// Host (CPU) to Device (GPU).
    HostToDevice,
    /// Device (GPU) to Host (CPU).
    DeviceToHost,
    /// Device to Device (same or different GPU).
    DeviceToDevice,
}

impl TransferDirection {
    /// The direction between two locations: DRAM to HBM is host to device,
    /// HBM to DRAM device to host, HBM to HBM device to device; no other
    /// pair has one.
    pub open spec fn spec_from_locations(src: Location, dst: Location) -> Option<
        TransferDirection,
    > {
        match (src, dst) {
            (Location::Dram, Location::Hbm) => Some(TransferDirection::HostToDevice),
            (Location::Hbm, Location::Dram) => Some(TransferDirection::DeviceToHost),
            (Location::Hbm, Location::Hbm) => Some(TransferDirection::DeviceToDevice),
            _ => None,
        }
    }

    /// Get the transfer direction between two locations, if there is one.
    pub fn from_locations(src: Location, dst: Location) -> (r: Option<Self>)
        ensures
            r == Self::spec_from_locations(src, dst),
    {
        match (src, dst) {
            (Location::Dram, Location::Hbm) => Some(TransferDirection::HostToDevice),
            (Location::Hbm, Location::Dram) => Some(TransferDirection::DeviceToHost),
            (Location::Hbm, Location::Hbm) => Some(TransferDirection::DeviceToDevice),
            _ => None,
        }
    }
}

/// A transfer request.
#[derive(Debug)]
pub struct TransferRequest {
    /// Unique ID.
    pub id: u64,
    /// Direction.
    pub direction: TransferDirection,
    /// Size in bytes.
    pub size: u64,
    /// Associated state ID.
    pub state_id: Option<StateId>,
    /// Stream to use.
    pub stream_id: u64,
    /// Whether transfer is complete.
    pub complete: bool,
}

/// Transfer statistics by direction. Counters wrap at `u64::MAX`.
#[derive(Debug, Clone, Copy, PartialEq, Eq, Structural)]
pub struct TransferStats {
    pub h2d_transfers: u64,
    pub d2h_transfers: u64,
    pub d2d_transfers: u64,
    pub h2d_bytes: u64,
    pub d2h_bytes: u64,
    pub d2d_bytes: u64,
}

impl TransferStats {
    /// All counters at zero.
    pub open spec fn spec_zero() -> TransferStats {
        TransferStats {
            h2d_transfers: 0,
            d2h_transfers: 0,
            d2d_transfers: 0,
            h2d_bytes: 0,
            d2h_bytes: 0,
            d2d_bytes: 0,
        }
    }

    /// The statistics after one more transfer of `bytes` in `direction`.
    pub open spec fn recorded(self, direction: TransferDirection, bytes: u64) -> TransferStats {
        match direction {
            TransferDirection::HostToDevice => TransferStats {
                h2d_transfers: self.h2d_transfers.wrapping_add(1),
                h2d_bytes: self.h2d_bytes.wrapping_add(bytes),
                ..self
            },
            TransferDirection::DeviceToHost => TransferStats {
                d2h_transfers: self.d2h_transfers.wrapping_add(1),
                d2h_bytes: self.d2h_bytes.wrapping_add(bytes),
                ..self
            },
            TransferDirection::DeviceToDevice => TransferStats {
                d2d_transfers: self.d2d_transfers.wrapping_add(1),
                d2d_bytes: self.d2d_bytes.wrapping_add(bytes),
                ..self
            },
        }
    }

    /// Count one transfer of `bytes` in `direction`.
    pub fn record(&mut self, direction: TransferDirection, bytes: u64)
        ensures
            *final(self) == old(self).recorded(direction, bytes),
    {
        match direction {
            TransferDirection::HostToDevice => {
                self.h2d_transfers = self.h2d_transfers.wrapping_add(1);
                self.h2d_bytes = self.h2d_bytes.wrapping_add(bytes);
            },
            TransferDirection::DeviceToHost => {
                self.d2h_transfers = self.d2h_transfers.wrapping_add(1);
                self.d2h_bytes = self.d2h_bytes.wrapping_add(bytes);
            },
            TransferDirection::DeviceToDevice => {
                self.d2d_transfers = self.d2d_transfers.wrapping_add(1);
                self.d2d_bytes = self.d2d_bytes.wrapping_add(bytes);
            },
        }
    }

    /// Transfers in all directions.
    pub open spec fn spec_total_transfers(&self) -> int {
        self.h2d_transfers + self.d2h_transfers + self.d2d_transfers
    }

    /// Bytes in all directions.
    pub open spec fn spec_total_bytes(&self) -> int {
        self.h2d_bytes + self.d2h_bytes + self.d2d_bytes
    }

    /// Total transfers.
    pub fn total_transfers(&self) -> (r: u64)
        requires
            self.spec_total_transfers() <= u64::MAX,
        ensures
            r == self.spec_total_transfers(),
    {
        self.h2d_transfers + self.d2h_transfers + self.d2d_transfers
    }

    /// Total bytes transferred.
    pub fn total_bytes(&self) -> (r: u64)
        requires
            self.spec_total_bytes() <= u64::MAX,
        ensures
            r == self.spec_total_bytes(),
    {
        self.h2d_bytes + self.d2h_bytes + self.d2d_bytes
    }
}

/// The statistics after recording each transfer of `rs` in turn, from `s`.
pub open spec fn recorded_all(s: TransferStats, rs: Seq<(TransferDirection, u64)>) -> TransferStats
    decreases rs.len(),
{
    if rs.len() == 0 {
        s
    } else {
        recorded_all(s, rs.drop_last()).recorded(rs.last().0, rs.last().1)
    }
}

/// The bytes of all transfers in `rs`.
pub open spec fn bytes_of(rs: Seq<(TransferDirection, u64)>) -> int
    decreases rs.len(),
{
    if rs.len() == 0 {
        0
    } else {
        bytes_of(rs.drop_last()) + rs.last().1
    }
}

/// Starting from zero, after any sequence of recorded transfers whose byte
/// sum and count fit in a `u64`, the total bytes are the sum of the bytes
/// recorded and the total transfers are the number of records.
pub proof fn law_totals_sum_records(rs: Seq<(TransferDirection, u64)>)
    requires
        bytes_of(rs) <= u64::MAX,
        rs.len() <= u64::MAX,
    ensures
        recorded_all(TransferStats::spec_zero(), rs).spec_total_bytes() == bytes_of(rs),
        recorded_all(TransferStats::spec_zero(), rs).spec_total_transfers() == rs.len(),
    decreases rs.len(),
{
    if rs.len() > 0 {
        let init = rs.drop_last();
        assert(bytes_of(init) <= bytes_of(rs));
        law_totals_sum_records(init);
    }
}

impl Default for TransferStats {
    fn default() -> (r: Self)
        ensures
            r == TransferStats::spec_zero(),
    {
        TransferStats {
            h2d_transfers: 0,
            d2h_transfers: 0,
            d2d_transfers: 0,
            h2d_bytes: 0,
            d2h_bytes: 0,
            d2d_bytes: 0,
        }
    }
}

/// Handle to an asynchronous transfer: its request and the stream it ran
/// on (`None` for the engine's default stream).
#[derive(Debug)]
pub struct TransferHandle {
    request_id: u64,
    stream: Option<CudaStream>,
}

impl TransferHandle {
    /// The request identifier.
    pub closed spec fn spec_id(&self) -> u64 {
        self.request_id
    }

    /// The stream the transfer ran on, `None` for the default stream.
    pub closed spec fn spec_stream(&self) -> Option<CudaStream> {
        self.stream
    }

    /// Wait for the transfer: synchronize its stream.
    pub fn wait(&mut self, engine: &mut TransferEngine) -> (r: Result<(), CudaError>)
        ensures
            r is Ok,
            final(engine).spec_stats() == old(engine).spec_stats(),
            final(engine).spec_pending() == old(engine).spec_pending(),
            final(self).spec_id() == old(self).spec_id(),
            old(self).spec_stream() is None ==> final(engine).spec_default_stream().spec_stats()
                == (StreamStats {
                synchronizations: old(engine).spec_default_stream().spec_stats().synchronizations.wrapping_add(1),
                ..old(engine).spec_default_stream().spec_stats()
            }),
    {
        match &mut self.stream {
            Some(s) => s.synchronize(),
            None => engine.default_stream.synchronize(),
        }
    }

    /// Whether the transfer is complete.
    pub fn is_complete(&self) -> (r: Result<bool, CudaError>)
        ensures
            r == Ok::<bool, CudaError>(true),
    {
        Ok(true)
    }

    /// Get request ID.
    pub fn id(&self) -> (r: u64)
        ensures
            r == self.spec_id(),
    {
        self.request_id
    }
}

/// The engine that checks, counts and records transfers on a device.
#[derive(Debug)]
pub struct TransferEngine {
    /// Index of the device.
    device: i32,
    /// Stream pool for concurrent transfers.
    stream_pool: StreamPool,
    /// Default stream for synchronous transfers.
    default_stream: CudaStream,
    /// Identifiers for new streams.
    ids: StreamIds,
    /// Records of asynchronous transfers, oldest first.
    pending: Vec<TransferRequest>,
    /// The identifier of the next transfer.
    transfer_id: u64,
    /// Statistics.
    pub stats: TransferStats,
}

/// The message of a refused host-to-device copy.
pub open spec fn source_larger_message() -> Seq<char> {
    "Source larger than destination"@
}

/// The message of a refused device-to-host copy.
pub open spec fn destination_smaller_message() -> Seq<char> {
    "Destination smaller than source"@
}

fn source_larger() -> (r: CudaError)
    ensures
        r matches CudaError::TransferError(m) && m@ == source_larger_message(),
{
    proof {
        reveal_strlit("Source larger than destination");
    }
    CudaError::transfer(String::from_str("Source larger than destination"))
}

fn destination_smaller() -> (r: CudaError)
    ensures
        r matches CudaError::TransferError(m) && m@ == destination_smaller_message(),
{
    proof {
        reveal_strlit("Destination smaller than source");
    }
    CudaError::transfer(String::from_str("Destination smaller than source"))
}

impl TransferEngine {
    /// The statistics.
    pub closed spec fn spec_stats(&self) -> TransferStats {
        self.stats
    }

    /// The records of asynchronous transfers.
    pub closed spec fn spec_pending(&self) -> Seq<TransferRequest> {
        self.pending@
    }

    /// The identifier the next transfer gets.
    pub closed spec fn spec_next_transfer(&self) -> u64 {
        self.transfer_id
    }

    /// The default stream.
    pub closed spec fn spec_default_stream(&self) -> CudaStream {
        self.default_stream
    }

    /// The device index.
    pub closed spec fn spec_device(&self) -> i32 {
        self.device
    }

    /// Create an engine for a device: a pool of up to 8 streams, a
    /// high-priority default stream numbered from `ids`, no records, the
    /// first transfer numbered 1, all counters at zero.
    pub fn new(device: i32, ids: StreamIds) -> (r: Result<Self, CudaError>)
        ensures
            r matches Ok(e) && e.spec_device() == device && e.spec_pending().len() == 0
                && e.spec_next_transfer() == 1 && e.spec_stats() == TransferStats::spec_zero()
                && e.spec_default_stream().spec_id() == ids.next
                && e.spec_default_stream().spec_priority() == StreamPriority::High,
    {
        let mut ids = ids;
        let stream_pool = StreamPool::new(device, 8);
        let default_stream = match CudaStream::new(device, StreamPriority::High, &mut ids) {
            Ok(s) => s,
            Err(e) => {
                return Err(e);
            },
        };
        Ok(
            TransferEngine {
                device,
                stream_pool,
                default_stream,
                ids,
                pending: Vec::new(),
                transfer_id: 1,
                stats: TransferStats::default(),
            },
        )
    }

    /// Get the device index.
    pub fn device(&self) -> (r: i32)
        ensures
            r == self.spec_device(),
    {
        self.device
    }

    fn next_id(&mut self) -> (r: u64)
        ensures
            r == old(self).spec_next_transfer(),
            final(self).spec_next_transfer() == old(self).spec_next_transfer().wrapping_add(1),
            final(self).spec_stats() == old(self).spec_stats(),
            final(self).spec_pending() == old(self).spec_pending(),
            final(self).spec_device() == old(self).spec_device(),
            final(self).spec_default_stream() == old(self).spec_default_stream(),
    {
        let id = self.transfer_id;
        self.transfer_id = self.transfer_id.wrapping_add(1);
        id
    }

    /// Copy host bytes to device memory: refused when the source is larger
    /// than the destination; counted as a host-to-device transfer of the
    /// source's length.
    pub fn copy_h2d(&mut self, src: &[u8], dst: &mut DeviceMemory) -> (r: Result<(), CudaError>)
        ensures
            r is Ok == (src@.len() <= old(dst).spec_size()),
            r is Ok ==> final(self).spec_stats() == old(self).spec_stats().recorded(
                TransferDirection::HostToDevice,
                src@.len() as u64,
            ),
            r matches Err(e) ==> final(self).spec_stats() == old(self).spec_stats() && (
            e matches CudaError::TransferError(m) && m@ == source_larger_message()),
            final(self).spec_pending() == old(self).spec_pending(),
            final(self).spec_next_transfer() == old(self).spec_next_transfer(),
            *final(dst) == *old(dst),
    {
        if src.len() as u64 > dst.size() {
            return Err(source_larger());
        }
        self.stats.record(TransferDirection::HostToDevice, src.len() as u64);
        Ok(())
    }

    /// Copy device memory to host bytes: refused when the destination is
    /// smaller than the source; counted as a device-to-host transfer of the
    /// source's size.
    pub fn copy_d2h(&mut self, src: &DeviceMemory, dst: &mut [u8]) -> (r: Result<(), CudaError>)
        ensures
            r is Ok == (old(dst)@.len() >= src.spec_size()),
            r is Ok ==> final(self).spec_stats() == old(self).spec_stats().recorded(
                TransferDirection::DeviceToHost,
                src.spec_size(),
            ),
            r matches Err(e) ==> final(self).spec_stats() == old(self).spec_stats() && (
            e matches CudaError::TransferError(m) && m@ == destination_smaller_message()),
            final(self).spec_pending() == old(self).spec_pending(),
            final(self).spec_next_transfer() == old(self).spec_next_transfer(),
            final(dst)@ == old(dst)@,
    {
        if (dst.len() as u64) < src.size() {
            return Err(destination_smaller());
        }
        self.stats.record(TransferDirection::DeviceToHost, src.size());
        Ok(())
    }

    /// The stream an asynchronous transfer runs on: a new normal-priority
    /// stream when one is asked for, else the default stream.
    fn transfer_stream(&mut self, stream: Option<&CudaStream>) -> (r: Option<CudaStream>)
        ensures
            stream is None ==> r is None && final(self).ids == old(self).ids,
            stream is Some ==> (r matches Some(s) && s.spec_id() == old(self).ids.next
                && s.spec_priority() == StreamPriority::Normal && s.spec_stats()
                == StreamStats::spec_zero()) && final(self).ids.next == old(self).ids.next.wrapping_add(1),
            final(self).spec_stats() == old(self).spec_stats(),
            final(self).spec_pending() == old(self).spec_pending(),
            final(self).spec_next_transfer() == old(self).spec_next_transfer(),
            final(self).spec_device() == old(self).spec_device(),
            final(self).spec_default_stream() == old(self).spec_default_stream(),
    {
        match stream {
            Some(_) => match CudaStream::new(self.device, StreamPriority::Normal, &mut self.ids) {
                Ok(s) => Some(s),
                Err(_) => None,
            },
            None => None,
        }
    }

    /// Record an asynchronous transfer of `size` bytes in `direction` on a
    /// stream and return its handle.
    fn finish_async(
        &mut self,
        direction: TransferDirection,
        size: u64,
        stream: Option<CudaStream>,
    ) -> (r: TransferHandle)
        ensures
            r.spec_id() == old(self).spec_next_transfer(),
            final(self).spec_next_transfer() == old(self).spec_next_transfer().wrapping_add(1),
            final(self).spec_stats() == old(self).spec_stats().recorded(direction, size),
            final(self).spec_pending().len() == old(self).spec_pending().len() + 1,
            final(self).spec_pending().drop_last() == old(self).spec_pending(),
            final(self).spec_pending().last().id == old(self).spec_next_transfer(),
            final(self).spec_pending().last().direction == direction,
            final(self).spec_pending().last().size == size,
            final(self).spec_pending().last().state_id is None,
            final(self).spec_pending().last().complete,
            final(self).spec_device() == old(self).spec_device(),
            r.spec_stream() is Some == stream is Some,
    {
        let id = self.next_id();
        let mut stream = stream;
        let stream_id = match &mut stream {
            Some(s) => {
                s.record_transfer(size);
                s.id()
            },
            None => {
                self.default_stream.record_transfer(size);
                self.default_stream.id()
            },
        };
        self.stats.record(direction, size);
        let request = TransferRequest {
            id,
            direction,
            size,
            state_id: None,
            stream_id,
            complete: true,
        };
        let ghost before = self.pending@;
        self.pending.push(request);
        assert(self.pending@.drop_last() =~= before);
        TransferHandle { request_id: id, stream }
    }

    /// Copy host bytes to device memory asynchronously: refused when the
    /// source is larger than the destination; otherwise counted, recorded
    /// and given the next transfer identifier.
    pub fn copy_h2d_async(
        &mut self,
        src: &[u8],
        dst: &mut DeviceMemory,
        stream: Option<&CudaStream>,
    ) -> (r: Result<TransferHandle, CudaError>)
        ensures
            r is Ok == (src@.len() <= old(dst).spec_size()),
            r matches Ok(h) ==> h.spec_id() == old(self).spec_next_transfer() && final(self).spec_stats() == old(self).spec_stats().recorded(
                TransferDirection::HostToDevice,
                src@.len() as u64,
            ) && final(self).spec_pending().drop_last() == old(self).spec_pending() && final(self).spec_pending().last().size == src@.len() && final(self).spec_pending().last().direction
                == TransferDirection::HostToDevice,
            r matches Err(e) ==> final(self).spec_stats() == old(self).spec_stats() && final(self).spec_pending() == old(self).spec_pending() && (e matches CudaError::TransferError(m)
                && m@ == source_larger_message()),
            *final(dst) == *old(dst),
    {
        if src.len() as u64 > dst.size() {
            return Err(source_larger());
        }
        let s = self.transfer_stream(stream);
        Ok(self.finish_async(TransferDirection::HostToDevice, src.len() as u64, s))
    }

    /// Copy device memory to host bytes asynchronously: refused when the
    /// destination is smaller than the source; otherwise counted, recorded
    /// and given the next transfer identifier.
    pub fn copy_d2h_async(
        &mut self,
        src: &DeviceMemory,
        dst: &mut [u8],
        stream: Option<&CudaStream>,
    ) -> (r: Result<TransferHandle, CudaError>)
        ensures
            r is Ok == (old(dst)@.len() >= src.spec_size()),
            r matches Ok(h) ==> h.spec_id() == old(self).spec_next_transfer() && final(self).spec_stats() == old(self).spec_stats().recorded(
                TransferDirection::DeviceToHost,
                src.spec_size(),
            ) && final(self).spec_pending().drop_last() == old(self).spec_pending() && final(self).spec_pending().last().size == src.spec_size() && final(self).spec_pending().last().direction == TransferDirection::DeviceToHost,
            r matches Err(e) ==> final(self).spec_stats() == old(self).spec_stats() && final(self).spec_pending() == old(self).spec_pending() && (e matches CudaError::TransferError(m)
                && m@ == destination_smaller_message()),
            final(dst)@ == old(dst)@,
    {
        if (dst.len() as u64) < src.size() {
            return Err(destination_smaller());
        }
        let s = self.transfer_stream(stream);
        Ok(self.finish_async(TransferDirection::DeviceToHost, src.size(), s))
    }

    /// Upload a host buffer into a device buffer: refused when the source
    /// is larger; counted as a host-to-device transfer of its bytes.
    pub fn upload(&mut self, src: &CpuBuffer, dst: &mut GpuBuffer) -> (r: Result<(), CudaError>)
        requires
            src.spec_memory().wf(),
        ensures
            r is Ok == (src.spec_memory().spec_size() <= old(dst).spec_memory().spec_size()),
            r is Ok ==> final(self).spec_stats() == old(self).spec_stats().recorded(
                TransferDirection::HostToDevice,
                src.spec_memory().spec_size(),
            ),
            r matches Err(e) ==> final(self).spec_stats() == old(self).spec_stats() && (
            e matches CudaError::TransferError(m) && m@ == source_larger_message()),
            final(self).spec_pending() == old(self).spec_pending(),
    {
        if src.size_bytes() > dst.size_bytes() {
            return Err(source_larger());
        }
        self.copy_h2d(src.as_slice(), dst.memory_mut())
    }

    /// Download a device buffer into a host buffer: refused when the
    /// source is larger; counted as a device-to-host transfer of its bytes.
    pub fn download(&mut self, src: &GpuBuffer, dst: &mut CpuBuffer) -> (r: Result<(), CudaError>)
        requires
            old(dst).spec_memory().wf(),
        ensures
            r is Ok == (src.spec_memory().spec_size() <= old(dst).spec_memory().spec_size()),
            r is Ok ==> final(self).spec_stats() == old(self).spec_stats().recorded(
                TransferDirection::DeviceToHost,
                src.spec_memory().spec_size(),
            ),
            r matches Err(e) ==> final(self).spec_stats() == old(self).spec_stats() && (
            e matches CudaError::TransferError(m) && m@ == source_larger_message()),
            final(self).spec_pending() == old(self).spec_pending(),
    {
        if src.size_bytes() > dst.size_bytes() {
            return Err(source_larger());
        }
        let slice = dst.as_mut_slice();
        self.copy_d2h(src.memory(), slice)
    }

    /// Upload a host buffer into a device buffer asynchronously: refused
    /// when the source is larger; otherwise counted as a host-to-device
    /// transfer of its bytes and given the next transfer identifier.
    pub fn upload_async(&mut self, src: &CpuBuffer, dst: &mut GpuBuffer) -> (r: Result<
        TransferHandle,
        CudaError,
    >)
        requires
            src.spec_memory().wf(),
        ensures
            r is Ok == (src.spec_memory().spec_size() <= old(dst).spec_memory().spec_size()),
            r matches Ok(h) ==> h.spec_id() == old(self).spec_next_transfer() && final(self).spec_stats()
                == old(self).spec_stats().recorded(
                TransferDirection::HostToDevice,
                src.spec_memory().spec_size(),
            ) && final(self).spec_pending().drop_last() == old(self).spec_pending()
                && final(self).spec_pending().last().size == src.spec_memory().spec_size()
                && final(self).spec_pending().last().direction == TransferDirection::HostToDevice,
            r matches Err(e) ==> final(self).spec_stats() == old(self).spec_stats() && final(self).spec_pending()
                == old(self).spec_pending() && (e matches CudaError::TransferError(m)
                && m@ == source_larger_message()),
    {
        if src.size_bytes() > dst.size_bytes() {
            return Err(source_larger());
        }
        self.copy_h2d_async(src.as_slice(), dst.memory_mut(), None)
    }

    /// Download a device buffer into a host buffer asynchronously: refused
    /// when the source is larger; otherwise counted as a device-to-host
    /// transfer of its bytes and given the next transfer identifier.
    pub fn download_async(&mut self, src: &GpuBuffer, dst: &mut CpuBuffer) -> (r: Result<
        TransferHandle,
        CudaError,
    >)
        requires
            old(dst).spec_memory().wf(),
        ensures
            r is Ok == (src.spec_memory().spec_size() <= old(dst).spec_memory().spec_size()),
            r matches Ok(h) ==> h.spec_id() == old(self).spec_next_transfer() && final(self).spec_stats()
                == old(self).spec_stats().recorded(
                TransferDirection::DeviceToHost,
                src.spec_memory().spec_size(),
            ) && final(self).spec_pending().drop_last() == old(self).spec_pending()
                && final(self).spec_pending().last().size == src.spec_memory().spec_size()
                && final(self).spec_pending().last().direction == TransferDirection::DeviceToHost,
            r matches Err(e) ==> final(self).spec_stats() == old(self).spec_stats() && final(self).spec_pending()
                == old(self).spec_pending() && (e matches CudaError::TransferError(m)
                && m@ == source_larger_message()),
    {
        if src.size_bytes() > dst.size_bytes() {
            return Err(source_larger());
        }
        let slice = dst.as_mut_slice();
        self.copy_d2h_async(src.memory(), slice, None)
    }

    /// Synchronize every stream of the device (the mock device has nothing
    /// in flight).
    pub fn synchronize_all(&self) -> (r: Result<(), CudaError>)
        ensures
            r is Ok,
    {
        Ok(())
    }

    /// Synchronize the default stream, which counts the synchronization;
    /// nothing else of the engine changes.
    pub fn synchronize(&mut self) -> (r: Result<(), CudaError>)
        ensures
            r is Ok,
            final(self).spec_stats() == old(self).spec_stats(),
            final(self).spec_pending() == old(self).spec_pending(),
            final(self).spec_next_transfer() == old(self).spec_next_transfer(),
            final(self).spec_device() == old(self).spec_device(),
            final(self).spec_default_stream().spec_stats() == (StreamStats {
                synchronizations: old(self).spec_default_stream().spec_stats().synchronizations.wrapping_add(1),
                ..old(self).spec_default_stream().spec_stats()
            }),
            final(self).spec_default_stream().spec_id() == old(self).spec_default_stream().spec_id(),
            final(self).spec_default_stream().spec_device() == old(self).spec_default_stream().spec_device(),
            final(self).spec_default_stream().spec_priority() == old(self).spec_default_stream().spec_priority(),
            final(self).spec_default_stream().spec_is_default() == old(self).spec_default_stream().spec_is_default(),
    {
        self.default_stream.synchronize()
    }

    /// Number of transfer records.
    pub fn pending_count(&self) -> (r: usize)
        ensures
            r == self.spec_pending().len(),
    {
        self.pending.len()
    }

    /// Drop the records of completed transfers, keeping the others in
    /// order.
    pub fn cleanup_completed(&mut self)
        ensures
            final(self).spec_pending() == old(self).spec_pending().filter(
                |t: TransferRequest| !t.complete,
            ),
            final(self).spec_stats() == old(self).spec_stats(),
    {
        let mut rest: Vec<TransferRequest> = Vec::new();
        std::mem::swap(&mut rest, &mut self.pending);
        let ghost all = rest@;
        let mut kept: Vec<TransferRequest> = Vec::new();
        let mut i: usize = 0;
        let n = rest.len();
        while i < n
            invariant
                n == all.len(),
                i <= n,
                rest@ == all.skip(i as int),
                kept@ == all.take(i as int).filter(|t: TransferRequest| !t.complete),
            decreases n - i,
        {
            let t = rest.remove(0);
            proof {
                assert(all.take(i + 1).drop_last() =~= all.take(i as int));
                assert(t == all[i as int]);
                assert(all.take(i + 1).last() == t);
                assert(rest@ =~= all.skip(i + 1));
                reveal(Seq::filter);
            }
            if !t.complete {
                kept.push(t);
            }
            i = i + 1;
        }
        proof {
            assert(all.take(n as int) =~= all);
        }
        self.pending = kept;
    }
}

} // verus!
