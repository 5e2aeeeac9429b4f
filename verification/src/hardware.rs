//! Memory-tier capacities in bytes.
//!
//! Hardware configurations are written in gigabytes and bandwidths as
//! floating-point numbers; the library's bookkeeping reads only the byte
//! capacity of each tier, which this module holds.

use vstd::prelude::*;
use crate::types::Location;

verus! {

/// Byte capacity of each local memory tier. A tier the machine does not
/// have (CXL, typically) has capacity 0, as do remote and virtual locations.
#[derive(Debug, Clone, Copy, PartialEq, Eq, Structural)]
pub struct TierCapacities {
    pub hbm_bytes: u64,
    pub dram_bytes: u64,
    pub nvme_bytes: u64,
    pub cxl_bytes: u64,
}

impl TierCapacities {
    /// Capacity of a location.
    pub open spec fn capacity_of(&self, location: Location) -> u64 {
        match location {
            Location::Hbm => self.hbm_bytes,
            Location::Dram => self.dram_bytes,
            Location::Nvme => self.nvme_bytes,
            Location::Cxl => self.cxl_bytes,
            _ => 0,
        }
    }

    /// Total capacity at a location, in bytes.
    pub fn total_capacity(&self, location: Location) -> (r: u64)
        ensures
            r == self.capacity_of(location),
    {
        match location {
            Location::Hbm => self.hbm_bytes,
            Location::Dram => self.dram_bytes,
            Location::Nvme => self.nvme_bytes,
            Location::Cxl => self.cxl_bytes,
            _ => 0,
        }
    }
}

/// Capacity and allocation of one memory tier.
#[derive(Debug, Clone, Copy, PartialEq, Eq, Structural)]
pub struct TierUsage {
    /// Total capacity in bytes.
    pub capacity_bytes: u64,
    /// Currently allocated bytes.
    pub used_bytes: u64,
}

impl TierUsage {
    /// Free bytes: capacity minus use, or 0 when use exceeds capacity.
    pub open spec fn spec_available(&self) -> u64 {
        if self.used_bytes <= self.capacity_bytes {
            (self.capacity_bytes - self.used_bytes) as u64
        } else {
            0
        }
    }

    /// Available capacity in bytes.
    pub fn available_bytes(&self) -> (r: u64)
        ensures
            r == self.spec_available(),
    {
        self.capacity_bytes.saturating_sub(self.used_bytes)
    }

    /// Check if `size_bytes` fits in the available space.
    pub fn can_fit(&self, size_bytes: u64) -> (r: bool)
        ensures
            r == (size_bytes <= self.spec_available()),
    {
        size_bytes <= self.available_bytes()
    }
}


/// Each tier's capacity is the configured byte count of that same tier,
/// and depends on nothing else: changing another tier's count leaves it.
/// Remote and virtual locations have no capacity.
pub proof fn law_capacity_is_own_tier(c: TierCapacities, d: TierCapacities)
    ensures
        c.capacity_of(Location::Hbm) == c.hbm_bytes,
        c.capacity_of(Location::Dram) == c.dram_bytes,
        c.capacity_of(Location::Nvme) == c.nvme_bytes,
        c.capacity_of(Location::Cxl) == c.cxl_bytes,
        c.capacity_of(Location::RemoteGpu) == 0 && c.capacity_of(Location::RemoteHost) == 0,
        c.capacity_of(Location::NotMaterialized) == 0 && c.capacity_of(Location::Evicted) == 0,
        c.nvme_bytes == d.nvme_bytes ==> c.capacity_of(Location::Nvme) == d.capacity_of(
            Location::Nvme,
        ),
        c.cxl_bytes == d.cxl_bytes ==> c.capacity_of(Location::Cxl) == d.capacity_of(Location::Cxl),
        c.hbm_bytes == d.hbm_bytes ==> c.capacity_of(Location::Hbm) == d.capacity_of(Location::Hbm),
        c.dram_bytes == d.dram_bytes ==> c.capacity_of(Location::Dram) == d.capacity_of(
            Location::Dram,
        ),
{
}

} // verus!
