//! Hardware performance counters.
//!
//! The rasterizer exposes a block of 32-bit counters that count busy cycles,
//! stall causes and FIFO depth samples.  The counters wrap around, so the
//! load over an interval is the wrapping difference between two snapshots.

use vstd::prelude::*;

verus! {

/// Difference of two 32-bit counter samples, modulo the counter width.
pub open spec fn wrap_diff(now: u32, prev: u32) -> u32 {
    if now >= prev {
        (now - prev) as u32
    } else {
        (now - prev + 0x1_0000_0000) as u32
    }
}

/// Field-wise wrapping difference of two stall snapshots.
pub open spec fn stalls_wrap_diff(now: Stalls, prev: Stalls) -> Stalls {
    Stalls {
        walker_searching: wrap_diff(now.walker_searching, prev.walker_searching),
        depth_load_addr: wrap_diff(now.depth_load_addr, prev.depth_load_addr),
        depth_fifo: wrap_diff(now.depth_fifo, prev.depth_fifo),
        depth_load_data: wrap_diff(now.depth_load_data, prev.depth_load_data),
        depth_store_addr: wrap_diff(now.depth_store_addr, prev.depth_store_addr),
        depth_store_data: wrap_diff(now.depth_store_data, prev.depth_store_data),
        pixel_store: wrap_diff(now.pixel_store, prev.pixel_store),
    }
}

/// Stall-cause counters of the rasterizer pipeline.
#[derive(Copy, Clone, PartialEq, Eq, Structural, Debug)]
pub struct Stalls {
    pub walker_searching: u32,
    pub depth_load_addr: u32,
    pub depth_fifo: u32,
    pub depth_load_data: u32,
    pub depth_store_addr: u32,
    pub depth_store_data: u32,
    pub pixel_store: u32,
}

impl Stalls {
    /// Counter increments since the `previous` snapshot, wrapping per field.
    pub fn diff(&self, previous: Self) -> (r: Self)
        ensures
            r == stalls_wrap_diff(*self, previous),
    {
        Self {
            walker_searching: self.walker_searching.wrapping_sub(previous.walker_searching),
            depth_load_addr: self.depth_load_addr.wrapping_sub(previous.depth_load_addr),
            depth_fifo: self.depth_fifo.wrapping_sub(previous.depth_fifo),
            depth_load_data: self.depth_load_data.wrapping_sub(previous.depth_load_data),
            depth_store_addr: self.depth_store_addr.wrapping_sub(previous.depth_store_addr),
            depth_store_data: self.depth_store_data.wrapping_sub(previous.depth_store_data),
            pixel_store: self.pixel_store.wrapping_sub(previous.pixel_store),
        }
    }
}

/// Snapshot of every performance counter of the rasterizer.
#[derive(Copy, Clone, Debug)]
pub struct PerfCounters {
    pub busy_cycles: u32,
    pub stalls: Stalls,
    pub fifo_depth: [u32; 9],
}

impl PerfCounters {
    /// Counter increments since the `previous` snapshot, wrapping per field.
    pub fn diff(&self, previous: Self) -> (r: Self)
        ensures
            r.busy_cycles == wrap_diff(self.busy_cycles, previous.busy_cycles),
            r.stalls == stalls_wrap_diff(self.stalls, previous.stalls),
            forall|i: int| 0 <= i < 9 ==> r.fifo_depth@[i] == wrap_diff(
                self.fifo_depth@[i],
                previous.fifo_depth@[i],
            ),
    {
        let mut depths: [u32; 9] = [0, 0, 0, 0, 0, 0, 0, 0, 0];
        let mut i: usize = 0;
        while i < 9
            invariant
                i <= 9,
                forall|j: int| 0 <= j < i ==> depths@[j] == wrap_diff(
                    self.fifo_depth@[j],
                    previous.fifo_depth@[j],
                ),
            decreases 9 - i,
        {
            depths[i] = self.fifo_depth[i].wrapping_sub(previous.fifo_depth[i]);
            i += 1;
        }
        Self {
            busy_cycles: self.busy_cycles.wrapping_sub(previous.busy_cycles),
            stalls: self.stalls.diff(previous.stalls),
            fifo_depth: depths,
        }
    }
}

} // verus!
