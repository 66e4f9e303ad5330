use umd::perf::{PerfCounters, Stalls};

fn stalls(base: u32) -> Stalls {
    Stalls {
        walker_searching: base,
        depth_load_addr: base + 1,
        depth_fifo: base + 2,
        depth_load_data: base + 3,
        depth_store_addr: base + 4,
        depth_store_data: base + 5,
        pixel_store: base + 6,
    }
}

#[test]
fn stall_diff_subtracts_field_wise() {
    let d = stalls(1000).diff(stalls(100));
    assert_eq!(d.walker_searching, 900);
    assert_eq!(d.pixel_store, 900);
}

#[test]
fn counter_diff_wraps_around() {
    let before = Stalls { walker_searching: u32::MAX - 4, ..stalls(0) };
    let after = Stalls { walker_searching: 5, ..stalls(0) };
    assert_eq!(after.diff(before).walker_searching, 10);
}

#[test]
fn perf_counter_diff_covers_every_field() {
    let before = PerfCounters {
        busy_cycles: u32::MAX,
        stalls: stalls(7),
        fifo_depth: [1, 2, 3, 4, 5, 6, 7, 8, 9],
    };
    let after = PerfCounters {
        busy_cycles: 9,
        stalls: stalls(17),
        fifo_depth: [11, 12, 13, 14, 15, 16, 17, 18, 19],
    };
    let d = after.diff(before);
    assert_eq!(d.busy_cycles, 10);
    assert_eq!(d.stalls.depth_fifo, 10);
    assert_eq!(d.fifo_depth, [10; 9]);
}
