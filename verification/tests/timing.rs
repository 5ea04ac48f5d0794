use demucs_core::gpu::recorder::{Command, Recorder};
use demucs_core::gpu::schedule::{last_uses, names_buffer};
use demucs_core::gpu::kernels::{Kernels, Settings};
use demucs_core::gpu::timing::{
    host_timing_add, host_timing_take, rank, totals, HostTally, HostTiming, Row, Timing,
    TIMING_CAPACITY,
};

fn row(label: &'static str, ticks: u64) -> Row {
    Row { label, grid: (1, 2, 3), ticks }
}

#[test]
fn intervals_run_from_begin_to_begin() {
    let mut timing = Timing::new();
    assert_eq!(timing.claim("a", (1, 1, 1)), Some(0));
    assert_eq!(timing.claim("b", (2, 1, 1)), Some(1));
    assert_eq!(timing.claim("c", (3, 1, 1)), Some(2));
    let rows = timing.intervals(&vec![100, 250, 240]);
    let shown: Vec<(&str, u32, u64)> = rows.iter().map(|r| (r.label, r.grid.0, r.ticks)).collect();
    // A clock that steps back is no time at all, and the last launch has no end.
    assert_eq!(shown, vec![("a", 1, 150), ("b", 2, 0)]);
    assert!(Timing::new().intervals(&vec![]).is_empty());
}

#[test]
fn launches_past_the_capacity_run_untimed() {
    let mut timing = Timing::new();
    for index in 0..TIMING_CAPACITY {
        assert_eq!(timing.claim("a", (1, 1, 1)), Some(index));
    }
    assert_eq!(timing.claim("a", (1, 1, 1)), None);
    assert_eq!(timing.dispatches.len(), 4096);
}

#[test]
fn totals_are_kept_per_kernel_in_order_of_first_sight() {
    let rows = vec![row("glu", 1), row("gemm", 5), row("copy", 9), row("gemm", 7)];
    let shown: Vec<(&str, usize, u128, u64)> =
        totals(&rows).iter().map(|t| (t.label, t.count, t.sum, t.max)).collect();
    assert_eq!(shown, vec![("glu", 1, 1, 1), ("gemm", 2, 12, 7), ("copy", 1, 9, 9)]);
}

#[test]
fn ranking_puts_the_slowest_first() {
    let rows = vec![row("a", 5), row("b", 9), row("c", 7), row("d", 9)];
    let shown: Vec<(&str, u64)> = rank(&rows).iter().map(|r| (r.label, r.ticks)).collect();
    assert_eq!(shown, vec![("b", 9), ("d", 9), ("c", 7), ("a", 5)]);
}

#[test]
fn host_time_is_tallied_per_slot_and_taken_once() {
    let mut timing = HostTiming::new();
    host_timing_add(&mut timing, "bind_group", 10);
    host_timing_add(&mut timing, "bind_group", 5);
    host_timing_add(&mut timing, "submit", 7);
    host_timing_add(&mut timing, "no such slot", 99);
    let taken = host_timing_take(&mut timing);
    assert_eq!(taken.bind_group, HostTally { nanos: 15, ops: 2 });
    assert_eq!(taken.submit, HostTally { nanos: 7, ops: 1 });
    assert_eq!(taken.dispatch, HostTally { nanos: 0, ops: 0 });
    assert_eq!(timing, HostTiming::new());
}

#[test]
fn a_buffer_is_done_with_after_its_last_command() {
    let settings = Settings::read(None, None, None, None, None, None, None, None, None);
    let k = Kernels::new(false, settings);
    let mut rec = Recorder::new(3, 1 << 30);
    let a = rec.tensor(vec![100], "a").unwrap();
    let b = rec.tensor(vec![100], "b").unwrap();
    let unused = rec.tensor(vec![100], "unused").unwrap();
    k.gelu_into(&mut rec, &a, &b);
    k.gelu_in_place(&mut rec, &b);
    k.copy(&mut rec, &b, &a, 100);
    rec.readback(&b);
    let commands: Vec<Command> = rec.into_commands();
    assert_eq!(last_uses(&commands, 3), vec![5, 6, 2, 3, 4, 5, 6]);
    assert!(names_buffer(&commands[6], b.buffer));
    assert!(!names_buffer(&commands[6], a.buffer));
    assert!(!names_buffer(&commands[3], unused.buffer));
    // Buffers of another plan are not this one's.
    assert_eq!(last_uses(&commands, 4), vec![0, 1, 2, 3, 4, 5, 6]);
}
