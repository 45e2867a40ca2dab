use felix::accumulator::{
    add_jit_invocations, advance_cumulative, ComputedFrame, CumulativeCountStats, ThreadLoad,
};
use felix::export::{csv_header, csv_row};
use felix::recording::{Frame, LegacyComputedFrame, LegacyFrame};
use felix::smaps::MemSnapshot;
use felix::thread_stats::{SampleResult, ThreadDelta};
use felix::types::segment_pid;

#[test]
fn csv_header_names_every_column() {
    let header = csv_header();
    let columns: Vec<&str> = header.split(',').collect();
    assert_eq!(columns.len(), 27);
    assert_eq!(columns[0], "frame");
    assert_eq!(columns[14], "fex_load_percent");
    assert_eq!(columns[26], "mem_unaccounted");
}

#[test]
fn csv_row_follows_header_order() {
    let frame = ComputedFrame {
        timestamp_ns: 1,
        sample_period_ns: 2,
        threads_sampled: 3,
        total_jit_time: 4,
        total_signal_time: 5,
        total_sigbus_count: 6,
        total_smc_count: 7,
        total_float_fallback_count: 8,
        total_cache_miss_count: 9,
        total_cache_read_lock_time: 10,
        total_cache_write_lock_time: 11,
        total_jit_count: 12,
        total_jit_invocations: 13,
        fex_load_ppm: 125_007,
        mem: MemSnapshot {
            total_anon: 14,
            jit_code: 15,
            op_dispatcher: 16,
            frontend: 17,
            cpu_backend: 18,
            lookup: 19,
            lookup_l1: 20,
            thread_states: 21,
            block_links: 22,
            misc: 23,
            jemalloc: 24,
            unaccounted: 25,
            ..MemSnapshot::default()
        },
        ..ComputedFrame::default()
    };
    assert_eq!(
        csv_row(42, &frame),
        "42,1,2,3,4,5,6,7,8,9,10,11,12,13,12.5007,14,15,16,17,18,19,20,21,22,23,24,25"
    );
    let zero = ComputedFrame::default();
    assert_eq!(csv_row(0, &zero), "0,0,0,0,0,0,0,0,0,0,0,0,0,0,0.0000,0,0,0,0,0,0,0,0,0,0,0,0");
}

#[test]
fn segment_names_give_pids() {
    assert_eq!(segment_pid("fex-1234-stats"), Some(1234));
    assert_eq!(segment_pid("fex--7-stats"), Some(-7));
    assert_eq!(segment_pid("fex-+7-stats"), Some(7));
    assert_eq!(segment_pid("fex-2147483647-stats"), Some(i32::MAX));
    assert_eq!(segment_pid("fex--2147483648-stats"), Some(i32::MIN));
    assert_eq!(segment_pid("fex-2147483648-stats"), None);
    assert_eq!(segment_pid("fex--+7-stats"), None);
    assert_eq!(segment_pid("fex--stats"), None);
    assert_eq!(segment_pid("fex-12-stat"), None);
    assert_eq!(segment_pid("fox-12-stats"), None);
    assert_eq!(segment_pid("fex-1a-stats"), None);
}

fn sample(deltas: Vec<ThreadDelta>) -> SampleResult {
    let n = deltas.len();
    SampleResult { timestamp_ns: 0, per_thread: deltas, threads_sampled: n }
}

#[test]
fn running_counters_advance_by_sample_totals() {
    let s = sample(vec![
        ThreadDelta { tid: 1, jit_count: 3, sigbus_count: 1, smc_count: 2, ..ThreadDelta::default() },
        ThreadDelta { tid: 2, jit_count: 4, float_fallback_count: 5, cache_miss_count: 6, ..ThreadDelta::default() },
    ]);
    assert_eq!(add_jit_invocations(10, &s), 17);
    assert_eq!(add_jit_invocations(u64::MAX, &s), 6);
    let c = advance_cumulative(CumulativeCountStats { sigbus: 1, smc: 1, float_fallback: 1, cache_miss: 1, jit: 1 }, &s);
    assert_eq!(c, CumulativeCountStats { sigbus: 2, smc: 3, float_fallback: 6, cache_miss: 7, jit: 8 });
}

#[test]
fn legacy_frames_upgrade_with_zero_cumulative() {
    let legacy = LegacyFrame {
        computed: LegacyComputedFrame {
            timestamp_ns: 9,
            sample_period_ns: 8,
            threads_sampled: 1,
            total_jit_time: 7,
            total_signal_time: 6,
            total_sigbus_count: 5,
            total_smc_count: 4,
            total_float_fallback_count: 3,
            total_cache_miss_count: 2,
            total_cache_read_lock_time: 1,
            total_cache_write_lock_time: 11,
            total_jit_count: 12,
            total_jit_invocations: 13,
            fex_load_ppm: 14,
            thread_loads: vec![ThreadLoad { tid: 1, load_ppm: 2, total_cycles: 3 }],
            mem: MemSnapshot::default(),
            histogram_entry: Default::default(),
        },
        per_thread_deltas: vec![ThreadDelta { tid: 5, ..ThreadDelta::default() }],
    };
    let frame = Frame::from(legacy);
    assert_eq!(frame.computed.timestamp_ns, 9);
    assert_eq!(frame.computed.total_cache_write_lock_time, 11);
    assert_eq!(frame.computed.fex_load_ppm, 14);
    assert_eq!(frame.computed.thread_loads.len(), 1);
    assert_eq!(frame.computed.cumulative, CumulativeCountStats::default());
    assert_eq!(frame.per_thread_deltas[0].tid, 5);
}

#[test]
fn duplicate_keeps_every_figure() {
    let frame = ComputedFrame {
        total_jit_time: 5,
        thread_loads: vec![ThreadLoad { tid: 3, load_ppm: 4, total_cycles: 5 }],
        cumulative: CumulativeCountStats { jit: 9, ..CumulativeCountStats::default() },
        ..ComputedFrame::default()
    };
    let copy = frame.duplicate();
    assert_eq!(copy.total_jit_time, 5);
    assert_eq!(copy.thread_loads, frame.thread_loads);
    assert_eq!(copy.cumulative.jit, 9);
}
