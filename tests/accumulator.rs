use felix::accumulator::{Accumulator, CumulativeCountStats, LOAD_FULL_PPM};
use felix::smaps::MemSnapshot;
use felix::thread_stats::{SampleResult, ThreadDelta};

fn make_sample(deltas: Vec<ThreadDelta>) -> SampleResult {
    let count = deltas.len();
    SampleResult {
        timestamp_ns: 7,
        per_thread: deltas,
        threads_sampled: count,
    }
}

fn percent(ppm: u64) -> f64 {
    ppm as f64 / 10_000.0
}

#[test]
fn empty_sample_produces_zero_frame() {
    let acc = Accumulator::new(1_000_000_000, 4);
    let sample = make_sample(vec![]);
    let frame = acc.compute_frame(
        &sample,
        &MemSnapshot::default(),
        1_000_000_000,
        0,
        CumulativeCountStats::default(),
    );

    assert_eq!(frame.threads_sampled, 0);
    assert_eq!(frame.total_jit_time, 0);
    assert!(percent(frame.fex_load_ppm).abs() < f64::EPSILON);
    assert!(frame.thread_loads.is_empty());
}

#[test]
fn single_thread_full_load() {
    let acc = Accumulator::new(1_000_000_000, 4);
    let delta = ThreadDelta {
        tid: 1,
        jit_time: 1_000_000_000,
        ..ThreadDelta::default()
    };
    let sample = make_sample(vec![delta]);
    let frame = acc.compute_frame(
        &sample,
        &MemSnapshot::default(),
        1_000_000_000,
        100,
        CumulativeCountStats::default(),
    );

    assert!((percent(frame.fex_load_ppm) - 100.0).abs() < 0.01);
    assert_eq!(frame.thread_loads.len(), 1);
    assert!((percent(frame.thread_loads[0].load_ppm) - 100.0).abs() < 0.01);
    assert!(frame.histogram_entry.high_jit_load);
}

#[test]
fn histogram_thresholds() {
    let acc = Accumulator::new(1_000_000_000, 4);
    let delta = ThreadDelta {
        tid: 1,
        jit_time: 100,
        smc_count: 501,
        sigbus_count: 5001,
        float_fallback_count: 1_000_001,
        ..ThreadDelta::default()
    };
    let sample = make_sample(vec![delta]);
    let frame = acc.compute_frame(
        &sample,
        &MemSnapshot::default(),
        1_000_000_000,
        0,
        CumulativeCountStats::default(),
    );

    assert!(frame.histogram_entry.high_invalidation_or_smc);
    assert!(frame.histogram_entry.high_sigbus);
    assert!(frame.histogram_entry.high_softfloat);
    assert!(!frame.histogram_entry.high_jit_load);
}

#[test]
fn thread_loads_capped_at_hardware_concurrency() {
    let acc = Accumulator::new(1_000_000_000, 2);
    let deltas = vec![
        ThreadDelta {
            tid: 1,
            jit_time: 300,
            ..ThreadDelta::default()
        },
        ThreadDelta {
            tid: 2,
            jit_time: 200,
            ..ThreadDelta::default()
        },
        ThreadDelta {
            tid: 3,
            jit_time: 100,
            ..ThreadDelta::default()
        },
    ];
    let sample = make_sample(deltas);
    let frame = acc.compute_frame(
        &sample,
        &MemSnapshot::default(),
        1_000_000_000,
        0,
        CumulativeCountStats::default(),
    );

    assert_eq!(frame.thread_loads.len(), 2);
    assert_eq!(frame.thread_loads[0].tid, 1);
    assert_eq!(frame.thread_loads[1].tid, 2);
}

#[test]
fn totals_are_summed_across_threads() {
    let acc = Accumulator::new(1_000_000_000, 4);
    let deltas = vec![
        ThreadDelta {
            tid: 1,
            jit_time: 100,
            signal_time: 50,
            sigbus_count: 10,
            smc_count: 5,
            float_fallback_count: 1000,
            cache_miss_count: 20,
            cache_read_lock_time: 30,
            cache_write_lock_time: 40,
            jit_count: 60,
        },
        ThreadDelta {
            tid: 2,
            jit_time: 200,
            signal_time: 100,
            sigbus_count: 20,
            smc_count: 10,
            float_fallback_count: 2000,
            cache_miss_count: 40,
            cache_read_lock_time: 60,
            cache_write_lock_time: 80,
            jit_count: 120,
        },
    ];
    let sample = make_sample(deltas);
    let frame = acc.compute_frame(
        &sample,
        &MemSnapshot::default(),
        1_000_000_000,
        500,
        CumulativeCountStats::default(),
    );

    assert_eq!(frame.total_jit_time, 300);
    assert_eq!(frame.total_signal_time, 150);
    assert_eq!(frame.total_sigbus_count, 30);
    assert_eq!(frame.total_smc_count, 15);
    assert_eq!(frame.total_float_fallback_count, 3000);
    assert_eq!(frame.total_cache_miss_count, 60);
    assert_eq!(frame.total_cache_read_lock_time, 90);
    assert_eq!(frame.total_cache_write_lock_time, 120);
    assert_eq!(frame.total_jit_count, 180);
    assert_eq!(frame.total_jit_invocations, 500);
}

#[test]
fn cumulative_stats_pass_through() {
    let acc = Accumulator::new(1_000_000_000, 4);
    let sample = make_sample(vec![]);
    let cumulative = CumulativeCountStats {
        sigbus: 100,
        smc: 200,
        float_fallback: 300,
        cache_miss: 400,
        jit: 500,
    };
    let frame = acc.compute_frame(
        &sample,
        &MemSnapshot::default(),
        1_000_000_000,
        0,
        cumulative,
    );

    assert_eq!(frame.cumulative.sigbus, 100);
    assert_eq!(frame.cumulative.smc, 200);
    assert_eq!(frame.cumulative.float_fallback, 300);
    assert_eq!(frame.cumulative.cache_miss, 400);
    assert_eq!(frame.cumulative.jit, 500);
}

fn busy(tid: u32, jit_time: u64, signal_time: u64) -> ThreadDelta {
    ThreadDelta {
        tid,
        jit_time,
        signal_time,
        ..ThreadDelta::default()
    }
}

#[test]
fn loads_sorted_descending_with_stable_ties() {
    let acc = Accumulator::new(1_000_000_000, 8);
    let sample = make_sample(vec![
        busy(1, 10, 0),
        busy(2, 30, 5),
        busy(3, 20, 15),
        busy(4, 40, 0),
        busy(5, 0, 0),
    ]);
    let frame = acc.compute_frame(&sample, &MemSnapshot::default(), 1_000_000_000, 0, CumulativeCountStats::default());
    let order: Vec<(u32, u64)> = frame.thread_loads.iter().map(|l| (l.tid, l.total_cycles)).collect();
    assert_eq!(order, vec![(4, 40), (2, 35), (3, 35), (1, 10), (5, 0)]);
}

#[test]
fn overall_load_spreads_over_sampled_cores() {
    // Two threads, each busy for half a core: 50% overall, 50% each.
    let acc = Accumulator::new(2_000_000_000, 4);
    let sample = make_sample(vec![busy(1, 500_000_000, 0), busy(2, 400_000_000, 100_000_000)]);
    let frame = acc.compute_frame(&sample, &MemSnapshot::default(), 500_000_000, 0, CumulativeCountStats::default());
    assert_eq!(frame.fex_load_ppm, LOAD_FULL_PPM / 2);
    assert_eq!(frame.thread_loads[0].load_ppm, LOAD_FULL_PPM / 2);
    assert_eq!(frame.histogram_entry.load_ppm, LOAD_FULL_PPM / 2);
    // Together they use exactly one core's budget, which raises the alert.
    assert!(frame.histogram_entry.high_jit_load);
}

#[test]
fn zero_budget_gives_zero_load_and_no_alert() {
    let acc = Accumulator::new(0, 4);
    let sample = make_sample(vec![busy(1, 500, 0)]);
    let frame = acc.compute_frame(&sample, &MemSnapshot::default(), 1_000_000_000, 0, CumulativeCountStats::default());
    assert_eq!(frame.fex_load_ppm, 0);
    assert_eq!(frame.thread_loads[0].load_ppm, 0);
    assert!(!frame.histogram_entry.high_jit_load);

    let acc = Accumulator::new(1_000, 4);
    let frame = acc.compute_frame(&sample, &MemSnapshot::default(), 0, 0, CumulativeCountStats::default());
    assert_eq!(frame.fex_load_ppm, 0);
    assert!(!frame.histogram_entry.high_jit_load);
}

#[test]
fn thresholds_are_inclusive() {
    let acc = Accumulator::new(1_000_000_000, 4);
    let d = ThreadDelta {
        tid: 1,
        smc_count: 500,
        sigbus_count: 4_999,
        float_fallback_count: 1_000_000,
        ..ThreadDelta::default()
    };
    let frame = acc.compute_frame(&make_sample(vec![d]), &MemSnapshot::default(), 1_000_000_000, 0, CumulativeCountStats::default());
    assert!(frame.histogram_entry.high_invalidation_or_smc);
    assert!(!frame.histogram_entry.high_sigbus);
    assert!(frame.histogram_entry.high_softfloat);
}

#[test]
fn totals_wrap_and_memory_passes_through() {
    let acc = Accumulator::new(1_000_000_000, 4);
    let mem = MemSnapshot {
        total_anon: 5,
        jit_code: 5,
        ..MemSnapshot::default()
    };
    let sample = make_sample(vec![busy(1, u64::MAX, 0), busy(2, 2, 0)]);
    let frame = acc.compute_frame(&sample, &mem, 1_000_000_000, 0, CumulativeCountStats::default());
    assert_eq!(frame.total_jit_time, 1);
    assert_eq!(frame.mem.jit_code, 5);
    assert_eq!(frame.timestamp_ns, 7);
    assert_eq!(frame.sample_period_ns, 1_000_000_000);
}

#[test]
fn zero_cores_give_zero_load_and_no_alert() {
    let acc = Accumulator::new(1_000_000_000, 0);
    let sample = make_sample(vec![busy(1, 1_000_000_000, 0)]);
    let frame = acc.compute_frame(&sample, &MemSnapshot::default(), 1_000_000_000, 0, CumulativeCountStats::default());
    assert_eq!(frame.fex_load_ppm, 0);
    assert!(frame.thread_loads.is_empty());
    assert!(!frame.histogram_entry.high_jit_load);
    assert_eq!(frame.total_jit_time, 1_000_000_000);
}
