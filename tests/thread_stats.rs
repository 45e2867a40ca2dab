use felix::thread_stats::ThreadSampler;
use felix::types::ThreadStats;

fn make_stats(tid: u32, jit_time: u64, signal_time: u64) -> ThreadStats {
    ThreadStats {
        tid,
        accumulated_jit_time: jit_time,
        accumulated_signal_time: signal_time,
        ..ThreadStats::default()
    }
}

const SECOND: u64 = 1_000_000_000;

#[test]
fn first_sample_yields_zero_deltas() {
    let mut sampler = ThreadSampler::new();
    let now = 5 * SECOND;
    let stats = vec![make_stats(1, 1000, 500)];
    let result = sampler.sample(&stats, now);

    assert_eq!(result.threads_sampled, 1);
    assert_eq!(result.per_thread.len(), 1);
    assert_eq!(result.per_thread[0].jit_time, 0);
    assert_eq!(result.per_thread[0].signal_time, 0);
}

#[test]
fn second_sample_yields_correct_deltas() {
    let mut sampler = ThreadSampler::new();
    let t0 = 5 * SECOND;
    sampler.sample(&[make_stats(1, 1000, 500)], t0);

    let t1 = t0 + SECOND;
    let result = sampler.sample(&[make_stats(1, 3000, 800)], t1);

    assert_eq!(result.per_thread[0].jit_time, 2000);
    assert_eq!(result.per_thread[0].signal_time, 300);
}

#[test]
fn stale_threads_are_evicted() {
    let mut sampler = ThreadSampler::new();
    let t0 = 5 * SECOND;
    sampler.sample(&[make_stats(1, 100, 50), make_stats(2, 200, 100)], t0);

    let t1 = t0 + 11 * SECOND;
    let result = sampler.sample(&[make_stats(1, 200, 60)], t1);

    assert_eq!(result.threads_sampled, 1);
    assert!(!sampler.has_baseline(2));
}

#[test]
fn multiple_threads_deltas() {
    let mut sampler = ThreadSampler::new();
    let t0 = 5 * SECOND;
    sampler.sample(&[make_stats(10, 1000, 500), make_stats(20, 2000, 1000)], t0);

    let t1 = t0 + SECOND;
    let result = sampler.sample(&[make_stats(10, 1500, 600), make_stats(20, 3000, 1200)], t1);

    assert_eq!(result.per_thread.len(), 2);
    assert_eq!(result.per_thread[0].tid, 10);
    assert_eq!(result.per_thread[0].jit_time, 500);
    assert_eq!(result.per_thread[1].tid, 20);
    assert_eq!(result.per_thread[1].jit_time, 1000);
}

#[test]
fn wrapped_counter_gives_small_positive_delta() {
    let mut sampler = ThreadSampler::new();
    sampler.sample(&[make_stats(1, u64::MAX - 9, 7)], SECOND);
    let result = sampler.sample(&[make_stats(1, 5, 3)], 2 * SECOND);
    assert_eq!(result.per_thread[0].jit_time, 15);
    assert_eq!(result.per_thread[0].signal_time, u64::MAX - 3);
}

#[test]
fn every_counter_gets_its_own_delta() {
    let mut sampler = ThreadSampler::new();
    let base = ThreadStats {
        tid: 3,
        accumulated_jit_time: 1,
        accumulated_signal_time: 2,
        sigbus_count: 3,
        smc_count: 4,
        float_fallback_count: 5,
        accumulated_cache_miss_count: 6,
        accumulated_cache_read_lock_time: 7,
        accumulated_cache_write_lock_time: 8,
        accumulated_jit_count: 9,
        next: 0,
    };
    let later = ThreadStats {
        accumulated_jit_time: 11,
        accumulated_signal_time: 22,
        sigbus_count: 33,
        smc_count: 44,
        float_fallback_count: 55,
        accumulated_cache_miss_count: 66,
        accumulated_cache_read_lock_time: 77,
        accumulated_cache_write_lock_time: 88,
        accumulated_jit_count: 99,
        ..base
    };
    sampler.sample(&[base], SECOND);
    let d = sampler.sample(&[later], 2 * SECOND).per_thread[0];
    assert_eq!(
        (d.tid, d.jit_time, d.signal_time, d.sigbus_count, d.smc_count, d.float_fallback_count),
        (3, 10, 20, 30, 40, 50)
    );
    assert_eq!(
        (d.cache_miss_count, d.cache_read_lock_time, d.cache_write_lock_time, d.jit_count),
        (60, 70, 80, 90)
    );
}

#[test]
fn evicted_thread_returns_with_zero_delta() {
    let mut sampler = ThreadSampler::new();
    sampler.sample(&[make_stats(1, 100, 10), make_stats(2, 100, 10)], SECOND);
    sampler.sample(&[make_stats(1, 200, 20)], 12 * SECOND);
    assert!(!sampler.has_baseline(2));
    let result = sampler.sample(&[make_stats(2, 900, 90)], 13 * SECOND);
    assert_eq!(result.per_thread[0].tid, 2);
    assert_eq!(result.per_thread[0].jit_time, 0);
    assert_eq!(result.per_thread[0].signal_time, 0);
    assert!(sampler.has_baseline(2));
}

#[test]
fn thread_within_window_keeps_baseline() {
    let mut sampler = ThreadSampler::new();
    sampler.sample(&[make_stats(1, 100, 10), make_stats(2, 100, 10)], SECOND);
    sampler.sample(&[make_stats(1, 200, 20)], 10 * SECOND);
    assert!(sampler.has_baseline(2));
    let result = sampler.sample(&[make_stats(2, 150, 15)], 10 * SECOND + 1);
    assert_eq!(result.per_thread[0].jit_time, 50);
}

#[test]
fn repeated_thread_in_one_snapshot_uses_earlier_record() {
    let mut sampler = ThreadSampler::new();
    let result = sampler.sample(&[make_stats(4, 100, 0), make_stats(4, 130, 0)], SECOND);
    assert_eq!(result.per_thread[0].jit_time, 0);
    assert_eq!(result.per_thread[1].jit_time, 30);
}

#[test]
fn default_sampler_tracks_nothing() {
    let sampler = ThreadSampler::default();
    assert!(!sampler.has_baseline(1));
}
