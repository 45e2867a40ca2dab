//! Combines one sample's thread deltas and the latest memory snapshot into a
//! frame of totals, load figures and alert flags.
use vstd::prelude::*;

use crate::ranking::{lemma_rank_in_range, lemma_rank_injective, lemma_rank_onto, rank, rank_of};
use crate::smaps::MemSnapshot;
use crate::thread_stats::{SampleResult, ThreadDelta};

verus! {

/// Load figures are in parts per million of the cycle budget: a fully
/// loaded core over one sample period is `LOAD_FULL_PPM`.
pub const LOAD_FULL_PPM: u64 = 1_000_000;

/// Self-modifying-code invalidations per sample that raise an alert.
pub const HIGH_SMC_THRESHOLD: u64 = 500;

/// Bus faults per sample that raise an alert.
pub const HIGH_SIGBUS_THRESHOLD: u64 = 5_000;

/// Emulated floating-point fallbacks per sample that raise an alert.
pub const HIGH_SOFTFLOAT_THRESHOLD: u64 = 1_000_000;

/// Session-lifetime counters handed through into each frame.
#[derive(Debug, Clone, Copy, Default, PartialEq, Eq, Structural)]
pub struct CumulativeCountStats {
    pub sigbus: u64,
    pub smc: u64,
    pub float_fallback: u64,
    pub cache_miss: u64,
    pub jit: u64,
}

/// Load of one thread over one sample.
#[derive(Debug, Clone, Copy, Default, PartialEq, Eq, Structural)]
pub struct ThreadLoad {
    pub tid: u32,
    pub load_ppm: u64,
    pub total_cycles: u64,
}

/// Overall load and alert flags of one sample.
#[derive(Debug, Clone, Copy, Default, PartialEq, Eq, Structural)]
pub struct HistogramEntry {
    pub load_ppm: u64,
    pub high_jit_load: bool,
    pub high_invalidation_or_smc: bool,
    pub high_sigbus: bool,
    pub high_softfloat: bool,
}

/// Everything derived from one sampling interval.
#[derive(Debug, Clone, Default)]
pub struct ComputedFrame {
    pub timestamp_ns: u64,
    pub sample_period_ns: u64,
    pub threads_sampled: usize,
    pub total_jit_time: u64,
    pub total_signal_time: u64,
    pub total_sigbus_count: u64,
    pub total_smc_count: u64,
    pub total_float_fallback_count: u64,
    pub total_cache_miss_count: u64,
    pub total_cache_read_lock_time: u64,
    pub total_cache_write_lock_time: u64,
    pub total_jit_count: u64,
    pub total_jit_invocations: u64,
    pub fex_load_ppm: u64,
    pub thread_loads: Vec<ThreadLoad>,
    pub mem: MemSnapshot,
    pub histogram_entry: HistogramEntry,
    pub cumulative: CumulativeCountStats,
}

impl ComputedFrame {
    /// `other` carries the same figures as `self`.
    pub open spec fn same_as(&self, other: &ComputedFrame) -> bool {
        &&& self.timestamp_ns == other.timestamp_ns
        &&& self.sample_period_ns == other.sample_period_ns
        &&& self.threads_sampled == other.threads_sampled
        &&& self.total_jit_time == other.total_jit_time
        &&& self.total_signal_time == other.total_signal_time
        &&& self.total_sigbus_count == other.total_sigbus_count
        &&& self.total_smc_count == other.total_smc_count
        &&& self.total_float_fallback_count == other.total_float_fallback_count
        &&& self.total_cache_miss_count == other.total_cache_miss_count
        &&& self.total_cache_read_lock_time == other.total_cache_read_lock_time
        &&& self.total_cache_write_lock_time == other.total_cache_write_lock_time
        &&& self.total_jit_count == other.total_jit_count
        &&& self.total_jit_invocations == other.total_jit_invocations
        &&& self.fex_load_ppm == other.fex_load_ppm
        &&& self.thread_loads@ == other.thread_loads@
        &&& self.mem == other.mem
        &&& self.histogram_entry == other.histogram_entry
        &&& self.cumulative == other.cumulative
    }

    /// A copy carrying the same figures.
    pub fn duplicate(&self) -> (r: ComputedFrame)
        ensures
            r.same_as(self),
    {
        let mut thread_loads: Vec<ThreadLoad> = Vec::with_capacity(self.thread_loads.len());
        let mut i: usize = 0;
        while i < self.thread_loads.len()
            invariant
                i <= self.thread_loads@.len(),
                thread_loads@ == self.thread_loads@.take(i as int),
            decreases self.thread_loads@.len() - i,
        {
            thread_loads.push(self.thread_loads[i]);
            proof {
                assert(thread_loads@ =~= self.thread_loads@.take(i as int + 1));
            }
            i = i + 1;
        }
        proof {
            assert(self.thread_loads@.take(i as int) =~= self.thread_loads@);
        }
        ComputedFrame {
            timestamp_ns: self.timestamp_ns,
            sample_period_ns: self.sample_period_ns,
            threads_sampled: self.threads_sampled,
            total_jit_time: self.total_jit_time,
            total_signal_time: self.total_signal_time,
            total_sigbus_count: self.total_sigbus_count,
            total_smc_count: self.total_smc_count,
            total_float_fallback_count: self.total_float_fallback_count,
            total_cache_miss_count: self.total_cache_miss_count,
            total_cache_read_lock_time: self.total_cache_read_lock_time,
            total_cache_write_lock_time: self.total_cache_write_lock_time,
            total_jit_count: self.total_jit_count,
            total_jit_invocations: self.total_jit_invocations,
            fex_load_ppm: self.fex_load_ppm,
            thread_loads,
            mem: self.mem,
            histogram_entry: self.histogram_entry,
            cumulative: self.cumulative,
        }
    }
}

/// Converts cycle counts into load figures for one host.
pub struct Accumulator {
    cycle_freq: u64,
    hardware_concurrency: usize,
}

/// `a + b` modulo 2^64.
pub open spec fn wrap_add(a: u64, b: u64) -> u64 {
    if a + b > u64::MAX {
        (a + b - 0x1_0000_0000_0000_0000) as u64
    } else {
        (a + b) as u64
    }
}

/// Field-wise sum modulo 2^64 of all deltas (the `tid` is left at zero).
pub open spec fn sum_deltas(s: Seq<ThreadDelta>) -> ThreadDelta
    decreases s.len(),
{
    if s.len() == 0 {
        ThreadDelta {
            tid: 0,
            jit_time: 0,
            signal_time: 0,
            sigbus_count: 0,
            smc_count: 0,
            float_fallback_count: 0,
            cache_miss_count: 0,
            cache_read_lock_time: 0,
            cache_write_lock_time: 0,
            jit_count: 0,
        }
    } else {
        let t = sum_deltas(s.drop_last());
        let d = s.last();
        ThreadDelta {
            tid: 0,
            jit_time: wrap_add(t.jit_time, d.jit_time),
            signal_time: wrap_add(t.signal_time, d.signal_time),
            sigbus_count: wrap_add(t.sigbus_count, d.sigbus_count),
            smc_count: wrap_add(t.smc_count, d.smc_count),
            float_fallback_count: wrap_add(t.float_fallback_count, d.float_fallback_count),
            cache_miss_count: wrap_add(t.cache_miss_count, d.cache_miss_count),
            cache_read_lock_time: wrap_add(t.cache_read_lock_time, d.cache_read_lock_time),
            cache_write_lock_time: wrap_add(t.cache_write_lock_time, d.cache_write_lock_time),
            jit_count: wrap_add(t.jit_count, d.jit_count),
        }
    }
}

/// The busy cycles of one thread: JIT time plus signal time, modulo 2^64.
pub open spec fn busy_cycles(d: ThreadDelta) -> u64 {
    wrap_add(d.jit_time, d.signal_time)
}

/// The busy cycles of each thread, in sample order.
pub open spec fn busy_keys(s: Seq<ThreadDelta>) -> Seq<u64> {
    s.map_values(|d: ThreadDelta| busy_cycles(d))
}

/// `x`, or `u64::MAX` when it does not fit.
pub open spec fn saturate(x: int) -> u64 {
    if x > u64::MAX {
        u64::MAX
    } else {
        x as u64
    }
}

/// `cycles` over `cores` times the budget of one core, in parts per million;
/// the budget is `freq * period / 10^9` cycles. Zero when the budget or the
/// number of cores is zero.
pub open spec fn load_ppm_of(cycles: int, freq: u64, period: u64, cores: int) -> u64 {
    if freq == 0 || period == 0 || cores <= 0 {
        0
    } else {
        saturate((cycles * 1_000_000_000_000_000) / (freq * period * cores))
    }
}

/// The number of cores the overall load is spread over: the threads sampled,
/// at most the host's cores; one when no thread was sampled, and zero when
/// the host reports no cores.
pub open spec fn cores_for(threads_sampled: int, hardware_concurrency: int) -> int {
    if hardware_concurrency <= 0 {
        0
    } else if threads_sampled <= 0 {
        1
    } else if threads_sampled < hardware_concurrency {
        threads_sampled
    } else {
        hardware_concurrency
    }
}

/// `cycles` meet or exceed one core's budget, and that budget is not zero.
pub open spec fn exceeds_budget(cycles: int, freq: u64, period: u64) -> bool {
    freq > 0 && period > 0 && cycles * 1_000_000_000 >= freq * period
}

/// The load entry of one thread.
pub open spec fn thread_load_of(d: ThreadDelta, freq: u64, period: u64) -> ThreadLoad {
    ThreadLoad { tid: d.tid, load_ppm: load_ppm_of(busy_cycles(d) as int, freq, period, 1), total_cycles: busy_cycles(d) }
}

/// `freq * period`, which always fits in 128 bits.
fn cycle_budget(freq: u64, period: u64) -> (r: u128)
    ensures
        r == freq * period,
{
    proof {
        assert(freq as int * period as int <= 0xffff_ffff_ffff_fffe_0000_0000_0000_0001) by (nonlinear_arith)
            requires
                freq <= 0xffff_ffff_ffff_ffff,
                period <= 0xffff_ffff_ffff_ffff,
        ;
    }
    freq as u128 * period as u128
}

/// Computes `load_ppm_of`.
fn load_ppm(cycles: u128, freq: u64, period: u64, cores: u64) -> (r: u64)
    requires
        cycles <= 2 * (u64::MAX as int),
    ensures
        r == load_ppm_of(cycles as int, freq, period, cores as int),
{
    if freq == 0 || period == 0 || cores == 0 {
        return 0;
    }
    let budget = cycle_budget(freq, period);
    let num: u128 = cycles * 1_000_000_000_000_000;
    match budget.checked_mul(cores as u128) {
        None => {
            proof {
                assert(num < budget as int * cores as int);
                vstd::arithmetic::div_mod::lemma_basic_div(num as int, budget as int * cores as int);
            }
            0
        },
        Some(den) => {
            proof {
                assert(freq * period > 0) by (nonlinear_arith)
                    requires freq > 0, period > 0;
                assert(den > 0) by (nonlinear_arith)
                    requires den == budget * cores, budget > 0, cores >= 1;
            }
            let q = num / den;
            if q > u64::MAX as u128 {
                u64::MAX
            } else {
                q as u64
            }
        },
    }
}

/// On a host with at least one core, a single thread whose JIT time is
/// exactly one core's cycle budget for the sample period (and that spent no
/// time in signal handlers) makes a fully loaded frame: the overall load and
/// the thread's own load are both 100%, and the high-JIT-load alert is raised.
pub proof fn lemma_one_full_core(d: ThreadDelta, freq: u64, period: u64, hardware_concurrency: int)
    requires
        freq > 0,
        period > 0,
        hardware_concurrency >= 1,
        d.signal_time == 0,
        d.jit_time * 1_000_000_000 == freq * period,
    ensures
        ({
            let t = sum_deltas(seq![d]);
            let busy = t.jit_time + t.signal_time;
            &&& cores_for(1, hardware_concurrency) == 1
            &&& load_ppm_of(busy, freq, period, cores_for(1, hardware_concurrency)) == LOAD_FULL_PPM
            &&& exceeds_budget(busy, freq, period)
            &&& thread_load_of(d, freq, period).load_ppm == LOAD_FULL_PPM
        }),
{
    let s = seq![d];
    assert(s.drop_last() =~= Seq::<ThreadDelta>::empty());
    let t = sum_deltas(s);
    assert(s.last() == d);
    assert(sum_deltas(s.drop_last()).jit_time == 0);
    assert(t.jit_time == d.jit_time);
    assert(t.signal_time == 0);
    let x: int = freq * period;
    assert(x > 0) by (nonlinear_arith)
        requires
            freq > 0,
            period > 0,
            x == freq * period,
    ;
    assert(d.jit_time * 1_000_000_000_000_000 == 1_000_000 * x);
    vstd::arithmetic::div_mod::lemma_div_by_multiple(1_000_000, x);
    assert(x * 1 == x);
    assert(busy_cycles(d) == d.jit_time);
}

/// Adds one delta to the running field-wise sum.
fn add_delta(acc: &mut ThreadDelta, d: &ThreadDelta)
    ensures
        *final(acc) == (ThreadDelta {
            tid: 0,
            jit_time: wrap_add(old(acc).jit_time, d.jit_time),
            signal_time: wrap_add(old(acc).signal_time, d.signal_time),
            sigbus_count: wrap_add(old(acc).sigbus_count, d.sigbus_count),
            smc_count: wrap_add(old(acc).smc_count, d.smc_count),
            float_fallback_count: wrap_add(old(acc).float_fallback_count, d.float_fallback_count),
            cache_miss_count: wrap_add(old(acc).cache_miss_count, d.cache_miss_count),
            cache_read_lock_time: wrap_add(old(acc).cache_read_lock_time, d.cache_read_lock_time),
            cache_write_lock_time: wrap_add(old(acc).cache_write_lock_time, d.cache_write_lock_time),
            jit_count: wrap_add(old(acc).jit_count, d.jit_count),
        }),
{
    acc.tid = 0;
    acc.jit_time = acc.jit_time.wrapping_add(d.jit_time);
    acc.signal_time = acc.signal_time.wrapping_add(d.signal_time);
    acc.sigbus_count = acc.sigbus_count.wrapping_add(d.sigbus_count);
    acc.smc_count = acc.smc_count.wrapping_add(d.smc_count);
    acc.float_fallback_count = acc.float_fallback_count.wrapping_add(d.float_fallback_count);
    acc.cache_miss_count = acc.cache_miss_count.wrapping_add(d.cache_miss_count);
    acc.cache_read_lock_time = acc.cache_read_lock_time.wrapping_add(d.cache_read_lock_time);
    acc.cache_write_lock_time = acc.cache_write_lock_time.wrapping_add(d.cache_write_lock_time);
    acc.jit_count = acc.jit_count.wrapping_add(d.jit_count);
}

/// The session-lifetime counters after one more sample: the sample's
/// totals added to each, modulo 2^64.
pub fn advance_cumulative(c: CumulativeCountStats, sample: &SampleResult) -> (r: CumulativeCountStats)
    ensures
        ({
            let t = sum_deltas(sample.per_thread@);
            r == CumulativeCountStats {
                sigbus: wrap_add(c.sigbus, t.sigbus_count),
                smc: wrap_add(c.smc, t.smc_count),
                float_fallback: wrap_add(c.float_fallback, t.float_fallback_count),
                cache_miss: wrap_add(c.cache_miss, t.cache_miss_count),
                jit: wrap_add(c.jit, t.jit_count),
            }
        }),
{
    let ghost ds = sample.per_thread@;
    let mut acc = ThreadDelta {
        tid: 0,
        jit_time: 0,
        signal_time: 0,
        sigbus_count: 0,
        smc_count: 0,
        float_fallback_count: 0,
        cache_miss_count: 0,
        cache_read_lock_time: 0,
        cache_write_lock_time: 0,
        jit_count: 0,
    };
    let mut i: usize = 0;
    while i < sample.per_thread.len()
        invariant
            ds == sample.per_thread@,
            i <= ds.len(),
            acc == sum_deltas(ds.take(i as int)),
        decreases ds.len() - i,
    {
        proof {
            assert(ds.take(i as int + 1).drop_last() =~= ds.take(i as int));
        }
        add_delta(&mut acc, &sample.per_thread[i]);
        i = i + 1;
    }
    proof {
        assert(ds.take(ds.len() as int) =~= ds);
    }
    CumulativeCountStats {
        sigbus: c.sigbus.wrapping_add(acc.sigbus_count),
        smc: c.smc.wrapping_add(acc.smc_count),
        float_fallback: c.float_fallback.wrapping_add(acc.float_fallback_count),
        cache_miss: c.cache_miss.wrapping_add(acc.cache_miss_count),
        jit: c.jit.wrapping_add(acc.jit_count),
    }
}

/// The session's running count of JIT invocations after one more sample:
/// the sample's JIT counts added, modulo 2^64.
pub fn add_jit_invocations(total: u64, sample: &SampleResult) -> (r: u64)
    ensures
        r == wrap_add(total, sum_deltas(sample.per_thread@).jit_count),
{
    let ghost ds = sample.per_thread@;
    let mut sum: u64 = 0;
    let mut i: usize = 0;
    while i < sample.per_thread.len()
        invariant
            ds == sample.per_thread@,
            i <= ds.len(),
            sum == sum_deltas(ds.take(i as int)).jit_count,
        decreases ds.len() - i,
    {
        proof {
            assert(ds.take(i as int + 1).drop_last() =~= ds.take(i as int));
        }
        sum = sum.wrapping_add(sample.per_thread[i].jit_count);
        i = i + 1;
    }
    proof {
        assert(ds.take(ds.len() as int) =~= ds);
    }
    total.wrapping_add(sum)
}

impl Accumulator {
    /// Cycle-counter frequency in Hz.
    pub closed spec fn cycle_freq(&self) -> u64 {
        self.cycle_freq
    }

    /// Number of host cores.
    pub closed spec fn hardware_concurrency(&self) -> usize {
        self.hardware_concurrency
    }

    /// An accumulator for a host whose cycle counter runs at `cycle_freq` Hz
    /// and which has `hardware_concurrency` cores.
    pub fn new(cycle_freq: u64, hardware_concurrency: usize) -> (a: Self)
        ensures
            a.cycle_freq() == cycle_freq,
            a.hardware_concurrency() == hardware_concurrency,
    {
        Accumulator { cycle_freq, hardware_concurrency }
    }

    /// Derives the frame of one sample: field totals (modulo 2^64), the
    /// overall load, the busiest threads (at most one per core, busiest
    /// first, ties in sample order) and the alert flags.
    pub fn compute_frame(
        &self,
        sample: &SampleResult,
        mem: &MemSnapshot,
        sample_period_ns: u64,
        total_jit_invocations: u64,
        cumulative: CumulativeCountStats,
    ) -> (f: ComputedFrame)
        ensures
            f.timestamp_ns == sample.timestamp_ns,
            f.sample_period_ns == sample_period_ns,
            f.threads_sampled == sample.threads_sampled,
            f.total_jit_invocations == total_jit_invocations,
            f.mem == *mem,
            f.cumulative == cumulative,
            ({
                let t = sum_deltas(sample.per_thread@);
                &&& f.total_jit_time == t.jit_time
                &&& f.total_signal_time == t.signal_time
                &&& f.total_sigbus_count == t.sigbus_count
                &&& f.total_smc_count == t.smc_count
                &&& f.total_float_fallback_count == t.float_fallback_count
                &&& f.total_cache_miss_count == t.cache_miss_count
                &&& f.total_cache_read_lock_time == t.cache_read_lock_time
                &&& f.total_cache_write_lock_time == t.cache_write_lock_time
                &&& f.total_jit_count == t.jit_count
            }),
            f.fex_load_ppm == load_ppm_of(
                f.total_jit_time + f.total_signal_time,
                self.cycle_freq(),
                sample_period_ns,
                cores_for(sample.threads_sampled as int, self.hardware_concurrency() as int),
            ),
            f.histogram_entry == (HistogramEntry {
                load_ppm: f.fex_load_ppm,
                high_jit_load: exceeds_budget(
                    f.total_jit_time + f.total_signal_time,
                    self.cycle_freq(),
                    sample_period_ns,
                ) && cores_for(sample.threads_sampled as int, self.hardware_concurrency() as int)
                    > 0,
                high_invalidation_or_smc: f.total_smc_count >= HIGH_SMC_THRESHOLD,
                high_sigbus: f.total_sigbus_count >= HIGH_SIGBUS_THRESHOLD,
                high_softfloat: f.total_float_fallback_count >= HIGH_SOFTFLOAT_THRESHOLD,
            }),
            f.thread_loads@.len() == (if self.hardware_concurrency() < sample.per_thread@.len() {
                self.hardware_concurrency() as int
            } else {
                sample.per_thread@.len() as int
            }),
            forall|i: int|
                0 <= i < sample.per_thread@.len() && rank(busy_keys(sample.per_thread@), i)
                    < f.thread_loads@.len() ==> f.thread_loads@[rank(
                    busy_keys(sample.per_thread@),
                    i,
                ) as int] == thread_load_of(sample.per_thread@[i], self.cycle_freq(), sample_period_ns),
            forall|a: int, b: int|
                0 <= a < b < f.thread_loads@.len() ==> f.thread_loads@[a].total_cycles
                    >= f.thread_loads@[b].total_cycles,
            sample.per_thread@.len() == 0 ==> f.fex_load_ppm == 0 && f.thread_loads@.len() == 0,
    {
        let deltas = &sample.per_thread;
        let n = deltas.len();
        let ghost ds = deltas@;
        let ghost keys_spec = busy_keys(ds);
        let mut acc = ThreadDelta {
            tid: 0,
            jit_time: 0,
            signal_time: 0,
            sigbus_count: 0,
            smc_count: 0,
            float_fallback_count: 0,
            cache_miss_count: 0,
            cache_read_lock_time: 0,
            cache_write_lock_time: 0,
            jit_count: 0,
        };
        let mut keys: Vec<u64> = Vec::with_capacity(n);
        let mut i: usize = 0;
        while i < n
            invariant
                n == ds.len(),
                ds == deltas@,
                keys_spec == busy_keys(ds),
                i <= n,
                acc == sum_deltas(ds.take(i as int)),
                keys@ == keys_spec.take(i as int),
            decreases n - i,
        {
            let d = &deltas[i];
            proof {
                assert(ds.take(i as int + 1).drop_last() =~= ds.take(i as int));
            }
            add_delta(&mut acc, d);
            keys.push(d.jit_time.wrapping_add(d.signal_time));
            proof {
                assert(keys@ =~= keys_spec.take(i as int + 1));
            }
            i = i + 1;
        }
        proof {
            assert(ds.take(n as int) =~= ds);
            assert(keys_spec.take(n as int) =~= keys_spec);
        }
        let freq = self.cycle_freq;
        let busy_all: u128 = acc.jit_time as u128 + acc.signal_time as u128;
        let threads = sample.threads_sampled;
        let cores: usize = if self.hardware_concurrency == 0 {
            0
        } else if threads == 0 {
            1
        } else if threads < self.hardware_concurrency {
            threads
        } else {
            self.hardware_concurrency
        };
        let fex_load_ppm = load_ppm(busy_all, freq, sample_period_ns, cores as u64);
        let high_jit_load = cores > 0 && freq > 0 && sample_period_ns > 0 && busy_all
            * 1_000_000_000 >= cycle_budget(freq, sample_period_ns);

        let mut ordered: Vec<ThreadLoad> = Vec::with_capacity(n);
        let mut k: usize = 0;
        while k < n
            invariant
                k <= n,
                ordered@.len() == k,
            decreases n - k,
        {
            ordered.push(ThreadLoad { tid: 0, load_ppm: 0, total_cycles: 0 });
            k = k + 1;
        }
        proof {
            assert forall|j: int| 0 <= j < n implies rank(keys@, j) < n by {
                lemma_rank_in_range(keys@, j);
            }
        }
        let mut i: usize = 0;
        while i < n
            invariant
                n == ds.len(),
                ds == deltas@,
                keys@ == busy_keys(ds),
                i <= n,
                ordered@.len() == n,
                forall|j: int| 0 <= j < n ==> rank(keys@, j) < n,
                forall|j: int|
                    0 <= j < i ==> ordered@[rank(keys@, j) as int] == thread_load_of(
                        ds[j],
                        freq,
                        sample_period_ns,
                    ),
            decreases n - i,
        {
            let r = rank_of(&keys, i);
            proof {
                lemma_rank_in_range(keys@, i as int);
                assert forall|j: int| 0 <= j < i implies rank(keys@, j) != r by {
                    lemma_rank_injective(keys@, j, i as int);
                }
            }
            let busy = keys[i];
            proof {
                assert(keys@[i as int] == busy_cycles(ds[i as int]));
            }
            let load = ThreadLoad {
                tid: deltas[i].tid,
                load_ppm: load_ppm(busy as u128, freq, sample_period_ns, 1),
                total_cycles: busy,
            };
            ordered.set(r, load);
            i = i + 1;
        }
        let cap: usize = if self.hardware_concurrency < n {
            self.hardware_concurrency
        } else {
            n
        };
        let mut thread_loads: Vec<ThreadLoad> = Vec::with_capacity(cap);
        let mut k: usize = 0;
        while k < cap
            invariant
                cap <= n,
                ordered@.len() == n,
                k <= cap,
                thread_loads@ == ordered@.take(k as int),
            decreases cap - k,
        {
            thread_loads.push(ordered[k]);
            proof {
                assert(thread_loads@ =~= ordered@.take(k as int + 1));
            }
            k = k + 1;
        }
        proof {
            assert forall|a: int, b: int| 0 <= a < b < thread_loads@.len() implies thread_loads@[a].total_cycles
                >= thread_loads@[b].total_cycles by {
                lemma_rank_onto(keys@, a);
                lemma_rank_onto(keys@, b);
                let ia = choose|ia: int| 0 <= ia < keys@.len() && rank(keys@, ia) == a;
                let ib = choose|ib: int| 0 <= ib < keys@.len() && rank(keys@, ib) == b;
                lemma_rank_injective(keys@, ia, ib);
            }
        }
        proof {
            if n == 0 && freq > 0 && sample_period_ns > 0 && cores > 0 {
                let y: int = freq * sample_period_ns * cores;
                assert(y > 0) by (nonlinear_arith)
                    requires
                        freq > 0,
                        sample_period_ns > 0,
                        cores >= 1,
                        y == freq * sample_period_ns * cores,
                ;
                vstd::arithmetic::div_mod::lemma_basic_div(0, y);
            }
        }
        ComputedFrame {
            timestamp_ns: sample.timestamp_ns,
            sample_period_ns,
            threads_sampled: threads,
            total_jit_time: acc.jit_time,
            total_signal_time: acc.signal_time,
            total_sigbus_count: acc.sigbus_count,
            total_smc_count: acc.smc_count,
            total_float_fallback_count: acc.float_fallback_count,
            total_cache_miss_count: acc.cache_miss_count,
            total_cache_read_lock_time: acc.cache_read_lock_time,
            total_cache_write_lock_time: acc.cache_write_lock_time,
            total_jit_count: acc.jit_count,
            total_jit_invocations,
            fex_load_ppm,
            thread_loads,
            mem: *mem,
            histogram_entry: HistogramEntry {
                load_ppm: fex_load_ppm,
                high_jit_load,
                high_invalidation_or_smc: acc.smc_count >= HIGH_SMC_THRESHOLD,
                high_sigbus: acc.sigbus_count >= HIGH_SIGBUS_THRESHOLD,
                high_softfloat: acc.float_fallback_count >= HIGH_SOFTFLOAT_THRESHOLD,
            },
            cumulative,
        }
    }
}

} // verus!
