//! Turns successive raw counter snapshots into per-thread deltas.
use std::collections::BTreeMap;

use vstd::prelude::*;

use crate::types::ThreadStats;

verus! {

broadcast use vstd::std_specs::btree::group_btree_axioms;

/// Threads not observed for this long (in nanoseconds) are forgotten.
pub const DEFAULT_STALE_TIMEOUT_NS: u64 = 10_000_000_000;

/// Change of each counter of one thread between two consecutive samples.
#[derive(Debug, Clone, Copy, Default, PartialEq, Eq, Structural)]
pub struct ThreadDelta {
    pub tid: u32,
    pub jit_time: u64,
    pub signal_time: u64,
    pub sigbus_count: u64,
    pub smc_count: u64,
    pub float_fallback_count: u64,
    pub cache_miss_count: u64,
    pub cache_read_lock_time: u64,
    pub cache_write_lock_time: u64,
    pub jit_count: u64,
}

/// The deltas of one sample, in the order the threads were reported.
pub struct SampleResult {
    pub timestamp_ns: u64,
    pub per_thread: Vec<ThreadDelta>,
    pub threads_sampled: usize,
}

/// `cur - prev` modulo 2^64: how far a wrapping counter advanced.
pub open spec fn wrap_diff(cur: u64, prev: u64) -> u64 {
    if cur >= prev {
        (cur - prev) as u64
    } else {
        (cur + 0x1_0000_0000_0000_0000 - prev) as u64
    }
}

/// The delta of a thread whose previous record is `prev`.
pub open spec fn delta_from(cur: ThreadStats, prev: ThreadStats) -> ThreadDelta {
    ThreadDelta {
        tid: cur.tid,
        jit_time: wrap_diff(cur.accumulated_jit_time, prev.accumulated_jit_time),
        signal_time: wrap_diff(cur.accumulated_signal_time, prev.accumulated_signal_time),
        sigbus_count: wrap_diff(cur.sigbus_count, prev.sigbus_count),
        smc_count: wrap_diff(cur.smc_count, prev.smc_count),
        float_fallback_count: wrap_diff(cur.float_fallback_count, prev.float_fallback_count),
        cache_miss_count: wrap_diff(
            cur.accumulated_cache_miss_count,
            prev.accumulated_cache_miss_count,
        ),
        cache_read_lock_time: wrap_diff(
            cur.accumulated_cache_read_lock_time,
            prev.accumulated_cache_read_lock_time,
        ),
        cache_write_lock_time: wrap_diff(
            cur.accumulated_cache_write_lock_time,
            prev.accumulated_cache_write_lock_time,
        ),
        jit_count: wrap_diff(cur.accumulated_jit_count, prev.accumulated_jit_count),
    }
}

/// The delta of a thread seen for the first time: it only sets the baseline.
pub open spec fn first_delta(tid: u32) -> ThreadDelta {
    ThreadDelta {
        tid,
        jit_time: 0,
        signal_time: 0,
        sigbus_count: 0,
        smc_count: 0,
        float_fallback_count: 0,
        cache_miss_count: 0,
        cache_read_lock_time: 0,
        cache_write_lock_time: 0,
        jit_count: 0,
    }
}

/// The baselines after taking in the records of `raw`, in order.
pub open spec fn with_records(
    base: Map<u32, ThreadStats>,
    raw: Seq<ThreadStats>,
) -> Map<u32, ThreadStats>
    decreases raw.len(),
{
    if raw.len() == 0 {
        base
    } else {
        with_records(base, raw.drop_last()).insert(raw.last().tid, raw.last())
    }
}

/// The last-seen times after observing every thread of `raw` at `now`.
pub open spec fn seen_at(seen: Map<u32, u64>, raw: Seq<ThreadStats>, now: u64) -> Map<u32, u64>
    decreases raw.len(),
{
    if raw.len() == 0 {
        seen
    } else {
        seen_at(seen, raw.drop_last(), now).insert(raw.last().tid, now)
    }
}

/// Whether a thread last seen at `seen` is still tracked at `now`.
pub open spec fn is_fresh(seen: u64, now: u64, timeout: u64) -> bool {
    (if now >= seen {
        now - seen
    } else {
        0
    }) < timeout
}

/// The last-seen times kept after a sample of `raw` at `now`.
pub open spec fn next_seen(
    seen: Map<u32, u64>,
    raw: Seq<ThreadStats>,
    now: u64,
    timeout: u64,
) -> Map<u32, u64> {
    let m = seen_at(seen, raw, now);
    m.restrict(Set::new(|t: u32| m.contains_key(t) && is_fresh(m[t], now, timeout)))
}

/// The baselines kept after a sample of `raw` at `now`.
pub open spec fn next_baseline(
    base: Map<u32, ThreadStats>,
    seen: Map<u32, u64>,
    raw: Seq<ThreadStats>,
    now: u64,
    timeout: u64,
) -> Map<u32, ThreadStats> {
    with_records(base, raw).restrict(next_seen(seen, raw, now, timeout).dom())
}

/// The delta reported for `raw[i]`: measured against the thread's baseline
/// once the records before it have been taken in.
pub open spec fn expected_delta(base: Map<u32, ThreadStats>, raw: Seq<ThreadStats>, i: int) -> ThreadDelta {
    let m = with_records(base, raw.take(i));
    if m.contains_key(raw[i].tid) {
        delta_from(raw[i], m[raw[i].tid])
    } else {
        first_delta(raw[i].tid)
    }
}

/// The tracked threads that have not been seen within the staleness window.
pub open spec fn stale_set(seen: Map<u32, u64>, now: u64, timeout: u64) -> Set<u32> {
    Set::new(|t: u32| seen.contains_key(t) && !is_fresh(seen[t], now, timeout))
}

proof fn lemma_records_dom(
    base: Map<u32, ThreadStats>,
    seen: Map<u32, u64>,
    raw: Seq<ThreadStats>,
    now: u64,
)
    requires
        base.dom() == seen.dom(),
    ensures
        with_records(base, raw).dom() == seen_at(seen, raw, now).dom(),
    decreases raw.len(),
{
    if raw.len() > 0 {
        lemma_records_dom(base, seen, raw.drop_last(), now);
        assert(with_records(base, raw).dom() =~= seen_at(seen, raw, now).dom());
    }
}

/// `d` is how far a wrapping counter went from `prev` to `cur`: a non-negative
/// amount that, added to `prev` modulo 2^64, gives `cur`.
pub open spec fn advances(prev: u64, d: u64, cur: u64) -> bool {
    0 <= d && (prev + d) % 0x1_0000_0000_0000_0000 == cur
}

/// Each counter of `d` is how far the corresponding raw counter advanced.
pub open spec fn delta_advances(prev: ThreadStats, cur: ThreadStats, d: ThreadDelta) -> bool {
    &&& advances(prev.accumulated_jit_time, d.jit_time, cur.accumulated_jit_time)
    &&& advances(prev.accumulated_signal_time, d.signal_time, cur.accumulated_signal_time)
    &&& advances(prev.sigbus_count, d.sigbus_count, cur.sigbus_count)
    &&& advances(prev.smc_count, d.smc_count, cur.smc_count)
    &&& advances(prev.float_fallback_count, d.float_fallback_count, cur.float_fallback_count)
    &&& advances(
        prev.accumulated_cache_miss_count,
        d.cache_miss_count,
        cur.accumulated_cache_miss_count,
    )
    &&& advances(
        prev.accumulated_cache_read_lock_time,
        d.cache_read_lock_time,
        cur.accumulated_cache_read_lock_time,
    )
    &&& advances(
        prev.accumulated_cache_write_lock_time,
        d.cache_write_lock_time,
        cur.accumulated_cache_write_lock_time,
    )
    &&& advances(prev.accumulated_jit_count, d.jit_count, cur.accumulated_jit_count)
}

proof fn lemma_wrap_diff_advances(cur: u64, prev: u64)
    ensures
        advances(prev, wrap_diff(cur, prev), cur),
{
    let m: int = 0x1_0000_0000_0000_0000;
    if cur >= prev {
        assert((prev + wrap_diff(cur, prev)) == cur);
    } else {
        assert((prev + wrap_diff(cur, prev)) == cur + m);
    }
}

/// Whatever snapshots come in, every counter of every reported delta is
/// non-negative and is the wrapping distance from the thread's baseline to
/// the new raw value, also where the raw value is below the baseline; a
/// thread without a baseline reports all zeros.
pub proof fn lemma_deltas_never_negative(base: Map<u32, ThreadStats>, raw: Seq<ThreadStats>, i: int)
    requires
        0 <= i < raw.len(),
    ensures
        ({
            let m = with_records(base, raw.take(i));
            let d = expected_delta(base, raw, i);
            &&& d.tid == raw[i].tid
            &&& m.contains_key(raw[i].tid) ==> delta_advances(m[raw[i].tid], raw[i], d)
            &&& !m.contains_key(raw[i].tid) ==> d == first_delta(raw[i].tid)
        }),
{
    let m = with_records(base, raw.take(i));
    if m.contains_key(raw[i].tid) {
        let prev = m[raw[i].tid];
        let cur = raw[i];
        lemma_wrap_diff_advances(cur.accumulated_jit_time, prev.accumulated_jit_time);
        lemma_wrap_diff_advances(cur.accumulated_signal_time, prev.accumulated_signal_time);
        lemma_wrap_diff_advances(cur.sigbus_count, prev.sigbus_count);
        lemma_wrap_diff_advances(cur.smc_count, prev.smc_count);
        lemma_wrap_diff_advances(cur.float_fallback_count, prev.float_fallback_count);
        lemma_wrap_diff_advances(
            cur.accumulated_cache_miss_count,
            prev.accumulated_cache_miss_count,
        );
        lemma_wrap_diff_advances(
            cur.accumulated_cache_read_lock_time,
            prev.accumulated_cache_read_lock_time,
        );
        lemma_wrap_diff_advances(
            cur.accumulated_cache_write_lock_time,
            prev.accumulated_cache_write_lock_time,
        );
        lemma_wrap_diff_advances(cur.accumulated_jit_count, prev.accumulated_jit_count);
    }
}

proof fn lemma_untouched_seen(seen: Map<u32, u64>, raw: Seq<ThreadStats>, now: u64, tid: u32)
    requires
        forall|k: int| 0 <= k < raw.len() ==> raw[k].tid != tid,
    ensures
        seen_at(seen, raw, now).contains_key(tid) == seen.contains_key(tid),
        seen.contains_key(tid) ==> seen_at(seen, raw, now)[tid] == seen[tid],
    decreases raw.len(),
{
    if raw.len() > 0 {
        lemma_untouched_seen(seen, raw.drop_last(), now, tid);
    }
}

proof fn lemma_untouched_records(base: Map<u32, ThreadStats>, raw: Seq<ThreadStats>, tid: u32)
    requires
        forall|k: int| 0 <= k < raw.len() ==> raw[k].tid != tid,
    ensures
        with_records(base, raw).contains_key(tid) == base.contains_key(tid),
    decreases raw.len(),
{
    if raw.len() > 0 {
        lemma_untouched_records(base, raw.drop_last(), tid);
    }
}

/// A tracked thread that is missing from a snapshot taken at least the
/// staleness window after it was last seen is dropped from the baselines by
/// that sample; when it shows up again later, its first delta is all zeros.
pub proof fn lemma_stale_thread_restarts(
    base: Map<u32, ThreadStats>,
    seen: Map<u32, u64>,
    raw: Seq<ThreadStats>,
    now: u64,
    timeout: u64,
    tid: u32,
    later: Seq<ThreadStats>,
    i: int,
)
    requires
        base.dom() == seen.dom(),
        seen.contains_key(tid),
        !is_fresh(seen[tid], now, timeout),
        forall|k: int| 0 <= k < raw.len() ==> raw[k].tid != tid,
        0 <= i < later.len(),
        later[i].tid == tid,
        forall|k: int| 0 <= k < i ==> later[k].tid != tid,
    ensures
        !next_baseline(base, seen, raw, now, timeout).contains_key(tid),
        !next_seen(seen, raw, now, timeout).contains_key(tid),
        expected_delta(next_baseline(base, seen, raw, now, timeout), later, i) == first_delta(tid),
{
    lemma_untouched_seen(seen, raw, now, tid);
    let nb = next_baseline(base, seen, raw, now, timeout);
    lemma_untouched_records(nb, later.take(i), tid);
}

/// Keeps, per thread id, the last raw record and when it was last seen.
pub struct ThreadSampler {
    previous: BTreeMap<u32, ThreadStats>,
    last_seen: BTreeMap<u32, u64>,
    stale_timeout_ns: u64,
}

fn wrapping_delta(cur: &ThreadStats, prev: &ThreadStats) -> (d: ThreadDelta)
    ensures
        d == delta_from(*cur, *prev),
{
    ThreadDelta {
        tid: cur.tid,
        jit_time: cur.accumulated_jit_time.wrapping_sub(prev.accumulated_jit_time),
        signal_time: cur.accumulated_signal_time.wrapping_sub(prev.accumulated_signal_time),
        sigbus_count: cur.sigbus_count.wrapping_sub(prev.sigbus_count),
        smc_count: cur.smc_count.wrapping_sub(prev.smc_count),
        float_fallback_count: cur.float_fallback_count.wrapping_sub(prev.float_fallback_count),
        cache_miss_count: cur.accumulated_cache_miss_count.wrapping_sub(
            prev.accumulated_cache_miss_count,
        ),
        cache_read_lock_time: cur.accumulated_cache_read_lock_time.wrapping_sub(
            prev.accumulated_cache_read_lock_time,
        ),
        cache_write_lock_time: cur.accumulated_cache_write_lock_time.wrapping_sub(
            prev.accumulated_cache_write_lock_time,
        ),
        jit_count: cur.accumulated_jit_count.wrapping_sub(prev.accumulated_jit_count),
    }
}

impl ThreadSampler {
    /// The baseline record of each tracked thread.
    pub closed spec fn baseline(&self) -> Map<u32, ThreadStats> {
        self.previous@
    }

    /// When each tracked thread was last observed (nanoseconds).
    pub closed spec fn last_seen(&self) -> Map<u32, u64> {
        self.last_seen@
    }

    /// How long an unobserved thread stays tracked (nanoseconds).
    pub closed spec fn stale_timeout(&self) -> u64 {
        self.stale_timeout_ns
    }

    /// Baselines and last-seen times cover the same threads, and the
    /// staleness window is the default one.
    pub open spec fn wf(&self) -> bool {
        &&& self.baseline().dom() == self.last_seen().dom()
        &&& self.stale_timeout() == DEFAULT_STALE_TIMEOUT_NS
    }

    /// A sampler that tracks no thread yet.
    pub fn new() -> (s: Self)
        ensures
            s.wf(),
            s.baseline() == Map::<u32, ThreadStats>::empty(),
            s.last_seen() == Map::<u32, u64>::empty(),
            s.stale_timeout() == DEFAULT_STALE_TIMEOUT_NS,
    {
        ThreadSampler {
            previous: BTreeMap::new(),
            last_seen: BTreeMap::new(),
            stale_timeout_ns: DEFAULT_STALE_TIMEOUT_NS,
        }
    }

    /// Whether a baseline is kept for thread `tid`.
    pub fn has_baseline(&self, tid: u32) -> (r: bool)
        ensures
            r == self.baseline().contains_key(tid),
    {
        self.previous.contains_key(&tid)
    }

    /// Takes in one raw snapshot observed at `now_ns` and returns one delta
    /// per record, in order; then forgets threads not seen within the
    /// staleness window.
    pub fn sample(&mut self, raw_stats: &[ThreadStats], now_ns: u64) -> (r: SampleResult)
        requires
            old(self).wf(),
        ensures
            final(self).wf(),
            final(self).stale_timeout() == old(self).stale_timeout(),
            r.timestamp_ns == now_ns,
            r.threads_sampled == raw_stats@.len(),
            r.per_thread@.len() == raw_stats@.len(),
            forall|i: int|
                0 <= i < raw_stats@.len() ==> r.per_thread@[i] == expected_delta(
                    old(self).baseline(),
                    raw_stats@,
                    i,
                ),
            final(self).last_seen() == next_seen(
                old(self).last_seen(),
                raw_stats@,
                now_ns,
                old(self).stale_timeout(),
            ),
            final(self).baseline() == next_baseline(
                old(self).baseline(),
                old(self).last_seen(),
                raw_stats@,
                now_ns,
                old(self).stale_timeout(),
            ),
    {
        let ghost base0 = self.previous@;
        let ghost seen0 = self.last_seen@;
        let mut deltas: Vec<ThreadDelta> = Vec::with_capacity(raw_stats.len());
        let mut i: usize = 0;
        while i < raw_stats.len()
            invariant
                i <= raw_stats@.len(),
                deltas@.len() == i,
                self.previous@ == with_records(base0, raw_stats@.take(i as int)),
                self.last_seen@ == seen_at(seen0, raw_stats@.take(i as int), now_ns),
                self.stale_timeout_ns == old(self).stale_timeout_ns,
                base0 == old(self).baseline(),
                seen0 == old(self).last_seen(),
                forall|j: int| 0 <= j < i ==> deltas@[j] == expected_delta(base0, raw_stats@, j),
            decreases raw_stats@.len() - i,
        {
            let stat = &raw_stats[i];
            let tid = stat.tid;
            self.last_seen.insert(tid, now_ns);
            let delta = match self.previous.get(&tid) {
                Some(prev) => wrapping_delta(stat, prev),
                None => ThreadDelta {
                    tid,
                    jit_time: 0,
                    signal_time: 0,
                    sigbus_count: 0,
                    smc_count: 0,
                    float_fallback_count: 0,
                    cache_miss_count: 0,
                    cache_read_lock_time: 0,
                    cache_write_lock_time: 0,
                    jit_count: 0,
                },
            };
            self.previous.insert(tid, *stat);
            deltas.push(delta);
            proof {
                let next = raw_stats@.take(i as int + 1);
                assert(next.drop_last() =~= raw_stats@.take(i as int));
                assert(next.last() == raw_stats@[i as int]);
            }
            i = i + 1;
        }
        proof {
            assert(raw_stats@.take(raw_stats@.len() as int) =~= raw_stats@);
        }
        let threads_sampled = deltas.len();
        proof {
            lemma_records_dom(base0, seen0, raw_stats@, now_ns);
        }
        self.evict_stale(now_ns);
        proof {
            let seen1 = seen_at(seen0, raw_stats@, now_ns);
            let gone = stale_set(seen1, now_ns, self.stale_timeout_ns);
            assert(self.last_seen@ =~= next_seen(seen0, raw_stats@, now_ns, self.stale_timeout_ns));
            assert(self.previous@ =~= next_baseline(base0, seen0, raw_stats@, now_ns, self.stale_timeout_ns));
        }
        SampleResult { timestamp_ns: now_ns, per_thread: deltas, threads_sampled }
    }

    /// Forgets every thread whose last sighting is at least the staleness
    /// window before `now_ns`.
    fn evict_stale(&mut self, now_ns: u64)
        ensures
            final(self).stale_timeout_ns == old(self).stale_timeout_ns,
            final(self).last_seen@ == old(self).last_seen@.remove_keys(
                stale_set(old(self).last_seen@, now_ns, old(self).stale_timeout_ns),
            ),
            final(self).previous@ == old(self).previous@.remove_keys(
                stale_set(old(self).last_seen@, now_ns, old(self).stale_timeout_ns),
            ),
    {
        let timeout = self.stale_timeout_ns;
        let ghost seen0 = self.last_seen@;
        let ghost base0 = self.previous@;
        let ghost gone = stale_set(seen0, now_ns, timeout);
        let mut stale: Vec<u32> = Vec::new();
        for tid in it: self.last_seen.keys()
            invariant
                self.last_seen@ == seen0,
                gone == stale_set(seen0, now_ns, timeout),
                it.seq().unref().to_set() == seen0.dom(),
                forall|j: int| 0 <= j < stale@.len() ==> gone.contains(#[trigger] stale@[j]),
                forall|t: u32|
                    gone.contains(t) ==> stale@.contains(t) || exists|j: int|
                        it.index() <= j < it.seq().len() && *it.seq()[j] == t,
        {
            proof {
                assert(it.seq().unref()[it.index() as int] == *tid);
                assert(it.seq().unref().to_set().contains(*tid));
                assert forall|t: u32|
                    gone.contains(t) && !stale@.contains(t) && *tid != t implies exists|j: int|
                        it.index() + 1 <= j < it.seq().len() && *it.seq()[j] == t by {
                    let j = choose|j: int| it.index() <= j < it.seq().len() && *it.seq()[j] == t;
                    assert(j != it.index());
                }
            }
            if let Some(seen) = self.last_seen.get(tid) {
                if now_ns.saturating_sub(*seen) >= timeout {
                    let ghost before = stale@;
                    stale.push(*tid);
                    proof {
                        assert(stale@[stale@.len() - 1] == *tid);
                        assert forall|t: u32| before.contains(t) implies stale@.contains(t) by {
                            let j = choose|j: int| 0 <= j < before.len() && before[j] == t;
                            assert(stale@[j] == t);
                        }
                    }
                }
            }
        }
        proof {
            assert forall|t: u32| gone.contains(t) implies stale@.contains(t) by {
                if !stale@.contains(t) {
                    assert(false);
                }
            }
        }
        let mut k: usize = 0;
        while k < stale.len()
            invariant
                k <= stale@.len(),
                self.stale_timeout_ns == timeout,
                forall|j: int| 0 <= j < stale@.len() ==> gone.contains(#[trigger] stale@[j]),
                forall|t: u32| gone.contains(t) ==> stale@.contains(t),
                self.last_seen@ == seen0.remove_keys(stale@.take(k as int).to_set()),
                self.previous@ == base0.remove_keys(stale@.take(k as int).to_set()),
            decreases stale@.len() - k,
        {
            let tid = stale[k];
            self.last_seen.remove(&tid);
            self.previous.remove(&tid);
            proof {
                let prefix = stale@.take(k as int);
                assert(stale@.take(k as int + 1) =~= prefix.push(tid));
                assert forall|t: u32| #[trigger] prefix.push(tid).contains(t) <==> prefix.contains(t) || t == tid by {
                    if prefix.push(tid).contains(t) && t != tid {
                        let j = choose|j: int| 0 <= j < prefix.len() + 1 && prefix.push(tid)[j] == t;
                        assert(prefix[j] == t);
                    }
                    if prefix.contains(t) {
                        let j = choose|j: int| 0 <= j < prefix.len() && prefix[j] == t;
                        assert(prefix.push(tid)[j] == t);
                    }
                    if t == tid {
                        assert(prefix.push(tid)[prefix.len() as int] == t);
                    }
                }
                assert(stale@.take(k as int + 1).to_set() =~= prefix.to_set().insert(tid));
                assert(self.last_seen@ =~= seen0.remove_keys(stale@.take(k as int + 1).to_set()));
                assert(self.previous@ =~= base0.remove_keys(stale@.take(k as int + 1).to_set()));
            }
            k = k + 1;
        }
        proof {
            assert(stale@.take(stale@.len() as int) =~= stale@);
            assert forall|t: u32| stale@.to_set().contains(t) implies gone.contains(t) by {
                let j = choose|j: int| 0 <= j < stale@.len() && stale@[j] == t;
            }
            assert(self.last_seen@ =~= seen0.remove_keys(gone));
            assert(self.previous@ =~= base0.remove_keys(gone));
        }
    }
}

impl Default for ThreadSampler {
    fn default() -> (s: Self)
        ensures
            s.wf(),
            s.baseline() == Map::<u32, ThreadStats>::empty(),
            s.last_seen() == Map::<u32, u64>::empty(),
            s.stale_timeout() == DEFAULT_STALE_TIMEOUT_NS,
    {
        Self::new()
    }
}

} // verus!
