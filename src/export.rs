//! Flat-file export: one CSV row per frame, in a fixed column order.
use vstd::prelude::*;
use vstd::string::StringExecFns;

use crate::accumulator::ComputedFrame;
use crate::display::{decimal, push_decimal};

verus! {

/// The column names, in order.
pub fn csv_header() -> (r: String)
    ensures
        r@ == csv_header_text(),
{
    proof {
        reveal_strlit(
            "frame,timestamp_ns,sample_period_ns,threads_sampled,total_jit_time,total_signal_time,total_sigbus_count,total_smc_count,total_float_fallback_count,total_cache_miss_count,total_cache_read_lock_time,total_cache_write_lock_time,total_jit_count,total_jit_invocations,fex_load_percent,mem_total_anon,mem_jit_code,mem_op_dispatcher,mem_frontend,mem_cpu_backend,mem_lookup,mem_lookup_l1,mem_thread_states,mem_block_links,mem_misc,mem_jemalloc,mem_unaccounted",
        );
    }
    let mut s = String::new();
    s.append(
        "frame,timestamp_ns,sample_period_ns,threads_sampled,total_jit_time,total_signal_time,total_sigbus_count,total_smc_count,total_float_fallback_count,total_cache_miss_count,total_cache_read_lock_time,total_cache_write_lock_time,total_jit_count,total_jit_invocations,fex_load_percent,mem_total_anon,mem_jit_code,mem_op_dispatcher,mem_frontend,mem_cpu_backend,mem_lookup,mem_lookup_l1,mem_thread_states,mem_block_links,mem_misc,mem_jemalloc,mem_unaccounted",
    );
    s
}

/// The header row's text.
pub open spec fn csv_header_text() -> Seq<char> {
    "frame,timestamp_ns,sample_period_ns,threads_sampled,total_jit_time,total_signal_time,total_sigbus_count,total_smc_count,total_float_fallback_count,total_cache_miss_count,total_cache_read_lock_time,total_cache_write_lock_time,total_jit_count,total_jit_invocations,fex_load_percent,mem_total_anon,mem_jit_code,mem_op_dispatcher,mem_frontend,mem_cpu_backend,mem_lookup,mem_lookup_l1,mem_thread_states,mem_block_links,mem_misc,mem_jemalloc,mem_unaccounted"@
}

/// A comma, then `n` in decimal.
pub open spec fn field(n: nat) -> Seq<char> {
    seq![','] + decimal(n)
}

/// A load in parts per million written as a percentage with four decimals.
pub open spec fn percent_text(ppm: u64) -> Seq<char> {
    let frac = (ppm % 10_000) as nat;
    let pad = if frac < 10 {
        seq!['0', '0', '0']
    } else if frac < 100 {
        seq!['0', '0']
    } else if frac < 1000 {
        seq!['0']
    } else {
        Seq::empty()
    };
    decimal((ppm / 10_000) as nat) + seq!['.'] + pad + decimal(frac)
}

/// The row of frame number `index`.
pub open spec fn csv_row_text(index: usize, f: ComputedFrame) -> Seq<char> {
    decimal(index as nat) + field(f.timestamp_ns as nat) + field(f.sample_period_ns as nat) + field(
        f.threads_sampled as nat,
    ) + field(f.total_jit_time as nat) + field(f.total_signal_time as nat) + field(
        f.total_sigbus_count as nat,
    ) + field(f.total_smc_count as nat) + field(f.total_float_fallback_count as nat) + field(
        f.total_cache_miss_count as nat,
    ) + field(f.total_cache_read_lock_time as nat) + field(f.total_cache_write_lock_time as nat)
        + field(f.total_jit_count as nat) + field(f.total_jit_invocations as nat) + seq![',']
        + percent_text(f.fex_load_ppm) + field(f.mem.total_anon as nat) + field(
        f.mem.jit_code as nat,
    ) + field(f.mem.op_dispatcher as nat) + field(f.mem.frontend as nat) + field(
        f.mem.cpu_backend as nat,
    ) + field(f.mem.lookup as nat) + field(f.mem.lookup_l1 as nat) + field(
        f.mem.thread_states as nat,
    ) + field(f.mem.block_links as nat) + field(f.mem.misc as nat) + field(f.mem.jemalloc as nat)
        + field(f.mem.unaccounted as nat)
}

fn push_field(s: &mut String, n: u64)
    ensures
        final(s)@ == old(s)@ + field(n as nat),
{
    proof {
        reveal_strlit(",");
    }
    s.append(",");
    push_decimal(s, n);
    proof {
        assert(final(s)@ =~= old(s)@ + field(n as nat));
    }
}

fn push_percent(s: &mut String, ppm: u64)
    ensures
        final(s)@ == old(s)@ + percent_text(ppm),
{
    proof {
        reveal_strlit(".");
        reveal_strlit("0");
        reveal_strlit("00");
        reveal_strlit("000");
    }
    push_decimal(s, ppm / 10_000);
    s.append(".");
    let frac = ppm % 10_000;
    if frac < 10 {
        s.append("000");
    } else if frac < 100 {
        s.append("00");
    } else if frac < 1000 {
        s.append("0");
    }
    push_decimal(s, frac);
    proof {
        assert(final(s)@ =~= old(s)@ + percent_text(ppm));
    }
}

/// The CSV row of frame number `index`: the frame's scalar fields, the
/// overall load as a percentage, then the memory buckets.
pub fn csv_row(index: usize, f: &ComputedFrame) -> (r: String)
    requires
        index <= u64::MAX,
        f.threads_sampled <= u64::MAX,
    ensures
        r@ == csv_row_text(index, *f),
{
    let mut s = String::new();
    push_decimal(&mut s, index as u64);
    push_field(&mut s, f.timestamp_ns);
    push_field(&mut s, f.sample_period_ns);
    push_field(&mut s, f.threads_sampled as u64);
    push_field(&mut s, f.total_jit_time);
    push_field(&mut s, f.total_signal_time);
    push_field(&mut s, f.total_sigbus_count);
    push_field(&mut s, f.total_smc_count);
    push_field(&mut s, f.total_float_fallback_count);
    push_field(&mut s, f.total_cache_miss_count);
    push_field(&mut s, f.total_cache_read_lock_time);
    push_field(&mut s, f.total_cache_write_lock_time);
    push_field(&mut s, f.total_jit_count);
    push_field(&mut s, f.total_jit_invocations);
    proof {
        reveal_strlit(",");
    }
    s.append(",");
    push_percent(&mut s, f.fex_load_ppm);
    push_field(&mut s, f.mem.total_anon);
    push_field(&mut s, f.mem.jit_code);
    push_field(&mut s, f.mem.op_dispatcher);
    push_field(&mut s, f.mem.frontend);
    push_field(&mut s, f.mem.cpu_backend);
    push_field(&mut s, f.mem.lookup);
    push_field(&mut s, f.mem.lookup_l1);
    push_field(&mut s, f.mem.thread_states);
    push_field(&mut s, f.mem.block_links);
    push_field(&mut s, f.mem.misc);
    push_field(&mut s, f.mem.jemalloc);
    push_field(&mut s, f.mem.unaccounted);
    proof {
        assert(s@ =~= csv_row_text(index, *f));
    }
    s
}

} // verus!
