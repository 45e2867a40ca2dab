//! Text renderings of byte counts and replay positions.
use vstd::prelude::*;
use vstd::string::StringExecFns;

verus! {

pub const KIB: u64 = 1024;

pub const MIB: u64 = 1024 * 1024;

pub const GIB: u64 = 1024 * 1024 * 1024;

/// The decimal digit for `d` (below ten).
pub open spec fn digit_char(d: int) -> char {
    if d == 0 {
        '0'
    } else if d == 1 {
        '1'
    } else if d == 2 {
        '2'
    } else if d == 3 {
        '3'
    } else if d == 4 {
        '4'
    } else if d == 5 {
        '5'
    } else if d == 6 {
        '6'
    } else if d == 7 {
        '7'
    } else if d == 8 {
        '8'
    } else {
        '9'
    }
}

/// `n` written in decimal, without leading zeros.
pub open spec fn decimal(n: nat) -> Seq<char>
    decreases n,
{
    if n < 10 {
        seq![digit_char(n as int)]
    } else {
        decimal(n / 10).push(digit_char((n % 10) as int))
    }
}

/// `n` in decimal, padded with a leading zero to at least two digits.
pub open spec fn two_digits(n: nat) -> Seq<char> {
    if n < 10 {
        seq!['0'] + decimal(n)
    } else {
        decimal(n)
    }
}

/// `n / d` rounded to the nearest integer, halves to the even neighbour.
pub open spec fn rounded_div(n: nat, d: nat) -> nat {
    let q = n / d;
    let r = n % d;
    if 2 * r > d || (2 * r == d && q % 2 == 1) {
        q + 1
    } else {
        q
    }
}

/// A byte count in the largest binary unit it reaches: GiB with one decimal,
/// MiB and KiB rounded to whole units, plain bytes below that.
pub open spec fn bytes_text(bytes: u64) -> Seq<char> {
    if bytes >= GIB {
        let t = rounded_div(bytes as nat * 10, GIB as nat);
        decimal(t / 10) + seq!['.'] + decimal(t % 10) + seq![' ', 'G', 'i', 'B']
    } else if bytes >= MIB {
        decimal(rounded_div(bytes as nat, MIB as nat)) + seq![' ', 'M', 'i', 'B']
    } else if bytes >= KIB {
        decimal(rounded_div(bytes as nat, KIB as nat)) + seq![' ', 'K', 'i', 'B']
    } else {
        decimal(bytes as nat) + seq![' ', 'B']
    }
}

/// The whole seconds `frame_index` frames of `sample_period_ns` each last,
/// at most `u64::MAX`.
pub open spec fn elapsed_secs(frame_index: usize, sample_period_ns: u64) -> nat {
    let s = frame_index * sample_period_ns / 1_000_000_000;
    if s > u64::MAX {
        u64::MAX as nat
    } else {
        s as nat
    }
}

/// A replay position as `MM:SS` (minutes may take more digits).
pub open spec fn time_text(frame_index: usize, sample_period_ns: u64) -> Seq<char> {
    let s = elapsed_secs(frame_index, sample_period_ns);
    two_digits(s / 60) + seq![':'] + two_digits(s % 60)
}

fn digit_str(d: u64) -> (r: &'static str)
    requires
        d < 10,
    ensures
        r@ == seq![digit_char(d as int)],
{
    proof {
        reveal_strlit("0");
        reveal_strlit("1");
        reveal_strlit("2");
        reveal_strlit("3");
        reveal_strlit("4");
        reveal_strlit("5");
        reveal_strlit("6");
        reveal_strlit("7");
        reveal_strlit("8");
        reveal_strlit("9");
    }
    match d {
        0 => "0",
        1 => "1",
        2 => "2",
        3 => "3",
        4 => "4",
        5 => "5",
        6 => "6",
        7 => "7",
        8 => "8",
        _ => "9",
    }
}

pub(crate) fn push_decimal(s: &mut String, n: u64)
    ensures
        final(s)@ == old(s)@ + decimal(n as nat),
    decreases n,
{
    if n >= 10 {
        push_decimal(s, n / 10);
    }
    s.append(digit_str(n % 10));
    proof {
        assert(final(s)@ =~= old(s)@ + decimal(n as nat));
    }
}

fn push_two_digits(s: &mut String, n: u64)
    ensures
        final(s)@ == old(s)@ + two_digits(n as nat),
{
    if n < 10 {
        proof {
            reveal_strlit("0");
        }
        s.append("0");
    }
    push_decimal(s, n);
    proof {
        assert(final(s)@ =~= old(s)@ + two_digits(n as nat));
    }
}

/// Computes `rounded_div`.
fn round_div(n: u128, d: u128) -> (r: u128)
    requires
        d > 0,
        n / d < u128::MAX,
    ensures
        r == rounded_div(n as nat, d as nat),
{
    let q = n / d;
    let r = n % d;
    if r > d - r || (r == d - r && q % 2 == 1) {
        q + 1
    } else {
        q
    }
}

/// Renders a byte count as `bytes_text` says.
pub fn format_bytes(bytes: u64) -> (r: String)
    ensures
        r@ == bytes_text(bytes),
{
    let mut s = String::new();
    proof {
        reveal_strlit(" GiB");
        reveal_strlit(" MiB");
        reveal_strlit(" KiB");
        reveal_strlit(" B");
        reveal_strlit(".");
    }
    if bytes >= GIB {
        let t = round_div(bytes as u128 * 10, GIB as u128);
        assert(t <= u64::MAX) by {
            assert((bytes as nat * 10) / (GIB as nat) <= bytes as nat * 10);
        }
        push_decimal(&mut s, (t / 10) as u64);
        s.append(".");
        push_decimal(&mut s, (t % 10) as u64);
        s.append(" GiB");
    } else if bytes >= MIB {
        push_decimal(&mut s, round_div(bytes as u128, MIB as u128) as u64);
        s.append(" MiB");
    } else if bytes >= KIB {
        push_decimal(&mut s, round_div(bytes as u128, KIB as u128) as u64);
        s.append(" KiB");
    } else {
        push_decimal(&mut s, bytes);
        s.append(" B");
    }
    proof {
        assert(s@ =~= bytes_text(bytes));
    }
    s
}

/// Renders a replay position as `time_text` says.
pub fn format_time(frame_index: usize, sample_period_ns: u64) -> (r: String)
    ensures
        r@ == time_text(frame_index, sample_period_ns),
{
    proof {
        assert(frame_index as int * sample_period_ns as int <= 0xffff_ffff_ffff_fffe_0000_0000_0000_0001) by (nonlinear_arith)
            requires
                frame_index <= 0xffff_ffff_ffff_ffff,
                sample_period_ns <= 0xffff_ffff_ffff_ffff,
        ;
    }
    let total_ns: u128 = frame_index as u128 * sample_period_ns as u128;
    let q = total_ns / 1_000_000_000;
    let secs: u64 = if q > u64::MAX as u128 {
        u64::MAX
    } else {
        q as u64
    };
    let mut s = String::new();
    push_two_digits(&mut s, secs / 60);
    proof {
        reveal_strlit(":");
    }
    s.append(":");
    push_two_digits(&mut s, secs % 60);
    proof {
        assert(s@ =~= time_text(frame_index, sample_period_ns));
    }
    s
}

} // verus!
