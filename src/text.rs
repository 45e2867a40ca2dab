//! Byte-level text helpers: whitespace-separated tokens, substring search and
//! unsigned number parsing, each stated over the bytes of a line.
use vstd::prelude::*;

verus! {

/// ASCII whitespace: space, tab, line feed, vertical tab, form feed, carriage return.
pub open spec fn is_space(c: u8) -> bool {
    c == 32 || (9 <= c && c <= 13)
}

/// The UTF-8 encoding of a three-byte Unicode whitespace character: U+1680,
/// U+2000 to U+200A, U+2028, U+2029, U+202F, U+205F or U+3000.
pub open spec fn is_wide_space(b0: u8, b1: u8, b2: u8) -> bool {
    (b0 == 0xe1 && b1 == 0x9a && b2 == 0x80) || (b0 == 0xe2 && b1 == 0x80 && (b2 <= 0x8a || b2
        == 0xa8 || b2 == 0xa9 || b2 == 0xaf) && b2 >= 0x80) || (b0 == 0xe2 && b1 == 0x81 && b2
        == 0x9f) || (b0 == 0xe3 && b1 == 0x80 && b2 == 0x80)
}

/// The length in bytes of the whitespace character that starts at `i` and
/// ends by `hi`, or zero: ASCII whitespace, U+0085, U+00A0, or a three-byte
/// whitespace character (every character with the Unicode `White_Space`
/// property).
pub open spec fn space_len(s: Seq<u8>, i: int, hi: int) -> int {
    if i >= hi {
        0
    } else if is_space(s[i]) {
        1
    } else if i + 1 < hi && s[i] == 0xc2 && (s[i + 1] == 0x85 || s[i + 1] == 0xa0) {
        2
    } else if i + 2 < hi && is_wide_space(s[i], s[i + 1], s[i + 2]) {
        3
    } else {
        0
    }
}

/// The first position at or after `i` (and before `hi`) that does not start
/// a whitespace character.
pub open spec fn skip_spaces(s: Seq<u8>, i: int, hi: int) -> int
    decreases hi - i,
{
    if i >= hi {
        hi
    } else if space_len(s, i, hi) > 0 {
        skip_spaces(s, i + space_len(s, i, hi), hi)
    } else {
        i
    }
}

/// The first position at or after `i` (and before `hi`) that starts a
/// whitespace character.
pub open spec fn token_end(s: Seq<u8>, i: int, hi: int) -> int
    decreases hi - i,
{
    if i >= hi {
        hi
    } else if space_len(s, i, hi) > 0 {
        i
    } else {
        token_end(s, i + 1, hi)
    }
}

/// `pat` occurs in `s` starting at position `k`.
pub open spec fn occurs_at(s: Seq<u8>, pat: Seq<u8>, k: int) -> bool {
    0 <= k && k + pat.len() <= s.len() && s.subrange(k, k + pat.len()) == pat
}

/// `pat` occurs somewhere in `s`.
pub open spec fn contains_bytes(s: Seq<u8>, pat: Seq<u8>) -> bool {
    exists|k: int| occurs_at(s, pat, k)
}

/// The value of `c` as a digit in `radix` (at most 16), or -1.
pub open spec fn digit_of(c: u8, radix: u32) -> int {
    let v: int = if 48 <= c && c <= 57 {
        c - 48
    } else if 97 <= c && c <= 122 {
        c - 87
    } else if 65 <= c && c <= 90 {
        c - 55
    } else {
        -1
    };
    if 0 <= v && v < radix {
        v
    } else {
        -1
    }
}

/// Every byte of `s` is a digit in `radix`.
pub open spec fn all_digits(s: Seq<u8>, radix: u32) -> bool {
    forall|i: int| 0 <= i < s.len() ==> digit_of(#[trigger] s[i], radix) >= 0
}

/// The number the digits of `s` spell in `radix`.
pub open spec fn digits_value(s: Seq<u8>, radix: u32) -> int
    decreases s.len(),
{
    if s.len() == 0 {
        0
    } else {
        digits_value(s.drop_last(), radix) * radix + digit_of(s.last(), radix)
    }
}

/// The unsigned number `s` spells in `radix`: an optional `+`, then one or
/// more digits, with a value that fits in 64 bits.
pub open spec fn parse_radix(s: Seq<u8>, radix: u32) -> Option<u64> {
    let d = if s.len() > 0 && s[0] == 43 {
        s.drop_first()
    } else {
        s
    };
    if d.len() > 0 && all_digits(d, radix) && digits_value(d, radix) <= u64::MAX {
        Some(digits_value(d, radix) as u64)
    } else {
        None
    }
}

proof fn lemma_digits_value_grows(s: Seq<u8>, radix: u32, k: int)
    requires
        2 <= radix <= 16,
        0 <= k <= s.len(),
        all_digits(s, radix),
    ensures
        digits_value(s.take(k), radix) <= digits_value(s, radix),
        digits_value(s.take(k), radix) >= 0,
    decreases s.len() - k,
{
    if k < s.len() {
        lemma_digits_value_grows(s, radix, k + 1);
        assert(s.take(k + 1).drop_last() =~= s.take(k));
        assert(all_digits(s.take(k), radix)) by {
            assert forall|j: int| 0 <= j < s.take(k).len() implies digit_of(#[trigger] s.take(k)[j], radix) >= 0 by {
                assert(s.take(k)[j] == s[j]);
            }
        }
        lemma_digits_value_nonneg(s.take(k), radix);
        let v = digits_value(s.take(k), radix);
        assert(v * radix >= v) by (nonlinear_arith)
            requires
                v >= 0,
                radix >= 2,
        ;
    } else {
        assert(s.take(k) =~= s);
        lemma_digits_value_nonneg(s, radix);
    }
}

pub proof fn lemma_digits_value_nonneg(s: Seq<u8>, radix: u32)
    requires
        2 <= radix <= 16,
        all_digits(s, radix),
    ensures
        digits_value(s, radix) >= 0,
    decreases s.len(),
{
    if s.len() > 0 {
        lemma_digits_value_nonneg(s.drop_last(), radix);
        let v = digits_value(s.drop_last(), radix);
        assert(v * radix >= 0) by (nonlinear_arith)
            requires
                v >= 0,
                radix >= 2,
        ;
    }
}

/// Computes `digit_of`.
pub fn digit_value(c: u8, radix: u32) -> (r: Option<u32>)
    ensures
        match r {
            Some(v) => v == digit_of(c, radix),
            None => digit_of(c, radix) == -1,
        },
{
    let v: u32 = if 48 <= c && c <= 57 {
        (c - 48) as u32
    } else if 97 <= c && c <= 122 {
        (c - 87) as u32
    } else if 65 <= c && c <= 90 {
        (c - 55) as u32
    } else {
        return None;
    };
    if v < radix {
        Some(v)
    } else {
        None
    }
}

/// Parses `s[lo..hi]` as `parse_radix` says.
pub fn parse_radix_range(s: &[u8], lo: usize, hi: usize, radix: u32) -> (r: Option<u64>)
    requires
        lo <= hi <= s@.len(),
        2 <= radix <= 16,
    ensures
        r == parse_radix(s@.subrange(lo as int, hi as int), radix),
{
    let ghost whole = s@.subrange(lo as int, hi as int);
    let mut start = lo;
    if lo < hi && s[lo] == 43 {
        start = lo + 1;
    }
    let ghost d = s@.subrange(start as int, hi as int);
    proof {
        if lo < hi && s[lo as int] == 43 {
            assert(whole.drop_first() =~= d);
        } else {
            assert(whole =~= d);
        }
    }
    if start == hi {
        return None;
    }
    let mut acc: u64 = 0;
    let mut i = start;
    while i < hi
        invariant
            start <= i <= hi <= s@.len(),
            2 <= radix <= 16,
            d == s@.subrange(start as int, hi as int),
            whole == s@.subrange(lo as int, hi as int),
            d == (if whole.len() > 0 && whole[0] == 43 {
                whole.drop_first()
            } else {
                whole
            }),
            all_digits(d.take(i - start), radix),
            acc == digits_value(d.take(i - start), radix),
        decreases hi - i,
    {
        let k: Ghost<int> = Ghost(i - start);
        proof {
            assert(d.take(k@ + 1).drop_last() =~= d.take(k@));
            assert(d[k@] == s@[i as int]);
        }
        match digit_value(s[i], radix) {
            None => {
                proof {
                    assert(digit_of(d[k@], radix) == -1);
                    assert(!all_digits(d, radix));
                }
                return None;
            },
            Some(v) => {
                let next = match acc.checked_mul(radix as u64) {
                    Some(m) => m.checked_add(v as u64),
                    None => None,
                };
                match next {
                    None => {
                        proof {
                            if all_digits(d, radix) {
                                assert forall|j: int| 0 <= j < d.take(k@ + 1).len() implies digit_of(
                                    #[trigger] d.take(k@ + 1)[j],
                                    radix,
                                ) >= 0 by {
                                    assert(d.take(k@ + 1)[j] == d[j]);
                                }
                                lemma_digits_value_nonneg(d.take(k@), radix);
                                lemma_digits_value_grows(d, radix, k@ + 1);
                                assert(d.take(k@ + 1).last() == d[k@]);
                                assert(digits_value(d.take(k@ + 1), radix) == acc * radix + v);
                                assert(acc * radix + v > u64::MAX);
                            }
                        }
                        return None;
                    },
                    Some(n) => {
                        acc = n;
                    },
                }
            },
        }
        proof {
            assert forall|j: int| 0 <= j < d.take(k@ + 1).len() implies digit_of(
                #[trigger] d.take(k@ + 1)[j],
                radix,
            ) >= 0 by {
                if j < k@ {
                    assert(d.take(k@ + 1)[j] == d.take(k@)[j]);
                }
            }
        }
        i = i + 1;
    }
    proof {
        assert(d.take(hi - start) =~= d);
    }
    Some(acc)
}

/// Computes `space_len`.
pub fn space_len_at(s: &[u8], i: usize, hi: usize) -> (r: usize)
    requires
        hi <= s@.len(),
    ensures
        r == space_len(s@, i as int, hi as int),
{
    if i >= hi {
        return 0;
    }
    let c = s[i];
    if c == 32 || (9 <= c && c <= 13) {
        1
    } else if hi - i > 1 && c == 0xc2 && (s[i + 1] == 0x85 || s[i + 1] == 0xa0) {
        2
    } else if hi - i > 2 && ((c == 0xe1 && s[i + 1] == 0x9a && s[i + 2] == 0x80) || (c == 0xe2
        && s[i + 1] == 0x80 && (s[i + 2] <= 0x8a || s[i + 2] == 0xa8 || s[i + 2] == 0xa9
        || s[i + 2] == 0xaf) && s[i + 2] >= 0x80) || (c == 0xe2 && s[i + 1] == 0x81 && s[i + 2]
        == 0x9f) || (c == 0xe3 && s[i + 1] == 0x80 && s[i + 2] == 0x80)) {
        3
    } else {
        0
    }
}

/// Computes `skip_spaces`.
pub fn skip_spaces_at(s: &[u8], i: usize, hi: usize) -> (r: usize)
    requires
        i <= hi <= s@.len(),
    ensures
        r == skip_spaces(s@, i as int, hi as int),
        i <= r <= hi,
{
    let mut j = i;
    loop
        invariant
            i <= j <= hi <= s@.len(),
            skip_spaces(s@, i as int, hi as int) == skip_spaces(s@, j as int, hi as int),
        decreases hi - j,
    {
        let w = space_len_at(s, j, hi);
        if w == 0 {
            return j;
        }
        j = j + w;
    }
}

/// Computes `token_end`.
pub fn token_end_at(s: &[u8], i: usize, hi: usize) -> (r: usize)
    requires
        i <= hi <= s@.len(),
    ensures
        r == token_end(s@, i as int, hi as int),
        i <= r <= hi,
{
    let mut j = i;
    while j < hi && space_len_at(s, j, hi) == 0
        invariant
            i <= j <= hi <= s@.len(),
            token_end(s@, i as int, hi as int) == token_end(s@, j as int, hi as int),
        decreases hi - j,
    {
        j = j + 1;
    }
    j
}

/// Whether `pat` occurs in `s[lo..hi]`.
pub fn contains_at(s: &[u8], lo: usize, hi: usize, pat: &Vec<u8>) -> (r: bool)
    requires
        lo <= hi <= s@.len(),
    ensures
        r == contains_bytes(s@.subrange(lo as int, hi as int), pat@),
{
    let ghost line = s@.subrange(lo as int, hi as int);
    let plen = pat.len();
    if plen > hi - lo {
        proof {
            assert forall|k: int| !occurs_at(line, pat@, k) by {}
        }
        return false;
    }
    let last = hi - plen;
    let mut k = lo;
    while k <= last
        invariant
            lo <= k <= last + 1,
            last + plen == hi,
            hi <= s@.len(),
            plen == pat@.len(),
            line == s@.subrange(lo as int, hi as int),
            forall|q: int| 0 <= q < k - lo ==> !occurs_at(line, pat@, q),
        decreases last + 1 - k,
    {
        let mut m: usize = 0;
        while m < plen && s[k + m] == pat[m]
            invariant
                m <= plen,
                k + plen <= hi,
                hi <= s@.len(),
                plen == pat@.len(),
                forall|q: int| 0 <= q < m ==> s@[k + q] == pat@[q],
            decreases plen - m,
        {
            m = m + 1;
        }
        if m == plen {
            proof {
                assert(line.subrange(k - lo, k - lo + plen) =~= pat@);
                assert(occurs_at(line, pat@, k - lo));
            }
            return true;
        }
        proof {
            assert(line.subrange(k - lo, k - lo + plen)[m as int] != pat@[m as int]);
        }
        k = k + 1;
    }
    proof {
        assert forall|q: int| !occurs_at(line, pat@, q) by {
            if 0 <= q && q + plen <= line.len() {
                assert(q < k - lo);
            }
        }
    }
    false
}

} // verus!
