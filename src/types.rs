//! Layouts published by the monitored process and the session description.
use vstd::prelude::*;
use vstd::string::StringSliceAdditionalSpecFns;

use crate::text::{all_digits, digit_of, digits_value, parse_radix, parse_radix_range};

verus! {

/// Version of the counters block this crate understands.
pub const STATS_VERSION: u8 = 2;

/// Kind of application the emulator runs.
#[derive(Debug, Clone, Copy, PartialEq, Eq, Structural)]
pub enum AppType {
    Linux32,
    Linux64,
    WinArm64ec,
    WinWow64,
}

/// The raw tag the producer stores for each kind, or `None` past the last one.
pub open spec fn app_type_of(val: u8) -> Option<AppType> {
    if val == 0 {
        Some(AppType::Linux32)
    } else if val == 1 {
        Some(AppType::Linux64)
    } else if val == 2 {
        Some(AppType::WinArm64ec)
    } else if val == 3 {
        Some(AppType::WinWow64)
    } else {
        None
    }
}

impl AppType {
    /// Converts a raw tag to an `AppType`, returning `None` for unknown values.
    pub fn from_u8(val: u8) -> (r: Option<Self>)
        ensures
            r == app_type_of(val),
    {
        match val {
            0 => Some(AppType::Linux32),
            1 => Some(AppType::Linux64),
            2 => Some(AppType::WinArm64ec),
            3 => Some(AppType::WinWow64),
            _ => None,
        }
    }
}

/// One per-thread counter record as the monitored process lays it out: a link
/// to the next record and nine counters that only ever grow (modulo wrapping).
#[derive(Debug, Clone, Copy, Default)]
pub struct ThreadStats {
    pub next: u32,
    pub tid: u32,
    pub accumulated_jit_time: u64,
    pub accumulated_signal_time: u64,
    pub sigbus_count: u64,
    pub smc_count: u64,
    pub float_fallback_count: u64,
    pub accumulated_cache_miss_count: u64,
    pub accumulated_cache_read_lock_time: u64,
    pub accumulated_cache_write_lock_time: u64,
    pub accumulated_jit_count: u64,
}

/// Size in bytes of the header that opens the counters segment.
pub const HEADER_SIZE: usize = 64;

/// Size in bytes of one per-thread counter record.
pub const THREAD_STATS_SIZE: usize = 80;

/// The fixed header that opens the counters segment, as published.
#[derive(Debug, Clone, Copy)]
pub struct ThreadStatsHeader {
    pub version: u8,
    pub app_type: u8,
    pub thread_stats_size: u16,
    pub fex_version: [u8; 48],
    pub head: u32,
    pub size: u32,
    pub pad: u32,
}

/// The header with its version text decoded.
#[derive(Debug, Clone)]
pub struct HeaderSnapshot {
    pub version: u8,
    pub app_type: AppType,
    pub thread_stats_size: u16,
    pub fex_version: String,
    pub head: u32,
    pub size: u32,
}

/// Wall-clock time since the Unix epoch.
#[derive(Debug, Clone, Copy, Default, PartialEq, Eq, Structural)]
pub struct WallTime {
    pub secs_since_epoch: u64,
    pub nanos_since_epoch: u32,
}

/// What a recording says about the session it was taken from.
#[derive(Debug, Clone)]
pub struct SessionMetadata {
    pub pid: i32,
    pub fex_version: String,
    pub app_type: AppType,
    pub stats_version: u8,
    pub cycle_counter_frequency: u64,
    pub hardware_concurrency: usize,
    pub recording_start: WallTime,
    pub head: u32,
    pub size: u32,
}

/// The text `String::from_utf8_lossy` makes of `bytes`.
pub uninterp spec fn utf8_lossy(bytes: Seq<u8>) -> Seq<char>;

/// Relies on `String::from_utf8_lossy`: the bytes decoded as UTF-8, each
/// invalid sequence replaced; the text depends on the bytes alone.
#[verifier::external_body]
fn lossy_text(bytes: &[u8]) -> (r: String)
    ensures
        r@ == utf8_lossy(bytes@),
{
    String::from_utf8_lossy(bytes).into_owned()
}

/// The bytes of `name` before its first NUL (all of them if there is none).
pub open spec fn until_nul(name: Seq<u8>) -> Seq<u8> {
    if exists|k: int| 0 <= k < name.len() && name[k] == 0 {
        name.take(choose|k: int| 0 <= k < name.len() && name[k] == 0 && forall|j: int| 0 <= j < k ==> name[j] != 0)
    } else {
        name
    }
}

/// The kind a raw tag names, unknown tags read as 64-bit Linux.
pub open spec fn app_type_or_default(val: u8) -> AppType {
    match app_type_of(val) {
        Some(t) => t,
        None => AppType::Linux64,
    }
}

impl HeaderSnapshot {
    /// Decodes a copied header: the version text up to its first NUL, and the
    /// application kind.
    pub fn from_raw(raw: &ThreadStatsHeader) -> (h: Self)
        ensures
            h.version == raw.version,
            h.app_type == app_type_or_default(raw.app_type),
            h.thread_stats_size == raw.thread_stats_size,
            h.fex_version@ == utf8_lossy(until_nul(raw.fex_version@)),
            h.head == raw.head,
            h.size == raw.size,
    {
        let mut name: Vec<u8> = Vec::new();
        let mut i: usize = 0;
        while i < 48 && raw.fex_version[i] != 0
            invariant
                i <= 48,
                raw.fex_version@.len() == 48,
                name@ == raw.fex_version@.take(i as int),
                forall|j: int| 0 <= j < i ==> raw.fex_version@[j] != 0,
            decreases 48 - i,
        {
            name.push(raw.fex_version[i]);
            proof {
                assert(name@ =~= raw.fex_version@.take(i as int + 1));
            }
            i = i + 1;
        }
        proof {
            let v = raw.fex_version@;
            if i < 48 {
                let k = choose|k: int| 0 <= k < v.len() && v[k] == 0 && forall|j: int| 0 <= j < k ==> v[j] != 0;
                if k < i {
                    assert(v[k] != 0);
                }
                if k > i {
                    assert(v[i as int] != 0);
                }
                assert(k == i);
            } else {
                assert(v.take(48) =~= v);
            }
        }
        let app_type = match AppType::from_u8(raw.app_type) {
            Some(t) => t,
            None => AppType::Linux64,
        };
        HeaderSnapshot {
            version: raw.version,
            app_type,
            thread_stats_size: raw.thread_stats_size,
            fex_version: lossy_text(name.as_slice()),
            head: raw.head,
            size: raw.size,
        }
    }
}

/// The session metadata for a header, or the header's version when it is
/// not `STATS_VERSION`.
pub fn build_metadata(
    header: &HeaderSnapshot,
    pid: i32,
    cycle_counter_frequency: u64,
    hardware_concurrency: usize,
    recording_start: WallTime,
) -> (r: Result<SessionMetadata, u8>)
    ensures
        header.version != STATS_VERSION <==> r == Err::<SessionMetadata, u8>(header.version),
        header.version == STATS_VERSION <==> r is Ok,
        r matches Ok(m) ==> {
            &&& m.pid == pid
            &&& m.fex_version@ == header.fex_version@
            &&& m.app_type == header.app_type
            &&& m.stats_version == header.version
            &&& m.cycle_counter_frequency == cycle_counter_frequency
            &&& m.hardware_concurrency == hardware_concurrency
            &&& m.recording_start == recording_start
            &&& m.head == header.head
            &&& m.size == header.size
        },
{
    if header.version != STATS_VERSION {
        return Err(header.version);
    }
    Ok(SessionMetadata {
        pid,
        fex_version: header.fex_version.clone(),
        app_type: header.app_type,
        stats_version: header.version,
        cycle_counter_frequency,
        hardware_concurrency,
        recording_start,
        head: header.head,
        size: header.size,
    })
}

/// Where the record at `offset` starts, when it lies wholly inside a mapping
/// of `mapped` bytes; `None` ends the walk (offset zero ends the list).
pub fn record_start(offset: u32, mapped: usize) -> (r: Option<usize>)
    ensures
        r == (if offset != 0 && offset + THREAD_STATS_SIZE <= mapped {
            Some(offset as usize)
        } else {
            None::<usize>
        }),
{
    if offset != 0 && (offset as usize) <= mapped && mapped - (offset as usize) >= THREAD_STATS_SIZE {
        Some(offset as usize)
    } else {
        None
    }
}

/// The size to remap to when the header declares `declared` bytes and
/// `mapped` are mapped: only a non-zero size that differs.
pub fn remap_size(declared: u32, mapped: usize) -> (r: Option<usize>)
    ensures
        r == (if declared != 0 && declared != mapped {
            Some(declared as usize)
        } else {
            None::<usize>
        }),
{
    if declared != 0 && declared as usize != mapped {
        Some(declared as usize)
    } else {
        None
    }
}

/// The signed number `s` spells: an optional sign, then one or more decimal
/// digits, within the range of `i32`.
pub open spec fn parse_i32(s: Seq<u8>) -> Option<i32> {
    if s.len() > 0 && s[0] == 45 {
        let d = s.drop_first();
        if d.len() > 0 && all_digits(d, 10) && digits_value(d, 10) <= 2147483648 {
            Some((0 - digits_value(d, 10)) as i32)
        } else {
            None
        }
    } else {
        match parse_radix(s, 10) {
            Some(v) => if v <= 2147483647 {
                Some(v as i32)
            } else {
                None
            },
            None => None,
        }
    }
}

/// The process id in a counters segment's name `fex-<pid>-stats`.
pub open spec fn segment_pid_of(name: Seq<u8>) -> Option<i32> {
    if name.len() >= 10 && name.take(4) == seq![102u8, 101, 120, 45] && name.skip(name.len() - 6)
        == seq![45u8, 115, 116, 97, 116, 115] {
        parse_i32(name.subrange(4, name.len() - 6))
    } else {
        None
    }
}

/// Reads the process id out of a counters segment's name, as
/// `segment_pid_of` says.
pub fn segment_pid(name: &str) -> (r: Option<i32>)
    ensures
        r == segment_pid_of(name.spec_bytes()),
{
    let b = name.as_bytes();
    let n = b.len();
    if n < 10 {
        return None;
    }
    if !(b[0] == 102 && b[1] == 101 && b[2] == 120 && b[3] == 45) {
        proof {
            if b@.take(4) == seq![102u8, 101, 120, 45] {
                assert(b@.take(4)[0] == b@[0] && b@.take(4)[1] == b@[1]);
                assert(b@.take(4)[2] == b@[2] && b@.take(4)[3] == b@[3]);
            }
        }
        return None;
    }
    let t = n - 6;
    if !(b[t] == 45 && b[t + 1] == 115 && b[t + 2] == 116 && b[t + 3] == 97 && b[t + 4] == 116
        && b[t + 5] == 115) {
        proof {
            let tail = b@.skip(t as int);
            if tail == seq![45u8, 115, 116, 97, 116, 115] {
                assert(tail[0] == b@[t as int] && tail[1] == b@[t + 1]);
                assert(tail[2] == b@[t + 2] && tail[3] == b@[t + 3]);
                assert(tail[4] == b@[t + 4] && tail[5] == b@[t + 5]);
            }
        }
        return None;
    }
    proof {
        assert(b@.take(4) =~= seq![102u8, 101, 120, 45]);
        assert(b@.skip(t as int) =~= seq![45u8, 115, 116, 97, 116, 115]);
    }
    let ghost mid = b@.subrange(4, t as int);
    if 4 < t && b[4] == 45 {
        proof {
            assert(mid[0] == b@[4]);
            assert(mid.drop_first() =~= b@.subrange(5, t as int));
        }
        if 5 < t && b[5] == 43 {
            proof {
                let d = mid.drop_first();
                assert(d[0] == 43u8);
                assert(digit_of(d[0], 10) == -1);
                assert(!all_digits(d, 10));
            }
            return None;
        }
        proof {
            let d = b@.subrange(5, t as int);
            if d.len() > 0 {
                assert(d[0] == b@[5]);
            }
            if all_digits(d, 10) {
                crate::text::lemma_digits_value_nonneg(d, 10);
            }
        }
        match parse_radix_range(b, 5, t, 10) {
            Some(v) => if v <= 2147483648 {
                Some((0 - (v as i64)) as i32)
            } else {
                None
            },
            None => None,
        }
    } else {
        proof {
            if mid.len() > 0 {
                assert(mid[0] == b@[4]);
            }
            if all_digits(mid, 10) {
                crate::text::lemma_digits_value_nonneg(mid, 10);
            }
            if mid.len() > 0 && all_digits(mid.drop_first(), 10) {
                crate::text::lemma_digits_value_nonneg(mid.drop_first(), 10);
            }
        }
        match parse_radix_range(b, 4, t, 10) {
            Some(v) => if v <= 2147483647 {
                Some(v as i32)
            } else {
                None
            },
            None => None,
        }
    }
}

/// Whether a segment of `size` bytes can hold the header.
pub fn holds_header(size: usize) -> (r: bool)
    ensures
        r == (size >= HEADER_SIZE),
{
    size >= HEADER_SIZE
}

} // verus!
