//! Classification of the monitored process's resident-memory map.
use vstd::prelude::*;
use vstd::string::StringSliceAdditionalSpecFns;

use crate::accumulator::wrap_add;
use crate::text::{
    contains_at, contains_bytes, occurs_at, parse_radix, parse_radix_range, skip_spaces,
    skip_spaces_at, space_len, token_end, token_end_at,
};

verus! {

/// The largest resident allocator region seen in one sample.
#[derive(Debug, Clone, Copy, Default, PartialEq, Eq, Structural)]
pub struct LargestAnon {
    pub begin: u64,
    pub end: u64,
    pub size: u64,
}

/// Resident bytes per named region kind, from one sample of the memory map.
#[derive(Debug, Clone, Copy, Default, PartialEq, Eq, Structural)]
pub struct MemSnapshot {
    pub total_anon: u64,
    pub jit_code: u64,
    pub op_dispatcher: u64,
    pub frontend: u64,
    pub cpu_backend: u64,
    pub lookup: u64,
    pub lookup_l1: u64,
    pub thread_states: u64,
    pub block_links: u64,
    pub misc: u64,
    pub jemalloc: u64,
    pub unaccounted: u64,
    pub largest_anon: LargestAnon,
}

/// Marks every region the emulator names: `FEXMem`.
pub open spec fn fex_mem() -> Seq<u8> {
    seq![70u8, 69, 88, 77, 101, 109]
}

/// Marks JIT code: `FEXMemJIT`.
pub open spec fn jit_label() -> Seq<u8> {
    seq![70u8, 69, 88, 77, 101, 109, 74, 73, 84]
}

/// Marks the dispatcher: `FEXMem_OpDispatcher`.
pub open spec fn dispatcher_label() -> Seq<u8> {
    seq![70u8, 69, 88, 77, 101, 109, 95, 79, 112, 68, 105, 115, 112, 97, 116, 99, 104, 101, 114]
}

/// Marks the frontend: `FEXMem_Frontend`.
pub open spec fn frontend_label() -> Seq<u8> {
    seq![70u8, 69, 88, 77, 101, 109, 95, 70, 114, 111, 110, 116, 101, 110, 100]
}

/// Marks the backend: `FEXMem_CPUBackend`.
pub open spec fn backend_label() -> Seq<u8> {
    seq![70u8, 69, 88, 77, 101, 109, 95, 67, 80, 85, 66, 97, 99, 107, 101, 110, 100]
}

/// Marks the first-level lookup cache: `FEXMem_Lookup_L1`.
pub open spec fn lookup_l1_label() -> Seq<u8> {
    seq![70u8, 69, 88, 77, 101, 109, 95, 76, 111, 111, 107, 117, 112, 95, 76, 49]
}

/// Marks the lookup cache: `FEXMem_Lookup`.
pub open spec fn lookup_label() -> Seq<u8> {
    seq![70u8, 69, 88, 77, 101, 109, 95, 76, 111, 111, 107, 117, 112]
}

/// Marks thread state: `FEXMem_ThreadState`.
pub open spec fn thread_state_label() -> Seq<u8> {
    seq![70u8, 69, 88, 77, 101, 109, 95, 84, 104, 114, 101, 97, 100, 83, 116, 97, 116, 101]
}

/// Marks block links: `FEXMem_BlockLinks`.
pub open spec fn block_links_label() -> Seq<u8> {
    seq![70u8, 69, 88, 77, 101, 109, 95, 66, 108, 111, 99, 107, 76, 105, 110, 107, 115]
}

/// Marks miscellaneous emulator memory: `FEXMem_Misc`.
pub open spec fn misc_label() -> Seq<u8> {
    seq![70u8, 69, 88, 77, 101, 109, 95, 77, 105, 115, 99]
}

/// Marks the allocator pool: `JEMalloc`.
pub open spec fn jemalloc_label() -> Seq<u8> {
    seq![74u8, 69, 77, 97, 108, 108, 111, 99]
}

/// Marks the emulator's own allocator: `FEXAllocator`.
pub open spec fn allocator_label() -> Seq<u8> {
    seq![70u8, 69, 88, 65, 108, 108, 111, 99, 97, 116, 111, 114]
}

/// Marks the last line of a mapping's block: `VmFlags`.
pub open spec fn vm_flags_label() -> Seq<u8> {
    seq![86u8, 109, 70, 108, 97, 103, 115]
}

/// Marks a resident-size line: `Rss:`.
pub open spec fn rss_label() -> Seq<u8> {
    seq![82u8, 115, 115, 58]
}

/// Marks the unit of sizes: `kB`.
pub open spec fn kb_label() -> Seq<u8> {
    seq![107u8, 66]
}

/// Which bucket the lines of the current mapping count towards.
#[derive(Debug, Clone, Copy, PartialEq, Eq, Structural)]
pub enum Region {
    JitCode,
    OpDispatcher,
    Frontend,
    CpuBackend,
    Lookup,
    LookupL1,
    ThreadStates,
    BlockLinks,
    Misc,
    JeMalloc,
    Unaccounted,
}

/// The label bytes, held once for a whole parse.
struct Labels {
    fex_mem: Vec<u8>,
    jit_label: Vec<u8>,
    dispatcher_label: Vec<u8>,
    frontend_label: Vec<u8>,
    backend_label: Vec<u8>,
    lookup_l1_label: Vec<u8>,
    lookup_label: Vec<u8>,
    thread_state_label: Vec<u8>,
    block_links_label: Vec<u8>,
    misc_label: Vec<u8>,
    jemalloc_label: Vec<u8>,
    allocator_label: Vec<u8>,
    vm_flags_label: Vec<u8>,
    rss_label: Vec<u8>,
    kb_label: Vec<u8>,
}

impl Labels {
    spec fn wf(&self) -> bool {
        &&& self.fex_mem@ == fex_mem()
        &&& self.jit_label@ == jit_label()
        &&& self.dispatcher_label@ == dispatcher_label()
        &&& self.frontend_label@ == frontend_label()
        &&& self.backend_label@ == backend_label()
        &&& self.lookup_l1_label@ == lookup_l1_label()
        &&& self.lookup_label@ == lookup_label()
        &&& self.thread_state_label@ == thread_state_label()
        &&& self.block_links_label@ == block_links_label()
        &&& self.misc_label@ == misc_label()
        &&& self.jemalloc_label@ == jemalloc_label()
        &&& self.allocator_label@ == allocator_label()
        &&& self.vm_flags_label@ == vm_flags_label()
        &&& self.rss_label@ == rss_label()
        &&& self.kb_label@ == kb_label()
    }

    fn new() -> (l: Self)
        ensures
            l.wf(),
    {
        Labels {
            fex_mem: vec![70u8, 69, 88, 77, 101, 109],
            jit_label: vec![70u8, 69, 88, 77, 101, 109, 74, 73, 84],
            dispatcher_label: vec![70u8, 69, 88, 77, 101, 109, 95, 79, 112, 68, 105, 115, 112, 97, 116, 99, 104, 101, 114],
            frontend_label: vec![70u8, 69, 88, 77, 101, 109, 95, 70, 114, 111, 110, 116, 101, 110, 100],
            backend_label: vec![70u8, 69, 88, 77, 101, 109, 95, 67, 80, 85, 66, 97, 99, 107, 101, 110, 100],
            lookup_l1_label: vec![70u8, 69, 88, 77, 101, 109, 95, 76, 111, 111, 107, 117, 112, 95, 76, 49],
            lookup_label: vec![70u8, 69, 88, 77, 101, 109, 95, 76, 111, 111, 107, 117, 112],
            thread_state_label: vec![70u8, 69, 88, 77, 101, 109, 95, 84, 104, 114, 101, 97, 100, 83, 116, 97, 116, 101],
            block_links_label: vec![70u8, 69, 88, 77, 101, 109, 95, 66, 108, 111, 99, 107, 76, 105, 110, 107, 115],
            misc_label: vec![70u8, 69, 88, 77, 101, 109, 95, 77, 105, 115, 99],
            jemalloc_label: vec![74u8, 69, 77, 97, 108, 108, 111, 99],
            allocator_label: vec![70u8, 69, 88, 65, 108, 108, 111, 99, 97, 116, 111, 114],
            vm_flags_label: vec![86u8, 109, 70, 108, 97, 103, 115],
            rss_label: vec![82u8, 115, 115, 58],
            kb_label: vec![107u8, 66],
        }
    }
}


/// The first position at or after `i` that holds `c`, or the length of `s`.
pub open spec fn find_byte(s: Seq<u8>, c: u8, i: int) -> int
    decreases s.len() - i,
{
    if i >= s.len() {
        s.len() as int
    } else if s[i] == c {
        i
    } else {
        find_byte(s, c, i + 1)
    }
}

/// The `begin-end` hexadecimal address range that opens a mapping's header
/// line: its first whitespace-separated token, split at the first `-`.
pub open spec fn address_range(line: Seq<u8>) -> Option<(u64, u64)> {
    let n = line.len() as int;
    let a0 = skip_spaces(line, 0, n);
    let a1 = token_end(line, a0, n);
    let tok = line.subrange(a0, a1);
    let dash = find_byte(tok, 45, 0);
    if a0 == a1 || dash == tok.len() {
        None
    } else {
        match (
            parse_radix(tok.subrange(0, dash), 16),
            parse_radix(tok.subrange(dash + 1, tok.len() as int), 16),
        ) {
            (Some(b), Some(e)) => Some((b, e)),
            _ => None,
        }
    }
}

/// The resident size in bytes of an `Rss: <n> kB` line (leading whitespace
/// allowed, further tokens ignored), or `None` for any other line and for a
/// size that does not fit in 64 bits.
pub open spec fn rss_value(line: Seq<u8>) -> Option<u64> {
    let n = line.len() as int;
    let t = skip_spaces(line, 0, n);
    let a0 = skip_spaces(line, t + 4, n);
    let a1 = token_end(line, a0, n);
    let c0 = skip_spaces(line, a1, n);
    let c1 = token_end(line, c0, n);
    if !occurs_at(line, rss_label(), t) || a0 == a1 || c0 == c1 || line.subrange(c0, c1)
        != kb_label() {
        None
    } else {
        match parse_radix(line.subrange(a0, a1), 10) {
            Some(v) => if v * 1024 <= u64::MAX {
                Some((v * 1024) as u64)
            } else {
                None
            },
            None => None,
        }
    }
}

/// The bucket of an emulator-named mapping, most specific label first.
pub open spec fn classify(line: Seq<u8>) -> Region {
    if contains_bytes(line, jit_label()) {
        Region::JitCode
    } else if contains_bytes(line, dispatcher_label()) {
        Region::OpDispatcher
    } else if contains_bytes(line, frontend_label()) {
        Region::Frontend
    } else if contains_bytes(line, backend_label()) {
        Region::CpuBackend
    } else if contains_bytes(line, lookup_l1_label()) {
        Region::LookupL1
    } else if contains_bytes(line, lookup_label()) {
        Region::Lookup
    } else if contains_bytes(line, thread_state_label()) {
        Region::ThreadStates
    } else if contains_bytes(line, block_links_label()) {
        Region::BlockLinks
    } else if contains_bytes(line, misc_label()) {
        Region::Misc
    } else {
        Region::Unaccounted
    }
}

/// Where a scan of the map stands between two lines.
#[derive(Debug, Clone, Copy, PartialEq, Eq, Structural)]
pub struct ScanState {
    pub snap: MemSnapshot,
    pub active: Option<Region>,
    pub begin: u64,
    pub end: u64,
}

/// `snap` with `v` resident bytes of region `r` (mapped at `begin..end`) added
/// to its bucket and to the total, both modulo 2^64.
pub open spec fn add_rss(snap: MemSnapshot, r: Region, v: u64, begin: u64, end: u64) -> MemSnapshot {
    let s = MemSnapshot { total_anon: wrap_add(snap.total_anon, v), ..snap };
    let s = match r {
        Region::JitCode => MemSnapshot { jit_code: wrap_add(s.jit_code, v), ..s },
        Region::OpDispatcher => MemSnapshot { op_dispatcher: wrap_add(s.op_dispatcher, v), ..s },
        Region::Frontend => MemSnapshot { frontend: wrap_add(s.frontend, v), ..s },
        Region::CpuBackend => MemSnapshot { cpu_backend: wrap_add(s.cpu_backend, v), ..s },
        Region::Lookup => MemSnapshot { lookup: wrap_add(s.lookup, v), ..s },
        Region::LookupL1 => MemSnapshot { lookup_l1: wrap_add(s.lookup_l1, v), ..s },
        Region::ThreadStates => MemSnapshot { thread_states: wrap_add(s.thread_states, v), ..s },
        Region::BlockLinks => MemSnapshot { block_links: wrap_add(s.block_links, v), ..s },
        Region::Misc => MemSnapshot { misc: wrap_add(s.misc, v), ..s },
        Region::JeMalloc => MemSnapshot { jemalloc: wrap_add(s.jemalloc, v), ..s },
        Region::Unaccounted => MemSnapshot { unaccounted: wrap_add(s.unaccounted, v), ..s },
    };
    if r == Region::JeMalloc && v > s.largest_anon.size {
        MemSnapshot { largest_anon: LargestAnon { begin, end, size: v }, ..s }
    } else {
        s
    }
}

/// The effect of one line of the map on the scan.
pub open spec fn scan_line(st: ScanState, line: Seq<u8>) -> ScanState {
    let (begin, end) = match address_range(line) {
        Some(r) => r,
        None => (st.begin, st.end),
    };
    if contains_bytes(line, fex_mem()) {
        ScanState { active: Some(classify(line)), begin, end, ..st }
    } else if contains_bytes(line, jemalloc_label()) || contains_bytes(line, allocator_label()) {
        ScanState { active: Some(Region::JeMalloc), begin, end, ..st }
    } else if contains_bytes(line, vm_flags_label()) {
        ScanState { active: None, ..st }
    } else {
        match (st.active, rss_value(line)) {
            (Some(r), Some(v)) => ScanState { snap: add_rss(st.snap, r, v, st.begin, st.end), ..st },
            _ => st,
        }
    }
}

/// The line that starts at `ls` and ends at the line feed at `j`, without a
/// carriage return right before that line feed.
pub open spec fn line_before(b: Seq<u8>, ls: int, j: int) -> Seq<u8> {
    if j > ls && b[j - 1] == 13 {
        b.subrange(ls, j - 1)
    } else {
        b.subrange(ls, j)
    }
}

/// The scan of `b` from position `i`, the current line having started at
/// `ls`: lines end at each line feed, and a last line without one counts too.
pub open spec fn scan_bytes(b: Seq<u8>, i: int, ls: int, st: ScanState) -> ScanState
    decreases b.len() - i,
{
    if i >= b.len() {
        if ls < b.len() {
            scan_line(st, b.subrange(ls, b.len() as int))
        } else {
            st
        }
    } else if b[i] == 10 {
        scan_bytes(b, i + 1, i + 1, scan_line(st, line_before(b, ls, i)))
    } else {
        scan_bytes(b, i + 1, ls, st)
    }
}

/// The scan state before the first line.
pub open spec fn initial_scan() -> ScanState {
    ScanState {
        snap: MemSnapshot {
            total_anon: 0,
            jit_code: 0,
            op_dispatcher: 0,
            frontend: 0,
            cpu_backend: 0,
            lookup: 0,
            lookup_l1: 0,
            thread_states: 0,
            block_links: 0,
            misc: 0,
            jemalloc: 0,
            unaccounted: 0,
            largest_anon: LargestAnon { begin: 0, end: 0, size: 0 },
        },
        active: None,
        begin: 0,
        end: 0,
    }
}

/// The snapshot a whole map text describes.
pub open spec fn smaps_snapshot(b: Seq<u8>) -> MemSnapshot {
    scan_bytes(b, 0, 0, initial_scan()).snap
}

proof fn lemma_skip_spaces_bounds(s: Seq<u8>, i: int, hi: int)
    requires
        i <= hi,
    ensures
        i <= skip_spaces(s, i, hi) <= hi,
    decreases hi - i,
{
    if i < hi && space_len(s, i, hi) > 0 {
        lemma_skip_spaces_bounds(s, i + space_len(s, i, hi), hi);
    }
}

proof fn lemma_token_end_bounds(s: Seq<u8>, i: int, hi: int)
    requires
        i <= hi,
    ensures
        i <= token_end(s, i, hi) <= hi,
    decreases hi - i,
{
    if i < hi {
        lemma_token_end_bounds(s, i + 1, hi);
    }
}

fn find_byte_at(s: &[u8], c: u8, i: usize) -> (r: usize)
    requires
        i <= s@.len(),
    ensures
        r == find_byte(s@, c, i as int),
        i <= r <= s@.len(),
{
    let mut j = i;
    while j < s.len() && s[j] != c
        invariant
            i <= j <= s@.len(),
            find_byte(s@, c, i as int) == find_byte(s@, c, j as int),
        decreases s@.len() - j,
    {
        j = j + 1;
    }
    j
}

fn copy_range(s: &[u8], lo: usize, hi: usize) -> (r: Vec<u8>)
    requires
        lo <= hi <= s@.len(),
    ensures
        r@ == s@.subrange(lo as int, hi as int),
{
    let mut r: Vec<u8> = Vec::with_capacity(hi - lo);
    let mut i = lo;
    while i < hi
        invariant
            lo <= i <= hi <= s@.len(),
            r@ == s@.subrange(lo as int, i as int),
        decreases hi - i,
    {
        r.push(s[i]);
        proof {
            assert(r@ =~= s@.subrange(lo as int, i as int + 1));
        }
        i = i + 1;
    }
    r
}

fn address_range_bytes(line: &[u8]) -> (r: Option<(u64, u64)>)
    ensures
        r == address_range(line@),
{
    let n = line.len();
    let a0 = skip_spaces_at(line, 0, n);
    let a1 = token_end_at(line, a0, n);
    let tok = copy_range(line, a0, a1);
    let dash = find_byte_at(tok.as_slice(), 45, 0);
    if a0 == a1 || dash == tok.len() {
        return None;
    }
    let begin = parse_radix_range(tok.as_slice(), 0, dash, 16);
    let end = parse_radix_range(tok.as_slice(), dash + 1, tok.len(), 16);
    proof {
        assert(tok@.subrange(0, tok@.len() as int) =~= tok@);
    }
    match (begin, end) {
        (Some(b), Some(e)) => Some((b, e)),
        _ => None,
    }
}

fn rss_value_bytes(line: &[u8], labels: &Labels) -> (r: Option<u64>)
    requires
        labels.wf(),
    ensures
        r == rss_value(line@),
{
    let n = line.len();
    let t = skip_spaces_at(line, 0, n);
    let rss = &labels.rss_label;
    if n - t < 4 || line[t] != rss[0] || line[t + 1] != rss[1] || line[t + 2] != rss[2]
        || line[t + 3] != rss[3] {
        proof {
            if occurs_at(line@, rss_label(), t as int) {
                assert(line@.subrange(t as int, t as int + 4)[0] == line@[t as int]);
                assert(line@.subrange(t as int, t as int + 4)[1] == line@[t as int + 1]);
                assert(line@.subrange(t as int, t as int + 4)[2] == line@[t as int + 2]);
                assert(line@.subrange(t as int, t as int + 4)[3] == line@[t as int + 3]);
            }
        }
        return None;
    }
    proof {
        assert(line@.subrange(t as int, t as int + 4) =~= rss_label());
    }
    let a0 = skip_spaces_at(line, t + 4, n);
    let a1 = token_end_at(line, a0, n);
    let c0 = skip_spaces_at(line, a1, n);
    let c1 = token_end_at(line, c0, n);
    if a0 == a1 || c0 == c1 {
        return None;
    }
    let kb = &labels.kb_label;
    if c1 - c0 != 2 || line[c0] != kb[0] || line[c0 + 1] != kb[1] {
        proof {
            if line@.subrange(c0 as int, c1 as int) == kb_label() {
                assert(kb_label().len() == 2);
                assert(c1 - c0 == 2);
                assert(line@.subrange(c0 as int, c1 as int)[0] == line@[c0 as int]);
                assert(line@.subrange(c0 as int, c1 as int)[1] == line@[c0 as int + 1]);
            }
        }
        return None;
    }
    proof {
        assert(line@.subrange(c0 as int, c1 as int) =~= kb_label());
    }
    match parse_radix_range(line, a0, a1, 10) {
        Some(v) => if v <= u64::MAX / 1024 {
            Some(v * 1024)
        } else {
            None
        },
        None => None,
    }
}

fn classify_bytes(line: &[u8], labels: &Labels) -> (r: Region)
    requires
        labels.wf(),
    ensures
        r == classify(line@),
{
    let n = line.len();
    proof {
        assert(line@.subrange(0, n as int) =~= line@);
    }
    if contains_at(line, 0, n, &labels.jit_label) {
        Region::JitCode
    } else if contains_at(line, 0, n, &labels.dispatcher_label) {
        Region::OpDispatcher
    } else if contains_at(line, 0, n, &labels.frontend_label) {
        Region::Frontend
    } else if contains_at(line, 0, n, &labels.backend_label) {
        Region::CpuBackend
    } else if contains_at(line, 0, n, &labels.lookup_l1_label) {
        Region::LookupL1
    } else if contains_at(line, 0, n, &labels.lookup_label) {
        Region::Lookup
    } else if contains_at(line, 0, n, &labels.thread_state_label) {
        Region::ThreadStates
    } else if contains_at(line, 0, n, &labels.block_links_label) {
        Region::BlockLinks
    } else if contains_at(line, 0, n, &labels.misc_label) {
        Region::Misc
    } else {
        Region::Unaccounted
    }
}

fn add_rss_exec(snap: &mut MemSnapshot, r: Region, v: u64, begin: u64, end: u64)
    ensures
        *final(snap) == add_rss(*old(snap), r, v, begin, end),
{
    snap.total_anon = snap.total_anon.wrapping_add(v);
    match r {
        Region::JitCode => snap.jit_code = snap.jit_code.wrapping_add(v),
        Region::OpDispatcher => snap.op_dispatcher = snap.op_dispatcher.wrapping_add(v),
        Region::Frontend => snap.frontend = snap.frontend.wrapping_add(v),
        Region::CpuBackend => snap.cpu_backend = snap.cpu_backend.wrapping_add(v),
        Region::Lookup => snap.lookup = snap.lookup.wrapping_add(v),
        Region::LookupL1 => snap.lookup_l1 = snap.lookup_l1.wrapping_add(v),
        Region::ThreadStates => snap.thread_states = snap.thread_states.wrapping_add(v),
        Region::BlockLinks => snap.block_links = snap.block_links.wrapping_add(v),
        Region::Misc => snap.misc = snap.misc.wrapping_add(v),
        Region::JeMalloc => snap.jemalloc = snap.jemalloc.wrapping_add(v),
        Region::Unaccounted => snap.unaccounted = snap.unaccounted.wrapping_add(v),
    }
    if r == Region::JeMalloc && v > snap.largest_anon.size {
        snap.largest_anon = LargestAnon { begin, end, size: v };
    }
}

fn scan_line_exec(st: ScanState, line: &[u8], labels: &Labels) -> (r: ScanState)
    requires
        labels.wf(),
    ensures
        r == scan_line(st, line@),
{
    let n = line.len();
    proof {
        assert(line@.subrange(0, n as int) =~= line@);
    }
    let (begin, end) = match address_range_bytes(line) {
        Some(r) => r,
        None => (st.begin, st.end),
    };
    if contains_at(line, 0, n, &labels.fex_mem) {
        ScanState { active: Some(classify_bytes(line, labels)), begin, end, ..st }
    } else if contains_at(line, 0, n, &labels.jemalloc_label) || contains_at(
        line,
        0,
        n,
        &labels.allocator_label,
    ) {
        ScanState { active: Some(Region::JeMalloc), begin, end, ..st }
    } else if contains_at(line, 0, n, &labels.vm_flags_label) {
        ScanState { active: None, ..st }
    } else {
        match (st.active, rss_value_bytes(line, labels)) {
            (Some(r), Some(v)) => {
                let mut snap = st.snap;
                add_rss_exec(&mut snap, r, v, st.begin, st.end);
                ScanState { snap, ..st }
            },
            _ => st,
        }
    }
}


proof fn lemma_find_byte(s: Seq<u8>, c: u8, i: int)
    requires
        0 <= i <= s.len(),
    ensures
        i <= find_byte(s, c, i) <= s.len(),
        forall|p: int| i <= p < find_byte(s, c, i) ==> s[p] != c,
        find_byte(s, c, i) < s.len() ==> s[find_byte(s, c, i)] == c,
    decreases s.len() - i,
{
    if i < s.len() && s[i] != c {
        lemma_find_byte(s, c, i + 1);
    }
}

proof fn lemma_scan_within_line(b: Seq<u8>, k: int, j: int, ls: int, st: ScanState)
    requires
        0 <= k <= j <= b.len(),
        forall|p: int| k <= p < j ==> b[p] != 10,
    ensures
        scan_bytes(b, k, ls, st) == scan_bytes(b, j, ls, st),
    decreases j - k,
{
    if k < j {
        lemma_scan_within_line(b, k + 1, j, ls, st);
    }
}

/// Classifies every mapping of a resident-memory map text and sums the
/// resident sizes of each bucket.
pub fn parse_smaps(content: &str) -> (snap: MemSnapshot)
    ensures
        snap == smaps_snapshot(content.spec_bytes()),
{
    let b = content.as_bytes();
    let labels = Labels::new();
    let mut st = ScanState {
        snap: MemSnapshot {
            total_anon: 0,
            jit_code: 0,
            op_dispatcher: 0,
            frontend: 0,
            cpu_backend: 0,
            lookup: 0,
            lookup_l1: 0,
            thread_states: 0,
            block_links: 0,
            misc: 0,
            jemalloc: 0,
            unaccounted: 0,
            largest_anon: LargestAnon { begin: 0, end: 0, size: 0 },
        },
        active: None,
        begin: 0,
        end: 0,
    };
    let n = b.len();
    let mut ls: usize = 0;
    while ls < n
        invariant
            n == b@.len(),
            ls <= n,
            labels.wf(),
            scan_bytes(b@, 0, 0, initial_scan()) == scan_bytes(b@, ls as int, ls as int, st),
        decreases n - ls,
    {
        let j = find_byte_at(b, 10, ls);
        proof {
            lemma_find_byte(b@, 10, ls as int);
            lemma_scan_within_line(b@, ls as int, j as int, ls as int, st);
        }
        let le = if j < n && j > ls && b[j - 1] == 13 {
            j - 1
        } else {
            j
        };
        let line = copy_range(b, ls, le);
        st = scan_line_exec(st, line.as_slice(), &labels);
        if j < n {
            ls = j + 1;
        } else {
            ls = n;
        }
    }
    st.snap
}

/// The resident size in bytes of an `Rss:` line, as `rss_value` says.
pub fn parse_rss_line(line: &str) -> (r: Option<u64>)
    ensures
        r == rss_value(line.spec_bytes()),
{
    let labels = Labels::new();
    rss_value_bytes(line.as_bytes(), &labels)
}

/// The address range that opens a mapping's header line, as
/// `address_range` says.
pub fn parse_address_range(line: &str) -> (r: Option<(u64, u64)>)
    ensures
        r == address_range(line.spec_bytes()),
{
    address_range_bytes(line.as_bytes())
}

} // verus!
