use felix::smaps::{parse_address_range, parse_rss_line, parse_smaps};

#[test]
fn parse_rss_line_valid() {
    assert_eq!(parse_rss_line("Rss:                 560 kB"), Some(573_440));
}

#[test]
fn parse_rss_line_zero() {
    assert_eq!(parse_rss_line("Rss:                   0 kB"), Some(0));
}

#[test]
fn parse_rss_line_not_rss() {
    assert_eq!(parse_rss_line("Pss:                 560 kB"), None);
}

#[test]
fn parse_address_range_valid() {
    let line = "359519000-359918000 ---p 00000000 00:00 0                                [anon:FEXMem]";
    assert_eq!(
        parse_address_range(line),
        Some((0x3_5951_9000, 0x3_5991_8000))
    );
}

#[test]
fn parse_smaps_basic() {
    let content = "\
359519000-359918000 ---p 00000000 00:00 0                                [anon:FEXMemJIT]
Size:               4096 kB
Rss:                 560 kB
Pss:                 560 kB
VmFlags: rd
400000000-400100000 ---p 00000000 00:00 0                                [anon:JEMalloc]
Size:               1024 kB
Rss:                 128 kB
Pss:                 128 kB
VmFlags: rd wr
";
    let snap = parse_smaps(content);
    assert_eq!(snap.jit_code, 560 * 1024);
    assert_eq!(snap.jemalloc, 128 * 1024);
    assert_eq!(snap.total_anon, (560 + 128) * 1024);
    assert_eq!(snap.largest_anon.size, 128 * 1024);
}

#[test]
fn rss_line_edge_cases() {
    assert_eq!(parse_rss_line("  Rss: 4 kB extra"), Some(4096));
    assert_eq!(parse_rss_line("Rss:7 kB"), Some(7168));
    assert_eq!(parse_rss_line("Rss: +3 kB"), Some(3072));
    assert_eq!(parse_rss_line("Rss: 4 MB"), None);
    assert_eq!(parse_rss_line("Rss: 4"), None);
    assert_eq!(parse_rss_line("Rss:"), None);
    assert_eq!(parse_rss_line("Rss: x kB"), None);
    assert_eq!(parse_rss_line("Rss: 18014398509481984 kB"), None);
    assert_eq!(parse_rss_line(""), None);
}

#[test]
fn address_range_edge_cases() {
    assert_eq!(parse_address_range("  aB-Cd rest"), Some((0xab, 0xcd)));
    assert_eq!(parse_address_range("1000 2000"), None);
    assert_eq!(parse_address_range("-1000"), None);
    assert_eq!(parse_address_range("10-zz"), None);
    assert_eq!(parse_address_range(""), None);
}

#[test]
fn every_bucket_is_classified() {
    let content = "\
1000-2000 r-xp 0 0 0 [anon:FEXMem_OpDispatcher]\n\
Rss: 1 kB\n\
VmFlags: rd\n\
2000-3000 r-xp 0 0 0 [anon:FEXMem_Frontend]\n\
Rss: 2 kB\n\
3000-4000 r-xp 0 0 0 [anon:FEXMem_CPUBackend]\n\
Rss: 3 kB\n\
4000-5000 r-xp 0 0 0 [anon:FEXMem_Lookup_L1]\n\
Rss: 4 kB\n\
5000-6000 r-xp 0 0 0 [anon:FEXMem_Lookup]\n\
Rss: 5 kB\n\
6000-7000 r-xp 0 0 0 [anon:FEXMem_ThreadState]\n\
Rss: 6 kB\n\
7000-8000 r-xp 0 0 0 [anon:FEXMem_BlockLinks]\n\
Rss: 7 kB\n\
8000-9000 r-xp 0 0 0 [anon:FEXMem_Misc]\n\
Rss: 8 kB\n\
9000-a000 r-xp 0 0 0 [anon:FEXMem_Something]\n\
Rss: 9 kB\n\
a000-b000 r-xp 0 0 0 [anon:FEXAllocator]\n\
Rss: 10 kB\n\
b000-c000 r-xp 0 0 0 [anon:JEMalloc]\n\
Rss: 30 kB\n\
VmFlags: rd\n\
Rss: 99 kB\n";
    let snap = parse_smaps(content);
    assert_eq!(snap.op_dispatcher, 1024);
    assert_eq!(snap.frontend, 2 * 1024);
    assert_eq!(snap.cpu_backend, 3 * 1024);
    assert_eq!(snap.lookup_l1, 4 * 1024);
    assert_eq!(snap.lookup, 5 * 1024);
    assert_eq!(snap.thread_states, 6 * 1024);
    assert_eq!(snap.block_links, 7 * 1024);
    assert_eq!(snap.misc, 8 * 1024);
    assert_eq!(snap.unaccounted, 9 * 1024);
    assert_eq!(snap.jemalloc, 40 * 1024);
    assert_eq!(snap.jit_code, 0);
    assert_eq!(snap.total_anon, 85 * 1024);
    assert_eq!(snap.largest_anon.size, 30 * 1024);
    assert_eq!(snap.largest_anon.begin, 0xb000);
    assert_eq!(snap.largest_anon.end, 0xc000);
}

#[test]
fn crlf_lines_and_untagged_regions() {
    let content = "1000-2000 r-xp 0 0 0 [anon:FEXMemJIT]\r\nRss: 3 kB\r\n5000-6000 r-xp 0 0 0 /usr/lib/libc.so\r\nVmFlags: rd\r\nRss: 8 kB";
    let snap = parse_smaps(content);
    assert_eq!(snap.jit_code, 3 * 1024);
    assert_eq!(snap.total_anon, 3 * 1024);
}

#[test]
fn empty_map_gives_empty_snapshot() {
    let snap = parse_smaps("");
    assert_eq!(snap.total_anon, 0);
    assert_eq!(snap.largest_anon.size, 0);
}

#[test]
fn unicode_whitespace_separates_tokens() {
    assert_eq!(parse_rss_line("\u{a0}Rss:\u{2003}1\u{3000}kB"), Some(1024));
    assert_eq!(parse_rss_line("\u{85}\u{1680}Rss: 2 kB"), Some(2048));
    assert_eq!(parse_rss_line("Rss: 2\u{200b}kB"), None);
    assert_eq!(parse_address_range("\u{2028}10-20\u{a0}rest"), Some((0x10, 0x20)));
}
