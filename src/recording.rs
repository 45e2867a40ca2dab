//! The recording format: a compressed stream that opens with the magic bytes
//! and the format version, then holds the session metadata and each frame as
//! length-prefixed records, optionally closed by an end marker.
use vstd::prelude::*;

use crate::accumulator::{ComputedFrame, CumulativeCountStats, HistogramEntry, ThreadLoad};
use crate::smaps::MemSnapshot;
use crate::thread_stats::ThreadDelta;
use crate::types::SessionMetadata;

verus! {

/// Version of the recording format written and accepted.
pub const FORMAT_VERSION: u8 = 2;

/// Why a recording could not be loaded.
#[derive(Debug, Clone, Copy, PartialEq, Eq, Structural)]
pub enum RecordingError {
    /// The compressed stream could not be decompressed.
    Decompress,
    /// The header record is missing, cut short, or too short to hold the
    /// magic and the version.
    TruncatedHeader,
    /// The header does not start with the format's magic bytes.
    BadMagic,
    /// The header names a format version other than `FORMAT_VERSION`.
    UnsupportedVersion(u8),
    /// A frame's length prefix promises more bytes than the stream holds.
    TruncatedFrame,
}

/// The magic bytes that open every header: `FLXR`.
pub open spec fn magic() -> Seq<u8> {
    seq![70u8, 76, 88, 82]
}

/// The bytes that may close a stream in place of a length prefix: `FEOF`.
pub open spec fn eof_marker() -> Seq<u8> {
    seq![70u8, 69, 79, 70]
}

/// `n` as four little-endian bytes.
pub open spec fn le32(n: u32) -> Seq<u8> {
    seq![(n & 0xff) as u8, ((n >> 8) & 0xff) as u8, ((n >> 16) & 0xff) as u8, (n >> 24) as u8]
}

/// The little-endian number in `b[i..i + 4]`.
pub open spec fn u32_at(b: Seq<u8>, i: int) -> u32 {
    le32_value(b[i], b[i + 1], b[i + 2], b[i + 3])
}

/// The number four little-endian bytes spell.
pub open spec fn le32_value(b0: u8, b1: u8, b2: u8, b3: u8) -> u32 {
    (b0 as u32) | ((b1 as u32) << 8) | ((b2 as u32) << 16) | ((b3 as u32) << 24)
}

/// One record: the payload's length as four little-endian bytes, then the payload.
pub open spec fn record(payload: Seq<u8>) -> Seq<u8> {
    le32(payload.len() as u32) + payload
}

/// The header: magic, version, then the serialized metadata as a record.
pub open spec fn header_record(metadata: Seq<u8>) -> Seq<u8> {
    magic() + seq![FORMAT_VERSION] + record(metadata)
}

/// The records of the given serialized frames, in order.
pub open spec fn frame_records(frames: Seq<Seq<u8>>) -> Seq<u8>
    decreases frames.len(),
{
    if frames.len() == 0 {
        Seq::empty()
    } else {
        record(frames[0]) + frame_records(frames.drop_first())
    }
}

/// The decompressed bytes of a recording of `frames`, with or without the end marker.
pub open spec fn recording_bytes(metadata: Seq<u8>, frames: Seq<Seq<u8>>, finished: bool) -> Seq<u8> {
    header_record(metadata) + frame_records(frames) + (if finished {
        eof_marker()
    } else {
        Seq::empty()
    })
}

/// The frame payloads from position `pos` on: reading stops cleanly at the
/// end marker or where fewer than four bytes remain, and fails where a
/// length prefix runs past the end.
pub open spec fn frames_from(b: Seq<u8>, pos: int) -> Result<Seq<Seq<u8>>, RecordingError>
    decreases b.len() - pos,
{
    if pos < 0 || b.len() - pos < 4 {
        Ok(Seq::empty())
    } else if b.subrange(pos, pos + 4) == eof_marker() {
        Ok(Seq::empty())
    } else {
        let len = u32_at(b, pos) as int;
        if b.len() - pos - 4 < len {
            Err(RecordingError::TruncatedFrame)
        } else {
            match frames_from(b, pos + 4 + len) {
                Ok(rest) => Ok(seq![b.subrange(pos + 4, pos + 4 + len)] + rest),
                Err(e) => Err(e),
            }
        }
    }
}

/// The serialized metadata and the frame payloads of a decompressed stream.
pub open spec fn parse_stream(b: Seq<u8>) -> Result<(Seq<u8>, Seq<Seq<u8>>), RecordingError> {
    if b.len() < 4 {
        Err(RecordingError::TruncatedHeader)
    } else if b.subrange(0, 4) != magic() {
        Err(RecordingError::BadMagic)
    } else if b.len() < 5 {
        Err(RecordingError::TruncatedHeader)
    } else if b[4] != FORMAT_VERSION {
        Err(RecordingError::UnsupportedVersion(b[4]))
    } else if b.len() < 9 || b.len() - 9 < u32_at(b, 5) {
        Err(RecordingError::TruncatedHeader)
    } else {
        let ml = u32_at(b, 5) as int;
        match frames_from(b, 9 + ml) {
            Ok(fs) => Ok((b.subrange(9, 9 + ml), fs)),
            Err(e) => Err(e),
        }
    }
}

proof fn lemma_le32_round_trip(n: u32)
    ensures
        le32_value(le32(n)[0], le32(n)[1], le32(n)[2], le32(n)[3]) == n,
{
    let b0 = (n & 0xff) as u8;
    let b1 = ((n >> 8) & 0xff) as u8;
    let b2 = ((n >> 16) & 0xff) as u8;
    let b3 = (n >> 24) as u8;
    assert(((b0 as u32) | ((b1 as u32) << 8) | ((b2 as u32) << 16) | ((b3 as u32) << 24)) == n)
        by (bit_vector)
        requires
            b0 == (n & 0xff) as u8,
            b1 == ((n >> 8) & 0xff) as u8,
            b2 == ((n >> 16) & 0xff) as u8,
            b3 == (n >> 24) as u8,
    ;
}

/// Computes `u32_at`.
fn read_u32(b: &[u8], i: usize) -> (r: u32)
    requires
        i + 4 <= b@.len(),
    ensures
        r == u32_at(b@, i as int),
{
    (b[i] as u32) | ((b[i + 1] as u32) << 8) | ((b[i + 2] as u32) << 16) | ((b[i + 3] as u32) << 24)
}

/// Appends `n` as four little-endian bytes.
fn push_le32(out: &mut Vec<u8>, n: u32)
    ensures
        final(out)@ == old(out)@ + le32(n),
{
    out.push((n & 0xff) as u8);
    out.push(((n >> 8) & 0xff) as u8);
    out.push(((n >> 16) & 0xff) as u8);
    out.push((n >> 24) as u8);
    proof {
        assert(final(out)@ =~= old(out)@ + le32(n));
    }
}

/// Appends all of `src`.
fn push_all(out: &mut Vec<u8>, src: &[u8])
    ensures
        final(out)@ == old(out)@ + src@,
{
    let mut i: usize = 0;
    while i < src.len()
        invariant
            i <= src@.len(),
            out@ == old(out)@ + src@.subrange(0, i as int),
        decreases src@.len() - i,
    {
        out.push(src[i]);
        proof {
            assert(out@ =~= old(out)@ + src@.subrange(0, i as int + 1));
        }
        i = i + 1;
    }
    proof {
        assert(src@.subrange(0, src@.len() as int) =~= src@);
    }
}

/// The record of one serialized frame.
pub fn encode_frame(payload: &[u8]) -> (r: Vec<u8>)
    requires
        payload@.len() <= u32::MAX,
    ensures
        r@ == record(payload@),
{
    let mut out: Vec<u8> = Vec::new();
    push_le32(&mut out, payload.len() as u32);
    push_all(&mut out, payload);
    out
}

/// The header for the given serialized session metadata.
pub fn encode_header(metadata: &[u8]) -> (r: Vec<u8>)
    requires
        metadata@.len() <= u32::MAX,
    ensures
        r@ == header_record(metadata@),
{
    let mut out: Vec<u8> = vec![70u8, 76, 88, 82, FORMAT_VERSION];
    push_le32(&mut out, metadata.len() as u32);
    push_all(&mut out, metadata);
    proof {
        assert(out@ =~= header_record(metadata@));
    }
    out
}

/// The end marker that closes a finished recording.
pub fn end_marker() -> (r: Vec<u8>)
    ensures
        r@ == eof_marker(),
{
    vec![70u8, 69, 79, 70]
}


/// The serialized metadata and frame payloads of a recording.
pub struct RawRecording {
    pub metadata: Vec<u8>,
    pub frames: Vec<Vec<u8>>,
}

impl RawRecording {
    /// The payloads hold exactly `metadata` and `frames`.
    pub open spec fn holds(&self, metadata: Seq<u8>, frames: Seq<Seq<u8>>) -> bool {
        &&& self.metadata@ == metadata
        &&& self.frames@.len() == frames.len()
        &&& forall|i: int| 0 <= i < frames.len() ==> #[trigger] self.frames@[i]@ == frames[i]
    }
}

fn copy_range(b: &[u8], lo: usize, hi: usize) -> (r: Vec<u8>)
    requires
        lo <= hi <= b@.len(),
    ensures
        r@ == b@.subrange(lo as int, hi as int),
{
    let mut r: Vec<u8> = Vec::with_capacity(hi - lo);
    let mut i = lo;
    while i < hi
        invariant
            lo <= i <= hi <= b@.len(),
            r@ == b@.subrange(lo as int, i as int),
        decreases hi - i,
    {
        r.push(b[i]);
        proof {
            assert(r@ =~= b@.subrange(lo as int, i as int + 1));
        }
        i = i + 1;
    }
    r
}

/// Splits a decompressed recording into its serialized metadata and frame
/// payloads, checking the magic, the version and every length prefix.
pub fn parse_stream_bytes(b: &[u8]) -> (r: Result<RawRecording, RecordingError>)
    ensures
        match (r, parse_stream(b@)) {
            (Ok(raw), Ok((m, fs))) => raw.holds(m, fs),
            (Err(e), Err(e2)) => e == e2,
            _ => false,
        },
{
    let n = b.len();
    if n < 4 {
        return Err(RecordingError::TruncatedHeader);
    }
    if b[0] != 70 || b[1] != 76 || b[2] != 88 || b[3] != 82 {
        proof {
            if b@.subrange(0, 4) == magic() {
                assert(b@.subrange(0, 4)[0] == b@[0]);
                assert(b@.subrange(0, 4)[1] == b@[1]);
                assert(b@.subrange(0, 4)[2] == b@[2]);
                assert(b@.subrange(0, 4)[3] == b@[3]);
            }
        }
        return Err(RecordingError::BadMagic);
    }
    proof {
        assert(b@.subrange(0, 4) =~= magic());
    }
    if n < 5 {
        return Err(RecordingError::TruncatedHeader);
    }
    if b[4] != FORMAT_VERSION {
        return Err(RecordingError::UnsupportedVersion(b[4]));
    }
    if n < 9 {
        return Err(RecordingError::TruncatedHeader);
    }
    let ml = read_u32(b, 5) as usize;
    if n - 9 < ml {
        return Err(RecordingError::TruncatedHeader);
    }
    let metadata = copy_range(b, 9, 9 + ml);
    let start = 9 + ml;
    proof {
        assert(parse_stream(b@) == match frames_from(b@, start as int) {
            Ok(fs) => Ok((metadata@, fs)),
            Err(e) => Err(e),
        });
    }
    let mut frames: Vec<Vec<u8>> = Vec::new();
    let ghost mut got: Seq<Seq<u8>> = Seq::empty();
    let mut pos = start;
    loop
        invariant
            n == b@.len(),
            start <= pos <= n,
            parse_stream(b@) == match frames_from(b@, start as int) {
                Ok(fs) => Ok((metadata@, fs)),
                Err(e) => Err::<(Seq<u8>, Seq<Seq<u8>>), RecordingError>(e),
            },
            frames@.len() == got.len(),
            forall|i: int| 0 <= i < got.len() ==> #[trigger] frames@[i]@ == got[i],
            frames_from(b@, start as int) == match frames_from(b@, pos as int) {
                Ok(rest) => Ok(got + rest),
                Err(e) => Err(e),
            },
        ensures
            frames@.len() == got.len(),
            forall|i: int| 0 <= i < got.len() ==> #[trigger] frames@[i]@ == got[i],
            frames_from(b@, start as int) == Ok::<Seq<Seq<u8>>, RecordingError>(got),
            parse_stream(b@) == Ok::<(Seq<u8>, Seq<Seq<u8>>), RecordingError>((metadata@, got)),
        decreases n - pos,
    {
        if n - pos < 4 {
            proof {
                assert(got + Seq::<Seq<u8>>::empty() =~= got);
            }
            break;
        }
        if b[pos] == 70 && b[pos + 1] == 69 && b[pos + 2] == 79 && b[pos + 3] == 70 {
            proof {
                assert(b@.subrange(pos as int, pos as int + 4) =~= eof_marker());
                assert(got + Seq::<Seq<u8>>::empty() =~= got);
            }
            break;
        }
        proof {
            if b@.subrange(pos as int, pos as int + 4) == eof_marker() {
                assert(b@.subrange(pos as int, pos as int + 4)[0] == b@[pos as int]);
                assert(b@.subrange(pos as int, pos as int + 4)[1] == b@[pos as int + 1]);
                assert(b@.subrange(pos as int, pos as int + 4)[2] == b@[pos as int + 2]);
                assert(b@.subrange(pos as int, pos as int + 4)[3] == b@[pos as int + 3]);
            }
        }
        let len = read_u32(b, pos) as usize;
        if n - pos - 4 < len {
            return Err(RecordingError::TruncatedFrame);
        }
        let frame = copy_range(b, pos + 4, pos + 4 + len);
        proof {
            let f = b@.subrange(pos as int + 4, pos as int + 4 + len as int);
            match frames_from(b@, pos as int + 4 + len as int) {
                Ok(rest) => {
                    assert(got + (seq![f] + rest) =~= got.push(f) + rest);
                },
                Err(e) => {},
            }
            got = got.push(f);
        }
        frames.push(frame);
        pos = pos + 4 + len;
    }
    Ok(RawRecording { metadata, frames })
}


/// The length a frame record would need for its prefix to read as the end marker.
pub open spec fn eof_length() -> u32 {
    le32_value(70, 69, 79, 70)
}

proof fn lemma_frames_read_back(p: Seq<u8>, frames: Seq<Seq<u8>>, tail: Seq<u8>)
    requires
        tail == eof_marker() || tail.len() == 0,
        forall|i: int|
            0 <= i < frames.len() ==> #[trigger] frames[i].len() <= u32::MAX && frames[i].len()
                != eof_length(),
    ensures
        frames_from(p + frame_records(frames) + tail, p.len() as int) == Ok::<
            Seq<Seq<u8>>,
            RecordingError,
        >(frames),
    decreases frames.len(),
{
    let b = p + frame_records(frames) + tail;
    let pos = p.len() as int;
    if frames.len() == 0 {
        assert(frame_records(frames) == Seq::<u8>::empty());
        assert(frames =~= Seq::<Seq<u8>>::empty());
        assert(b =~= p + tail);
        if tail.len() != 0 {
            assert(b.subrange(pos, pos + 4) =~= eof_marker());
        }
    } else {
        let f = frames[0];
        let rest = frames.drop_first();
        let len = f.len() as u32;
        assert(frames[0].len() <= u32::MAX && frames[0].len() != eof_length());
        let p2 = p + record(f);
        assert(record(f).len() == 4 + f.len());
        assert(p2.len() == pos + 4 + f.len());
        assert(frame_records(frames) == record(f) + frame_records(rest));
        assert(b =~= p2 + frame_records(rest) + tail);
        assert forall|i: int| 0 <= i < rest.len() implies #[trigger] rest[i].len() <= u32::MAX
            && rest[i].len() != eof_length() by {
            assert(rest[i] == frames[i + 1]);
        }
        lemma_frames_read_back(p2, rest, tail);
        assert(b.subrange(pos, pos + 4) =~= le32(len));
        lemma_le32_round_trip(len);
        assert(u32_at(b, pos) == len);
        if b.subrange(pos, pos + 4) == eof_marker() {
            assert(le32(len)[0] == 70u8 && le32(len)[1] == 69u8 && le32(len)[2] == 79u8 && le32(len)[3] == 70u8);
            assert(false);
        }
        assert(b.subrange(pos + 4, pos + 4 + f.len()) =~= f);
        assert(b.len() - pos - 4 >= len);
        assert(seq![f] + rest =~= frames);
        assert(frames_from(b, pos) == Ok::<Seq<Seq<u8>>, RecordingError>(seq![f] + rest));
    }
}

proof fn lemma_header_read_back(metadata: Seq<u8>, rest: Seq<u8>)
    requires
        metadata.len() <= u32::MAX,
    ensures
        ({
            let b = header_record(metadata) + rest;
            let ml = metadata.len() as int;
            &&& b.len() >= 9 + ml
            &&& b.subrange(0, 4) == magic()
            &&& b[4] == FORMAT_VERSION
            &&& u32_at(b, 5) == ml
            &&& b.subrange(9, 9 + ml) == metadata
            &&& header_record(metadata).len() == 9 + ml
        }),
{
    let ml = metadata.len() as u32;
    let b = header_record(metadata) + rest;
    lemma_le32_round_trip(ml);
    assert(b =~= magic() + seq![FORMAT_VERSION] + le32(ml) + (metadata + rest));
    assert(b[5] == le32(ml)[0] && b[6] == le32(ml)[1] && b[7] == le32(ml)[2] && b[8] == le32(ml)[3]);
    assert(b.subrange(0, 4) =~= magic());
    assert(b.subrange(9, 9 + ml as int) =~= metadata);
}

/// Writing a header and any number of frames, with or without the end
/// marker, and reading the stream back gives the same metadata and the same
/// frames, in order. A frame must be shorter than 4 GiB and must not be
/// exactly as long as the end marker read as a length prefix.
pub proof fn lemma_round_trip(metadata: Seq<u8>, frames: Seq<Seq<u8>>, finished: bool)
    requires
        metadata.len() <= u32::MAX,
        forall|i: int|
            0 <= i < frames.len() ==> #[trigger] frames[i].len() <= u32::MAX && frames[i].len()
                != eof_length(),
    ensures
        parse_stream(recording_bytes(metadata, frames, finished)) == Ok::<
            (Seq<u8>, Seq<Seq<u8>>),
            RecordingError,
        >((metadata, frames)),
{
    let tail = if finished {
        eof_marker()
    } else {
        Seq::<u8>::empty()
    };
    let h = header_record(metadata);
    let b = recording_bytes(metadata, frames, finished);
    assert(b =~= h + (frame_records(frames) + tail));
    assert(b =~= h + frame_records(frames) + tail);
    lemma_header_read_back(metadata, frame_records(frames) + tail);
    lemma_frames_read_back(h, frames, tail);
}


/// What a recording opens with: the magic bytes, the format version and the
/// session it was taken from.
#[derive(Debug, Clone)]
pub struct FileHeader {
    pub magic: [u8; 4],
    pub format_version: u8,
    pub metadata: SessionMetadata,
}

impl FileHeader {
    /// The header this crate writes for a session.
    pub fn for_session(metadata: SessionMetadata) -> (h: Self)
        ensures
            h.magic@ == magic(),
            h.format_version == FORMAT_VERSION,
            h.metadata == metadata,
    {
        let h = FileHeader { magic: [70u8, 76, 88, 82], format_version: FORMAT_VERSION, metadata };
        proof {
            assert(h.magic@ =~= magic());
        }
        h
    }

    /// Whether this crate can read a recording with this header.
    pub fn is_supported(&self) -> (r: bool)
        ensures
            r == (self.magic@ == magic() && self.format_version == FORMAT_VERSION),
    {
        let ok = self.magic[0] == 70 && self.magic[1] == 76 && self.magic[2] == 88
            && self.magic[3] == 82;
        proof {
            if self.magic@ == magic() {
                assert(self.magic@[0] == 70u8 && self.magic@[3] == 82u8);
            }
            if ok {
                assert(self.magic@ =~= magic());
            }
        }
        ok && self.format_version == FORMAT_VERSION
    }
}

/// One recorded sample: the derived frame and the deltas it came from.
#[derive(Debug, Clone)]
pub struct Frame {
    pub computed: ComputedFrame,
    pub per_thread_deltas: Vec<ThreadDelta>,
}

/// A frame as an older format stored it, before cumulative counters.
#[derive(Debug, Clone)]
pub struct LegacyComputedFrame {
    pub timestamp_ns: u64,
    pub sample_period_ns: u64,
    pub threads_sampled: usize,
    pub total_jit_time: u64,
    pub total_signal_time: u64,
    pub total_sigbus_count: u64,
    pub total_smc_count: u64,
    pub total_float_fallback_count: u64,
    pub total_cache_miss_count: u64,
    pub total_cache_read_lock_time: u64,
    pub total_cache_write_lock_time: u64,
    pub total_jit_count: u64,
    pub total_jit_invocations: u64,
    pub fex_load_ppm: u64,
    pub thread_loads: Vec<ThreadLoad>,
    pub mem: MemSnapshot,
    pub histogram_entry: HistogramEntry,
}

/// A recorded sample in the older format.
#[derive(Debug, Clone)]
pub struct LegacyFrame {
    pub computed: LegacyComputedFrame,
    pub per_thread_deltas: Vec<ThreadDelta>,
}

/// The current-format frame for an older one: every field carried over,
/// cumulative counters at zero.
pub open spec fn upgraded(legacy: LegacyFrame) -> Frame {
    let lc = legacy.computed;
    Frame {
        computed: ComputedFrame {
            timestamp_ns: lc.timestamp_ns,
            sample_period_ns: lc.sample_period_ns,
            threads_sampled: lc.threads_sampled,
            total_jit_time: lc.total_jit_time,
            total_signal_time: lc.total_signal_time,
            total_sigbus_count: lc.total_sigbus_count,
            total_smc_count: lc.total_smc_count,
            total_float_fallback_count: lc.total_float_fallback_count,
            total_cache_miss_count: lc.total_cache_miss_count,
            total_cache_read_lock_time: lc.total_cache_read_lock_time,
            total_cache_write_lock_time: lc.total_cache_write_lock_time,
            total_jit_count: lc.total_jit_count,
            total_jit_invocations: lc.total_jit_invocations,
            fex_load_ppm: lc.fex_load_ppm,
            thread_loads: lc.thread_loads,
            mem: lc.mem,
            histogram_entry: lc.histogram_entry,
            cumulative: CumulativeCountStats { sigbus: 0, smc: 0, float_fallback: 0, cache_miss: 0, jit: 0 },
        },
        per_thread_deltas: legacy.per_thread_deltas,
    }
}

impl From<LegacyFrame> for Frame {
    fn from(legacy: LegacyFrame) -> (r: Frame)
        ensures
            r == upgraded(legacy),
    {
        let lc = legacy.computed;
        Frame {
            computed: ComputedFrame {
                timestamp_ns: lc.timestamp_ns,
                sample_period_ns: lc.sample_period_ns,
                threads_sampled: lc.threads_sampled,
                total_jit_time: lc.total_jit_time,
                total_signal_time: lc.total_signal_time,
                total_sigbus_count: lc.total_sigbus_count,
                total_smc_count: lc.total_smc_count,
                total_float_fallback_count: lc.total_float_fallback_count,
                total_cache_miss_count: lc.total_cache_miss_count,
                total_cache_read_lock_time: lc.total_cache_read_lock_time,
                total_cache_write_lock_time: lc.total_cache_write_lock_time,
                total_jit_count: lc.total_jit_count,
                total_jit_invocations: lc.total_jit_invocations,
                fex_load_ppm: lc.fex_load_ppm,
                thread_loads: lc.thread_loads,
                mem: lc.mem,
                histogram_entry: lc.histogram_entry,
                cumulative: CumulativeCountStats {
                    sigbus: 0,
                    smc: 0,
                    float_fallback: 0,
                    cache_miss: 0,
                    jit: 0,
                },
            },
            per_thread_deltas: legacy.per_thread_deltas,
        }
    }
}

impl vstd::std_specs::convert::FromSpecImpl<LegacyFrame> for Frame {
    open spec fn obeys_from_spec() -> bool {
        true
    }

    open spec fn from_spec(legacy: LegacyFrame) -> Frame {
        upgraded(legacy)
    }
}

/// What `zstd::decode_all` makes of `data`: the decompressed bytes, or
/// `None` where it fails.
pub uninterp spec fn zstd_decode(data: Seq<u8>) -> Option<Seq<u8>>;

/// Relies on `zstd::decode_all`: whether it succeeds, and what it returns,
/// depend on `data` alone.
#[verifier::external_body]
fn decompress(data: &[u8]) -> (r: Option<Vec<u8>>)
    ensures
        r.is_some() == zstd_decode(data@).is_some(),
        r matches Some(v) ==> zstd_decode(data@) == Some(v@),
{
    zstd::decode_all(data).ok()
}

/// Decompresses a recording file's bytes and splits the stream into its
/// serialized metadata and frames.
pub fn decode_recording(compressed: &[u8]) -> (r: Result<RawRecording, RecordingError>)
    ensures
        zstd_decode(compressed@) is None ==> r == Err::<RawRecording, RecordingError>(
            RecordingError::Decompress,
        ),
        zstd_decode(compressed@) matches Some(s) ==> match (r, parse_stream(s)) {
            (Ok(raw), Ok((m, fs))) => raw.holds(m, fs),
            (Err(e), Err(e2)) => e == e2,
            _ => false,
        },
{
    match decompress(compressed) {
        None => Err(RecordingError::Decompress),
        Some(stream) => parse_stream_bytes(stream.as_slice()),
    }
}

} // verus!
