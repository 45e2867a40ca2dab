use felix::accumulator::ComputedFrame;
use felix::controls::ReplayControls;
use felix::recording::{
    decode_recording, encode_frame, encode_header, end_marker, parse_stream_bytes, FileHeader,
    Frame, RecordingError, FORMAT_VERSION,
};
use felix::replay::{DataSource, RecordingReader, ReplaySource};
use felix::thread_stats::ThreadDelta;
use felix::types::{AppType, SessionMetadata, WallTime};

fn make_metadata() -> SessionMetadata {
    SessionMetadata {
        pid: 1234,
        fex_version: "FEX-2501".to_string(),
        app_type: AppType::Linux64,
        stats_version: 3,
        cycle_counter_frequency: 1_000_000_000,
        hardware_concurrency: 8,
        recording_start: WallTime::default(),
        head: 0,
        size: 0,
    }
}

fn stream(metadata: &[u8], frames: &[Vec<u8>], finished: bool) -> Vec<u8> {
    let mut out = encode_header(metadata);
    for f in frames {
        out.extend(encode_frame(f));
    }
    if finished {
        out.extend(end_marker());
    }
    out
}

#[test]
fn stream_round_trip() {
    let metadata = b"session".to_vec();
    let frames: Vec<Vec<u8>> = (0..5u8).map(|i| vec![i; i as usize * 3]).collect();
    for finished in [true, false] {
        let raw = parse_stream_bytes(&stream(&metadata, &frames, finished)).unwrap();
        assert_eq!(raw.metadata, metadata);
        assert_eq!(raw.frames, frames);
    }
}

#[test]
fn empty_stream_round_trip() {
    let raw = parse_stream_bytes(&stream(b"m", &[], true)).unwrap();
    assert_eq!(raw.metadata, b"m".to_vec());
    assert!(raw.frames.is_empty());
}

#[test]
fn record_layout() {
    assert_eq!(encode_frame(&[9, 8]), vec![2, 0, 0, 0, 9, 8]);
    assert_eq!(encode_header(&[1]), vec![b'F', b'L', b'X', b'R', FORMAT_VERSION, 1, 0, 0, 0, 1]);
    assert_eq!(end_marker(), b"FEOF".to_vec());
}

#[test]
fn compressed_round_trip() {
    let frames = vec![vec![1u8, 2, 3], vec![4u8; 1000]];
    let plain = stream(b"meta", &frames, true);
    let compressed = zstd::encode_all(plain.as_slice(), 3).unwrap();
    let raw = decode_recording(&compressed).unwrap();
    assert_eq!(raw.metadata, b"meta".to_vec());
    assert_eq!(raw.frames, frames);
}

#[test]
fn format_errors() {
    assert_eq!(parse_stream_bytes(b"FLX").err(), Some(RecordingError::TruncatedHeader));
    assert_eq!(parse_stream_bytes(b"FLXR").err(), Some(RecordingError::TruncatedHeader));
    assert_eq!(parse_stream_bytes(&[b'F', b'L', b'X', b'R', 2, 1, 0]).err(), Some(RecordingError::TruncatedHeader));
    assert_eq!(
        parse_stream_bytes(&[b'F', b'L', b'X', b'R', 2, 9, 0, 0, 0, 1]).err(),
        Some(RecordingError::TruncatedHeader)
    );
    assert_eq!(parse_stream_bytes(&[9, 0, 0, 0, 1]).err(), Some(RecordingError::BadMagic));
    let mut bad_magic = stream(b"m", &[], true);
    bad_magic[1] = b'X';
    assert_eq!(parse_stream_bytes(&bad_magic).err(), Some(RecordingError::BadMagic));
    let mut bad_version = stream(b"m", &[], true);
    bad_version[4] = 1;
    assert_eq!(parse_stream_bytes(&bad_version).err(), Some(RecordingError::UnsupportedVersion(1)));
    let mut cut = stream(b"m", &[vec![1, 2, 3, 4]], false);
    cut.pop();
    assert_eq!(parse_stream_bytes(&cut).err(), Some(RecordingError::TruncatedFrame));
    assert_eq!(decode_recording(&[1, 2, 3]).err(), Some(RecordingError::Decompress));
}

#[test]
fn partial_length_prefix_ends_stream() {
    let mut s = stream(b"m", &[vec![7]], false);
    s.extend([5, 0]);
    let raw = parse_stream_bytes(&s).unwrap();
    assert_eq!(raw.frames, vec![vec![7]]);
}

#[test]
fn bytes_after_end_marker_are_ignored() {
    let mut s = stream(b"m", &[vec![7]], true);
    s.extend([1, 0, 0, 0, 9]);
    let raw = parse_stream_bytes(&s).unwrap();
    assert_eq!(raw.frames, vec![vec![7]]);
}

fn frame_with_period(period: u64, marker: u64) -> Frame {
    Frame {
        computed: ComputedFrame {
            sample_period_ns: period,
            total_jit_time: marker,
            ..ComputedFrame::default()
        },
        per_thread_deltas: vec![ThreadDelta::default()],
    }
}

#[test]
fn empty_recording_has_no_frames() {
    let reader = RecordingReader::new(make_metadata(), Vec::new());
    assert_eq!(reader.frame_count(), 0);
    assert!(reader.frame_at(0).is_none());
    assert_eq!(reader.metadata().pid, 1234);
    assert_eq!(reader.metadata().fex_version, "FEX-2501");
}

#[test]
fn reader_gives_frames_by_index() {
    let frames = (0..3).map(|i| frame_with_period(1_000, i)).collect();
    let reader = RecordingReader::new(make_metadata(), frames);
    assert_eq!(reader.frame_count(), 3);
    assert_eq!(reader.frame_at(2).unwrap().computed.total_jit_time, 2);
    assert!(reader.frame_at(3).is_none());
}

const MS: u64 = 1_000_000;

fn source(frames: usize) -> ReplaySource {
    let frames = (0..frames as u64).map(|i| frame_with_period(100 * MS, i)).collect();
    ReplaySource::new(RecordingReader::new(make_metadata(), frames), 0)
}

#[test]
fn replay_paces_by_sample_period() {
    let mut src = source(3);
    assert!(src.next_frame(99 * MS).is_none());
    assert_eq!(src.next_frame(100 * MS).unwrap().total_jit_time, 0);
    assert!(src.next_frame(150 * MS).is_none());
    assert_eq!(src.next_frame(200 * MS).unwrap().total_jit_time, 1);
    assert_eq!(src.current_index(), 2);
    assert!(!src.is_finished());
    assert_eq!(src.next_frame(300 * MS).unwrap().total_jit_time, 2);
    assert!(src.is_finished());
    assert!(src.next_frame(900 * MS).is_none());
    assert_eq!(src.total_frames(), 3);
    assert!(!src.is_live());
}

#[test]
fn double_speed_emits_twice_as_often() {
    let mut normal = source(20);
    let mut fast = source(20);
    fast.set_speed(2000);
    let (mut n, mut f) = (0, 0);
    for step in 1..=50u64 {
        let now = step * 10 * MS;
        n += normal.next_frame(now).is_some() as u32;
        f += fast.next_frame(now).is_some() as u32;
    }
    assert_eq!(n, 5);
    assert_eq!(f, 10);
}

#[test]
fn pause_suppresses_emission_until_resumed() {
    let mut src = source(3);
    src.toggle_pause(0);
    assert!(src.is_paused());
    assert!(src.next_frame(10_000 * MS).is_none());
    src.toggle_pause(10_000 * MS);
    assert!(!src.is_paused());
    assert!(src.next_frame(10_050 * MS).is_none());
    assert_eq!(src.next_frame(10_100 * MS).unwrap().total_jit_time, 0);
}

#[test]
fn seek_moves_to_frame_and_restarts_pacing() {
    let mut src = source(5);
    src.seek_to(3, 1_000 * MS);
    assert_eq!(src.current_index(), 3);
    assert!(src.next_frame(1_000 * MS).is_none());
    assert_eq!(src.next_frame(1_100 * MS).unwrap().total_jit_time, 3);
    src.seek_to(99, 2_000 * MS);
    assert_eq!(src.current_index(), 5);
    assert!(src.is_finished());
}

#[test]
fn zero_speed_never_emits() {
    let mut src = source(2);
    src.set_speed(0);
    assert!(src.next_frame(u64::MAX).is_none());
}

#[test]
fn sync_follows_controls() {
    let mut src = source(5);
    let mut controls = ReplayControls::new(5);
    controls.speed_up();
    controls.toggle_pause();
    controls.update_position(2);
    src.sync_with(&controls, 50 * MS);
    assert!(src.is_paused());
    assert_eq!(src.current_index(), 2);
    assert!(src.next_frame(1_000 * MS).is_none());
    controls.toggle_pause();
    src.sync_with(&controls, 1_000 * MS);
    assert!(!src.is_paused());
    assert!(src.next_frame(1_049 * MS).is_none());
    assert_eq!(src.next_frame(1_050 * MS).unwrap().total_jit_time, 2);
}

#[test]
fn pacing_is_not_rounded_down() {
    let frames = vec![frame_with_period(3, 0), frame_with_period(3, 1)];
    let mut src = ReplaySource::new(RecordingReader::new(make_metadata(), frames), 0);
    src.set_speed(2000);
    // 1.5 ns are due at double speed: 1 ns is not enough, 2 ns are.
    assert!(src.next_frame(1).is_none());
    assert_eq!(src.next_frame(2).unwrap().total_jit_time, 0);
}

#[test]
fn replay_is_a_data_source() {
    let mut src = source(1);
    let as_source: &mut dyn DataSource = &mut src;
    assert!(!as_source.is_live());
    assert_eq!(as_source.metadata().pid, 1234);
    assert!(as_source.next_frame(10 * MS).is_none());
    assert_eq!(as_source.next_frame(100 * MS).unwrap().total_jit_time, 0);
}

#[test]
fn file_header_for_session() {
    let mut header = FileHeader::for_session(make_metadata());
    assert_eq!(&header.magic, b"FLXR");
    assert_eq!(header.format_version, FORMAT_VERSION);
    assert!(header.is_supported());
    header.format_version = 1;
    assert!(!header.is_supported());
    header.format_version = FORMAT_VERSION;
    header.magic[0] = b'X';
    assert!(!header.is_supported());
}
