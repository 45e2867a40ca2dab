//! Random access to a loaded recording, and paced replay of its frames.
use vstd::prelude::*;

use crate::accumulator::ComputedFrame;
use crate::controls::ReplayControls;
use crate::recording::Frame;
use crate::types::SessionMetadata;

verus! {

/// Playback speed 1x, in thousandths.
pub const NORMAL_SPEED_MILLI: u64 = 1000;

/// All frames of a recording, held in memory.
pub struct RecordingReader {
    metadata: SessionMetadata,
    frames: Vec<Frame>,
}

impl RecordingReader {
    /// The frames, in recording order.
    pub closed spec fn frames(&self) -> Seq<Frame> {
        self.frames@
    }

    /// The session the recording was taken from.
    pub closed spec fn session(&self) -> SessionMetadata {
        self.metadata
    }

    /// A reader over decoded frames.
    pub fn new(metadata: SessionMetadata, frames: Vec<Frame>) -> (r: Self)
        ensures
            r.frames() == frames@,
            r.session() == metadata,
    {
        RecordingReader { metadata, frames }
    }

    /// The session the recording was taken from.
    pub fn metadata(&self) -> (r: &SessionMetadata)
        ensures
            *r == self.session(),
    {
        &self.metadata
    }

    /// How many frames the recording holds.
    pub fn frame_count(&self) -> (r: usize)
        ensures
            r == self.frames().len(),
    {
        self.frames.len()
    }

    /// The frame at `index`, or `None` past the end.
    pub fn frame_at(&self, index: usize) -> (r: Option<&Frame>)
        ensures
            index < self.frames().len() ==> r == Some(&self.frames()[index as int]),
            index >= self.frames().len() ==> r.is_none(),
    {
        if index < self.frames.len() {
            Some(&self.frames[index])
        } else {
            None
        }
    }
}

/// At `speed_milli` thousandths of normal speed, `elapsed` nanoseconds cover
/// a frame sampled over `period` nanoseconds: `elapsed >= period / speed`,
/// compared exactly.
pub open spec fn paced(elapsed: int, period: u64, speed_milli: u64) -> bool {
    elapsed * speed_milli >= period * 1000
}

/// At twice the speed a frame is due after exactly half the time, so frames
/// come out at twice the rate.
pub proof fn lemma_double_speed_halves_interval(elapsed: int, period: u64, speed_milli: u64)
    requires
        speed_milli <= u64::MAX / 2,
    ensures
        paced(elapsed, period, (2 * speed_milli) as u64) == paced(2 * elapsed, period, speed_milli),
{
    assert(elapsed * (2 * speed_milli) == (2 * elapsed) * speed_milli) by (nonlinear_arith);
}

/// `elapsed * speed`, which always fits in 128 bits.
fn scaled_elapsed(elapsed: u64, speed_milli: u64) -> (r: u128)
    ensures
        r == elapsed * speed_milli,
{
    proof {
        assert(elapsed as int * speed_milli as int <= 0xffff_ffff_ffff_fffe_0000_0000_0000_0001) by (nonlinear_arith)
            requires
                elapsed <= 0xffff_ffff_ffff_ffff,
                speed_milli <= 0xffff_ffff_ffff_ffff,
        ;
    }
    elapsed as u128 * speed_milli as u128
}

/// Where frames come from, live or replayed; times are readings of a
/// monotonic clock in nanoseconds.
pub trait DataSource {
    /// The next frame, when one is ready at `now_ns`.
    fn next_frame(&mut self, now_ns: u64) -> Option<ComputedFrame>;

    /// The session the frames belong to.
    fn metadata(&self) -> &SessionMetadata;

    /// Whether frames come from a running process.
    fn is_live(&self) -> bool;
}

/// Replays a recording's frames at a chosen speed, with pause and seek.
/// Times are readings of a monotonic clock, in nanoseconds.
pub struct ReplaySource {
    reader: RecordingReader,
    current_index: usize,
    speed_milli: u64,
    last_emitted_ns: u64,
    paused: bool,
}

impl ReplaySource {
    pub closed spec fn recording(&self) -> Seq<Frame> {
        self.reader.frames()
    }

    pub closed spec fn session(&self) -> SessionMetadata {
        self.reader.session()
    }

    pub closed spec fn index(&self) -> nat {
        self.current_index as nat
    }

    pub closed spec fn speed(&self) -> u64 {
        self.speed_milli
    }

    pub closed spec fn last_emitted(&self) -> u64 {
        self.last_emitted_ns
    }

    pub closed spec fn is_paused_spec(&self) -> bool {
        self.paused
    }

    /// The position never passes the end.
    pub open spec fn wf(&self) -> bool {
        self.index() <= self.recording().len()
    }

    /// Starts at the first frame, at normal speed, playing, clock at `now_ns`.
    pub fn new(reader: RecordingReader, now_ns: u64) -> (r: Self)
        ensures
            r.wf(),
            r.recording() == reader.frames(),
            r.index() == 0,
            r.speed() == NORMAL_SPEED_MILLI,
            r.last_emitted() == now_ns,
            !r.is_paused_spec(),
    {
        ReplaySource {
            reader,
            current_index: 0,
            speed_milli: NORMAL_SPEED_MILLI,
            last_emitted_ns: now_ns,
            paused: false,
        }
    }

    /// Sets the speed, in thousandths of normal speed; zero stops emission.
    pub fn set_speed(&mut self, speed_milli: u64)
        requires
            old(self).wf(),
        ensures
            final(self).wf(),
            final(self).speed() == speed_milli,
            final(self).recording() == old(self).recording(),
            final(self).index() == old(self).index(),
            final(self).last_emitted() == old(self).last_emitted(),
            final(self).is_paused_spec() == old(self).is_paused_spec(),
    {
        self.speed_milli = speed_milli;
    }

    /// Pauses or resumes; resuming restarts the pacing clock at `now_ns`.
    pub fn toggle_pause(&mut self, now_ns: u64)
        requires
            old(self).wf(),
        ensures
            final(self).wf(),
            final(self).is_paused_spec() == !old(self).is_paused_spec(),
            final(self).last_emitted() == (if old(self).is_paused_spec() {
                now_ns
            } else {
                old(self).last_emitted()
            }),
            final(self).recording() == old(self).recording(),
            final(self).index() == old(self).index(),
            final(self).speed() == old(self).speed(),
    {
        self.paused = !self.paused;
        if !self.paused {
            self.last_emitted_ns = now_ns;
        }
    }

    /// Moves to `index` (at most the frame count) and restarts the pacing
    /// clock at `now_ns`.
    pub fn seek_to(&mut self, index: usize, now_ns: u64)
        requires
            old(self).wf(),
        ensures
            final(self).wf(),
            final(self).index() == (if index < old(self).recording().len() {
                index as nat
            } else {
                old(self).recording().len()
            }),
            final(self).last_emitted() == now_ns,
            final(self).recording() == old(self).recording(),
            final(self).speed() == old(self).speed(),
            final(self).is_paused_spec() == old(self).is_paused_spec(),
    {
        let count = self.reader.frame_count();
        self.current_index = if index < count {
            index
        } else {
            count
        };
        self.last_emitted_ns = now_ns;
    }

    pub fn is_paused(&self) -> (r: bool)
        ensures
            r == self.is_paused_spec(),
    {
        self.paused
    }

    pub fn current_index(&self) -> (r: usize)
        ensures
            r == self.index(),
    {
        self.current_index
    }

    pub fn total_frames(&self) -> (r: usize)
        ensures
            r == self.recording().len(),
    {
        self.reader.frame_count()
    }

    pub fn is_finished(&self) -> (r: bool)
        ensures
            r == (self.index() >= self.recording().len()),
    {
        self.current_index >= self.reader.frame_count()
    }

    /// The session the recording was taken from.
    pub fn metadata(&self) -> (r: &SessionMetadata)
        ensures
            *r == self.session(),
    {
        self.reader.metadata()
    }

    /// A replay is never live.
    pub fn is_live(&self) -> (r: bool)
        ensures
            !r,
    {
        false
    }

    /// Whether the frame at the current position is due at `now_ns`: playing,
    /// not at the end, speed not zero, and at least its pacing interval since
    /// the last emission.
    pub open spec fn due(&self, now_ns: u64) -> bool {
        &&& !self.is_paused_spec()
        &&& self.index() < self.recording().len()
        &&& self.speed() > 0
        &&& paced(
            if now_ns >= self.last_emitted() {
                now_ns - self.last_emitted()
            } else {
                0
            },
            self.recording()[self.index() as int].computed.sample_period_ns,
            self.speed(),
        )
    }

    /// Brings the replay in line with the controls at `now_ns`: their speed,
    /// their pause state (resuming restarts the pacing clock), and their
    /// position when it differs (seeking restarts the clock too).
    pub fn sync_with(&mut self, controls: &ReplayControls, now_ns: u64)
        requires
            old(self).wf(),
        ensures
            final(self).wf(),
            final(self).recording() == old(self).recording(),
            final(self).speed() == controls.speed_milli,
            final(self).is_paused_spec() == controls.paused,
            final(self).index() == (if controls.current_frame != old(self).index() {
                if controls.current_frame < old(self).recording().len() {
                    controls.current_frame as nat
                } else {
                    old(self).recording().len()
                }
            } else {
                old(self).index()
            }),
            final(self).last_emitted() == (if (old(self).is_paused_spec() && !controls.paused)
                || controls.current_frame != old(self).index() {
                now_ns
            } else {
                old(self).last_emitted()
            }),
    {
        self.set_speed(controls.speed_milli);
        if controls.paused != self.is_paused() {
            self.toggle_pause(now_ns);
        }
        if controls.current_frame != self.current_index() {
            self.seek_to(controls.current_frame, now_ns);
        }
    }

    /// While paused, no frame is ever due, whatever the time.
    pub proof fn lemma_paused_emits_nothing(&self, now_ns: u64)
        requires
            self.is_paused_spec(),
        ensures
            !self.due(now_ns),
    {
    }

    /// Emits the current frame if it is due at `now_ns`, moving on by one
    /// frame and restarting the pacing clock; otherwise emits nothing.
    pub fn next_frame(&mut self, now_ns: u64) -> (r: Option<ComputedFrame>)
        ensures
            final(self).wf() == old(self).wf(),
            final(self).recording() == old(self).recording(),
            final(self).speed() == old(self).speed(),
            final(self).is_paused_spec() == old(self).is_paused_spec(),
            old(self).due(now_ns) ==> {
                &&& r matches Some(f) && f.same_as(
                    &old(self).recording()[old(self).index() as int].computed,
                )
                &&& final(self).index() == old(self).index() + 1
                &&& final(self).last_emitted() == now_ns
            },
            !old(self).due(now_ns) ==> {
                &&& r.is_none()
                &&& final(self).index() == old(self).index()
                &&& final(self).last_emitted() == old(self).last_emitted()
            },
    {
        if self.paused || self.speed_milli == 0 {
            return None;
        }
        if self.current_index >= self.reader.frame_count() {
            return None;
        }
        let frame = match self.reader.frame_at(self.current_index) {
            Some(f) => f,
            None => return None,
        };
        let required: u128 = frame.computed.sample_period_ns as u128 * 1000;
        let elapsed = now_ns.saturating_sub(self.last_emitted_ns);
        if scaled_elapsed(elapsed, self.speed_milli) < required {
            return None;
        }
        let computed = frame.computed.duplicate();
        self.current_index = self.current_index + 1;
        self.last_emitted_ns = now_ns;
        Some(computed)
    }
}

impl DataSource for ReplaySource {
    fn next_frame(&mut self, now_ns: u64) -> Option<ComputedFrame> {
        ReplaySource::next_frame(self, now_ns)
    }

    fn metadata(&self) -> &SessionMetadata {
        ReplaySource::metadata(self)
    }

    fn is_live(&self) -> bool {
        ReplaySource::is_live(self)
    }
}

} // verus!
