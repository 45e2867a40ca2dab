//! Playback controls of a replay: speed steps, pause and position.
use vstd::prelude::*;

verus! {

/// Number of selectable playback speeds.
pub const SPEED_STEP_COUNT: usize = 7;

/// The step selected at start: normal speed.
pub const DEFAULT_SPEED_INDEX: usize = 2;

/// The playback speed of step `i`, in thousandths: 0.25x up to 16x, doubling.
pub open spec fn speed_step(i: int) -> u64 {
    if i == 0 {
        250
    } else if i == 1 {
        500
    } else if i == 2 {
        1000
    } else if i == 3 {
        2000
    } else if i == 4 {
        4000
    } else if i == 5 {
        8000
    } else {
        16000
    }
}

fn speed_at(i: usize) -> (r: u64)
    ensures
        r == speed_step(i as int),
{
    match i {
        0 => 250,
        1 => 500,
        2 => 1000,
        3 => 2000,
        4 => 4000,
        5 => 8000,
        _ => 16000,
    }
}

/// The controls with pause flipped.
pub open spec fn paused_toggled(c: ReplayControls) -> ReplayControls {
    ReplayControls { paused: !c.paused, ..c }
}

/// The controls one speed step faster, unless already at the fastest.
pub open spec fn sped_up(c: ReplayControls) -> ReplayControls {
    if c.speed_index + 1 < SPEED_STEP_COUNT {
        ReplayControls {
            speed_index: (c.speed_index + 1) as usize,
            speed_milli: speed_step(c.speed_index + 1),
            ..c
        }
    } else {
        c
    }
}

/// The controls one speed step slower, unless already at the slowest.
pub open spec fn slowed_down(c: ReplayControls) -> ReplayControls {
    if c.speed_index > 0 {
        ReplayControls {
            speed_index: (c.speed_index - 1) as usize,
            speed_milli: speed_step(c.speed_index - 1),
            ..c
        }
    } else {
        c
    }
}

/// The controls at frame `index`.
pub open spec fn at_frame(c: ReplayControls, index: usize) -> ReplayControls {
    ReplayControls { current_frame: index, ..c }
}

/// The controls one frame on, at most at the last frame; unchanged without frames.
pub open spec fn stepped_forward(c: ReplayControls) -> ReplayControls {
    if c.total_frames == 0 {
        c
    } else if c.current_frame < c.total_frames - 1 {
        at_frame(c, (c.current_frame + 1) as usize)
    } else {
        at_frame(c, (c.total_frames - 1) as usize)
    }
}

/// The controls one frame back, at least at the first frame.
pub open spec fn stepped_back(c: ReplayControls) -> ReplayControls {
    if c.current_frame > 0 {
        at_frame(c, (c.current_frame - 1) as usize)
    } else {
        c
    }
}

/// The controls at the last frame; unchanged without frames.
pub open spec fn at_end(c: ReplayControls) -> ReplayControls {
    if c.total_frames > 0 {
        at_frame(c, (c.total_frames - 1) as usize)
    } else {
        c
    }
}

/// What the user has asked of a replay.
#[derive(Debug, Clone, Copy, PartialEq, Eq, Structural)]
pub struct ReplayControls {
    pub speed_milli: u64,
    pub paused: bool,
    pub current_frame: usize,
    pub total_frames: usize,
    /// Index of the selected step; `speed_milli` is its speed.
    pub speed_index: usize,
}

impl ReplayControls {
    /// The speed is the one of a valid step.
    pub open spec fn wf(&self) -> bool {
        0 <= self.speed_index < SPEED_STEP_COUNT && self.speed_milli == speed_step(self.speed_index as int)
    }

    /// Playing at normal speed from the first of `total_frames` frames.
    pub fn new(total_frames: usize) -> (r: Self)
        ensures
            r.wf(),
            r.speed_index == DEFAULT_SPEED_INDEX,
            r.speed_milli == 1000,
            !r.paused,
            r.current_frame == 0,
            r.total_frames == total_frames,
    {
        ReplayControls {
            speed_milli: speed_at(DEFAULT_SPEED_INDEX),
            paused: false,
            current_frame: 0,
            total_frames,
            speed_index: DEFAULT_SPEED_INDEX,
        }
    }

    pub fn toggle_pause(&mut self)
        ensures
            *final(self) == paused_toggled(*old(self)),
    {
        self.paused = !self.paused;
    }

    /// The next faster step, if any.
    pub fn speed_up(&mut self)
        requires
            old(self).wf(),
        ensures
            final(self).wf(),
            *final(self) == sped_up(*old(self)),
    {
        if self.speed_index + 1 < SPEED_STEP_COUNT {
            self.speed_index = self.speed_index + 1;
            self.speed_milli = speed_at(self.speed_index);
        }
    }

    /// The next slower step, if any.
    pub fn speed_down(&mut self)
        requires
            old(self).wf(),
        ensures
            final(self).wf(),
            *final(self) == slowed_down(*old(self)),
    {
        if self.speed_index > 0 {
            self.speed_index = self.speed_index - 1;
            self.speed_milli = speed_at(self.speed_index);
        }
    }

    /// One frame on, stopping at the last frame.
    pub fn seek_forward(&mut self)
        ensures
            *final(self) == stepped_forward(*old(self)),
    {
        if self.total_frames > 0 {
            let last = self.total_frames - 1;
            self.current_frame = if self.current_frame < last {
                self.current_frame + 1
            } else {
                last
            };
        }
    }

    /// One frame back, stopping at the first frame.
    pub fn seek_backward(&mut self)
        ensures
            *final(self) == stepped_back(*old(self)),
    {
        self.current_frame = self.current_frame.saturating_sub(1);
    }

    pub fn seek_start(&mut self)
        ensures
            *final(self) == at_frame(*old(self), 0),
    {
        self.current_frame = 0;
    }

    /// To the last frame, if there is one.
    pub fn seek_end(&mut self)
        ensures
            *final(self) == at_end(*old(self)),
    {
        if self.total_frames > 0 {
            self.current_frame = self.total_frames - 1;
        }
    }

    pub fn update_position(&mut self, index: usize)
        ensures
            *final(self) == at_frame(*old(self), index),
    {
        self.current_frame = index;
    }

    /// How far playback has come, as a numerator and a positive denominator:
    /// the current frame over the last frame's index, or zero with at most
    /// one frame.
    pub fn progress_fraction(&self) -> (r: (usize, usize))
        ensures
            r.1 > 0,
            self.total_frames <= 1 ==> r == (0usize, 1usize),
            self.total_frames > 1 ==> r == (self.current_frame, (self.total_frames - 1) as usize),
    {
        if self.total_frames <= 1 {
            (0, 1)
        } else {
            (self.current_frame, self.total_frames - 1)
        }
    }
}

} // verus!
