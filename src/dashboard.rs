//! State of the interactive dashboard: panels, the latest frame, the load
//! history and the replay controls, and how user actions change it.
use std::collections::VecDeque;

use vstd::prelude::*;

use crate::accumulator::{ComputedFrame, HistogramEntry};
use crate::controls::{
    at_end, at_frame, paused_toggled, slowed_down, sped_up, stepped_back, stepped_forward,
    ReplayControls,
};
use crate::types::SessionMetadata;

verus! {

/// How many load samples the history keeps.
pub const HISTOGRAM_CAPACITY: usize = 200;

/// What a key press asks for.
#[derive(Debug, Clone, Copy, PartialEq, Eq, Structural)]
pub enum Action {
    Quit,
    PanelUp,
    PanelDown,
    ToggleCollapse,
    TogglePause,
    SeekForward,
    SeekBackward,
    SpeedUp,
    SpeedDown,
    SeekStart,
    SeekEnd,
    IncreaseSamplePeriod,
    DecreaseSamplePeriod,
    NoOp,
}

/// A key press, as far as the dashboard tells keys apart.
#[derive(Debug, Clone, Copy, PartialEq, Eq, Structural)]
pub enum Key {
    Char(char),
    Up,
    Down,
    Left,
    Right,
    Home,
    End,
    Other,
}

/// The action a key asks for; stepping, pausing, speed and jumps only
/// during a replay, where the right arrow steps instead of collapsing.
pub open spec fn action_for(key: Key, is_replay: bool) -> Action {
    match key {
        Key::Char('q') => Action::Quit,
        Key::Up => Action::PanelUp,
        Key::Down => Action::PanelDown,
        Key::Right => if is_replay {
            Action::SeekForward
        } else {
            Action::ToggleCollapse
        },
        Key::Char('+') | Key::Char('=') => Action::IncreaseSamplePeriod,
        Key::Char('-') | Key::Char('_') => Action::DecreaseSamplePeriod,
        Key::Char(' ') if is_replay => Action::TogglePause,
        Key::Left if is_replay => Action::SeekBackward,
        Key::Char(']') if is_replay => Action::SpeedUp,
        Key::Char('[') if is_replay => Action::SpeedDown,
        Key::Home if is_replay => Action::SeekStart,
        Key::End if is_replay => Action::SeekEnd,
        _ => Action::NoOp,
    }
}

/// Maps a key to the action it asks for, as `action_for` says.
pub fn handle_key(key: Key, is_replay: bool) -> (r: Action)
    ensures
        r == action_for(key, is_replay),
{
    match key {
        Key::Char('q') => Action::Quit,
        Key::Up => Action::PanelUp,
        Key::Down => Action::PanelDown,
        Key::Right => if is_replay {
            Action::SeekForward
        } else {
            Action::ToggleCollapse
        },
        Key::Char('+') | Key::Char('=') => Action::IncreaseSamplePeriod,
        Key::Char('-') | Key::Char('_') => Action::DecreaseSamplePeriod,
        Key::Char(' ') if is_replay => Action::TogglePause,
        Key::Left if is_replay => Action::SeekBackward,
        Key::Char(']') if is_replay => Action::SpeedUp,
        Key::Char('[') if is_replay => Action::SpeedDown,
        Key::Home if is_replay => Action::SeekStart,
        Key::End if is_replay => Action::SeekEnd,
        _ => Action::NoOp,
    }
}

/// One panel of the dashboard.
#[derive(Debug, Clone, Copy)]
pub struct PanelState {
    pub name: &'static str,
    pub collapsed: bool,
    pub min_height: u16,
}

/// The dashboard's state.
pub struct App {
    pub panels: Vec<PanelState>,
    pub selected_panel: usize,
    pub latest_frame: Option<ComputedFrame>,
    pub histogram: VecDeque<HistogramEntry>,
    pub metadata: SessionMetadata,
    pub is_replay: bool,
    pub should_quit: bool,
    pub replay_controls: Option<ReplayControls>,
}

/// The controls after a replay action (a step either way also pauses).
pub open spec fn controls_after(c: ReplayControls, action: Action) -> ReplayControls {
    match action {
        Action::TogglePause => paused_toggled(c),
        Action::SeekForward => ReplayControls { paused: true, ..stepped_forward(c) },
        Action::SeekBackward => ReplayControls { paused: true, ..stepped_back(c) },
        Action::SpeedUp => sped_up(c),
        Action::SpeedDown => slowed_down(c),
        Action::SeekStart => at_frame(c, 0),
        Action::SeekEnd => at_end(c),
        _ => c,
    }
}

impl App {
    /// Replay controls, when present, stay on a valid speed step.
    pub open spec fn wf(&self) -> bool {
        self.replay_controls matches Some(c) ==> c.wf()
    }

    /// The three panels, the first selected, no data yet; replay controls
    /// (with no frames yet) only for a replay.
    pub fn new(metadata: SessionMetadata, is_replay: bool) -> (r: Self)
        ensures
            r.wf(),
            r.panels@.len() == 3,
            forall|i: int| 0 <= i < 3 ==> !(#[trigger] r.panels@[i]).collapsed,
            r.selected_panel == 0,
            r.latest_frame.is_none(),
            r.histogram@.len() == 0,
            r.is_replay == is_replay,
            !r.should_quit,
            r.replay_controls.is_some() == is_replay,
            r.replay_controls matches Some(c) ==> c.total_frames == 0 && c.current_frame == 0,
    {
        let panels = vec![
            PanelState { name: "FEX JIT Stats", collapsed: false, min_height: 26 },
            PanelState { name: "FEX Memory Usage", collapsed: false, min_height: 15 },
            PanelState { name: "Total JIT usage", collapsed: false, min_height: 12 },
        ];
        let replay_controls = if is_replay {
            Some(ReplayControls::new(0))
        } else {
            None
        };
        App {
            panels,
            selected_panel: 0,
            latest_frame: None,
            histogram: VecDeque::with_capacity(HISTOGRAM_CAPACITY),
            metadata,
            is_replay,
            should_quit: false,
            replay_controls,
        }
    }

    /// Shows `frame` and appends its load sample to the history, dropping the
    /// oldest sample when the history is full.
    pub fn update_frame(&mut self, frame: ComputedFrame)
        requires
            old(self).histogram@.len() <= HISTOGRAM_CAPACITY,
        ensures
            final(self).latest_frame == Some(frame),
            final(self).histogram@ == (if old(self).histogram@.len() >= HISTOGRAM_CAPACITY {
                old(self).histogram@.drop_first()
            } else {
                old(self).histogram@
            }).push(frame.histogram_entry),
            final(self).histogram@.len() <= HISTOGRAM_CAPACITY,
            final(self).replay_controls == old(self).replay_controls,
            final(self).selected_panel == old(self).selected_panel,
            final(self).should_quit == old(self).should_quit,
    {
        let entry = frame.histogram_entry;
        self.latest_frame = Some(frame);
        if self.histogram.len() >= HISTOGRAM_CAPACITY {
            self.histogram.pop_front();
        }
        self.histogram.push_back(entry);
    }

    /// Tells the replay controls how many frames the recording holds.
    pub fn set_replay_total_frames(&mut self, total: usize)
        ensures
            final(self).replay_controls == (match old(self).replay_controls {
                Some(c) => Some(ReplayControls { total_frames: total, ..c }),
                None => None,
            }),
            final(self).wf() == old(self).wf(),
    {
        if let Some(c) = self.replay_controls {
            self.replay_controls = Some(ReplayControls { total_frames: total, ..c });
        }
    }

    pub fn replay_controls(&self) -> (r: Option<&ReplayControls>)
        ensures
            match self.replay_controls {
                Some(c) => r == Some(&c),
                None => r.is_none(),
            },
    {
        self.replay_controls.as_ref()
    }

    /// The replay controls, for the replay loop to move their position.
    pub fn replay_controls_mut(&mut self) -> (r: Option<&mut ReplayControls>)
        ensures
            r.is_some() == old(self).replay_controls.is_some(),
    {
        self.replay_controls.as_mut()
    }

    /// Applies one user action.
    pub fn handle_action(&mut self, action: &Action)
        requires
            old(self).wf(),
        ensures
            final(self).wf(),
            final(self).should_quit == (old(self).should_quit || *action == Action::Quit),
            final(self).selected_panel == (match *action {
                Action::PanelUp => if old(self).selected_panel > 0 {
                    old(self).selected_panel - 1
                } else {
                    old(self).selected_panel as int
                },
                Action::PanelDown => if old(self).selected_panel + 1 < old(self).panels@.len() {
                    old(self).selected_panel + 1
                } else {
                    old(self).selected_panel as int
                },
                _ => old(self).selected_panel as int,
            }),
            final(self).panels@ == (if *action == Action::ToggleCollapse
                && old(self).selected_panel < old(self).panels@.len() {
                old(self).panels@.update(
                    old(self).selected_panel as int,
                    PanelState {
                        collapsed: !old(self).panels@[old(self).selected_panel as int].collapsed,
                        ..old(self).panels@[old(self).selected_panel as int]
                    },
                )
            } else {
                old(self).panels@
            }),
            final(self).replay_controls == (match old(self).replay_controls {
                Some(c) => Some(controls_after(c, *action)),
                None => None,
            }),
    {
        match *action {
            Action::Quit => {
                self.should_quit = true;
            },
            Action::PanelUp => {
                if self.selected_panel > 0 {
                    self.selected_panel = self.selected_panel - 1;
                }
            },
            Action::PanelDown => {
                if self.selected_panel < self.panels.len() && self.selected_panel + 1 < self.panels.len() {
                    self.selected_panel = self.selected_panel + 1;
                }
            },
            Action::ToggleCollapse => {
                if self.selected_panel < self.panels.len() {
                    let p = self.panels[self.selected_panel];
                    self.panels.set(self.selected_panel, PanelState { collapsed: !p.collapsed, ..p });
                }
            },
            _ => {
                if let Some(mut c) = self.replay_controls {
                    match *action {
                        Action::TogglePause => c.toggle_pause(),
                        Action::SeekForward => {
                            c.seek_forward();
                            c.paused = true;
                        },
                        Action::SeekBackward => {
                            c.seek_backward();
                            c.paused = true;
                        },
                        Action::SpeedUp => c.speed_up(),
                        Action::SpeedDown => c.speed_down(),
                        Action::SeekStart => c.seek_start(),
                        Action::SeekEnd => c.seek_end(),
                        _ => {},
                    }
                    self.replay_controls = Some(c);
                }
            },
        }
    }
}

} // verus!
