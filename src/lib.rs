//! Telemetry collection, derivation and recording for a JIT-based process
//! emulator: raw per-thread counters become per-sample deltas, deltas and a
//! resident-memory snapshot become load figures, and the resulting frames are
//! framed into a compressed, replayable recording.

pub mod accumulator;
pub mod controls;
pub mod dashboard;
pub mod display;
pub mod export;
pub mod ranking;
pub mod recording;
pub mod replay;
pub mod smaps;
pub mod text;
pub mod thread_stats;
pub mod types;
