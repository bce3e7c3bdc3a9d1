//! Speech recognition.

use crate::time::Timestamp;
use vstd::prelude::*;

pub mod sherpa;
pub mod utils;

verus! {

/// What was recognized in one stretch of speech, partial or final.
#[derive(Debug)]
pub struct AsrSegment {
    pub text: String,
    pub finished: bool,
    pub idx: usize,
    /// Where it starts, in samples of 16 kHz.
    pub start: usize,
    /// Where it ends, in samples of 16 kHz.
    pub end: usize,
    pub channel: Option<u16>,
}

/// An edge of voice activity.
///
/// `ts` is when it was detected, not where in the audio it lies.
#[derive(Debug, Clone, Copy, PartialEq, Eq, Structural)]
pub enum VadEvent {
    /// Speech started.
    SpeechStart { ts: Timestamp },
    /// Speech ended.
    SpeechEnd { ts: Timestamp, duration_ms: u32 },
}

/// Voice activity as it stands, for whoever did not see the edges.
#[derive(Debug, Clone, Copy, PartialEq, Eq, Structural)]
pub struct VadState {
    /// Whether someone speaks.
    pub speaking: bool,
    /// When that last changed.
    pub last_change_ts: Timestamp,
    /// Grows with each change.
    pub seq: u64,
}

impl VadState {
    /// Silence, from `now` on.
    pub fn new(now: Timestamp) -> (r: Self)
        ensures
            r == (VadState { speaking: false, last_change_ts: now, seq: 0 }),
    {
        VadState { speaking: false, last_change_ts: now, seq: 0 }
    }

    /// The state after a change.
    pub open spec fn changed(self, speaking: bool, now: Timestamp) -> Self {
        VadState {
            speaking,
            last_change_ts: now,
            seq: if self.seq == u64::MAX {
                u64::MAX
            } else {
                (self.seq + 1) as u64
            },
        }
    }
}

/// A change of voice activity is taken down with its time, and counted while the numbers last.
pub proof fn law_changes_are_counted(state: VadState, speaking: bool, now: Timestamp)
    ensures
        ({
            let after = state.changed(speaking, now);
            &&& after.speaking == speaking
            &&& after.last_change_ts == now
            &&& state.seq < u64::MAX ==> after.seq == state.seq + 1
            &&& state.seq == u64::MAX ==> after.seq == state.seq
        }),
{
}

} // verus!
