//! Turns of a conversation: when one ends, and what belongs to it.

pub mod context;
pub mod smart_turn;
pub mod types;
pub mod vad_gate;
