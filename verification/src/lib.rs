//! Streaming text-to-speech: text segmentation, job scheduling, audio bookkeeping,
//! turn detection and configuration, as verified functions on plain values.

pub mod asr;
pub mod audio;
pub mod chunker;
pub mod deepseek;
pub mod generator;
pub mod internal;
pub mod metrics;
pub mod number;
pub mod pipeline;
pub mod player;
pub mod remote_tts_protocol;
pub mod sentence_splitter;
pub mod simulation;
pub mod streaming;
pub mod text;
pub mod time;
pub mod tokenizer;
pub mod turn;
pub mod worker;
