//! Speaking chunks one after the other.

use crate::chunker::{queued_after_speech, Chunk};
use crate::time::Timestamp;
use vstd::prelude::*;

verus! {

/// The times of the first token, in nanoseconds.
#[derive(Debug, Clone, Copy, PartialEq, Eq, Structural)]
pub struct TokenTimes {
    /// From the start to the first token.
    pub llm_delay: u64,
    /// From the first token to the chunk.
    pub chunker_delay: u64,
    /// From the start to the chunk.
    pub chunker_abs: u64,
}

/// The times of the first chunk, in nanoseconds.
#[derive(Debug, Clone, Copy, PartialEq, Eq, Structural)]
pub struct FirstChunkTimes {
    pub token: Option<TokenTimes>,
    /// From the chunk to its playback.
    pub play_delay: u64,
    /// From the start to the playback.
    pub play_abs: u64,
}

/// What a player does with a chunk.
#[derive(Debug, Clone, Copy, PartialEq, Eq, Structural)]
pub enum PlayerStep {
    /// Playback was cancelled.
    Stop,
    /// Speak the chunk; the times of the first one are to be logged.
    Speak { times: Option<FirstChunkTimes> },
}

/// What is logged of a chunk that was spoken.
#[derive(Debug, Clone, Copy, PartialEq, Eq, Structural)]
pub struct SpokenLog {
    /// Whether it was the first chunk.
    pub first: bool,
    /// For the first chunk the time since it was sent, for another the time it took to speak it.
    pub delay: u64,
    /// The time since the start.
    pub abs: u64,
}

/// The times of a chunk whose playback starts now.
pub open spec fn times_of(chunk: Chunk, now: Timestamp) -> FirstChunkTimes {
    let play_abs = now.spec_nanos_since(chunk.task_start);
    let chunk_abs = chunk.chunk_sent_ts.spec_nanos_since(chunk.task_start);
    FirstChunkTimes {
        token: match chunk.first_token_ts {
            Some(t1) => Some(
                TokenTimes {
                    llm_delay: t1.spec_nanos_since(chunk.task_start),
                    chunker_delay: chunk.chunk_sent_ts.spec_nanos_since(t1),
                    chunker_abs: chunk_abs,
                },
            ),
            None => None,
        },
        play_delay: (play_abs - chunk_abs) as u64,
        play_abs,
    }
}

/// Whether no more time passed from the start to a chunk than to a point in time.
pub open spec fn was_sent(chunk: Chunk, now: Timestamp) -> bool {
    chunk.chunk_sent_ts.spec_nanos_since(chunk.task_start) <= now.spec_nanos_since(
        chunk.task_start,
    )
}

/// Whether no more time passed from the start to a chunk than to a point in time.
pub fn is_sent(chunk: &Chunk, now: Timestamp) -> (r: bool)
    ensures
        r == was_sent(*chunk, now),
{
    chunk.chunk_sent_ts.nanos_since(chunk.task_start) <= now.nanos_since(chunk.task_start)
}

/// A player of chunks.
#[derive(Debug, Clone, Copy, PartialEq, Eq, Structural)]
pub struct Player {
    /// Whether no chunk has come yet.
    pub first: bool,
}

impl Player {
    /// A player before its first chunk.
    pub fn new() -> (r: Self)
        ensures
            r.first,
    {
        Player { first: true }
    }

    /// Takes a chunk in. The first one that is spoken was sent before.
    pub fn on_chunk(&mut self, chunk: &Chunk, cancelled: bool, now: Timestamp) -> (r: PlayerStep)
        requires
            old(self).first && !cancelled ==> was_sent(*chunk, now),
        ensures
            r == if cancelled {
                PlayerStep::Stop
            } else if old(self).first {
                PlayerStep::Speak { times: Some(times_of(*chunk, now)) }
            } else {
                PlayerStep::Speak { times: None }
            },
            final(self).first == (old(self).first && cancelled),
    {
        if cancelled {
            return PlayerStep::Stop;
        }
        if !self.first {
            return PlayerStep::Speak { times: None };
        }
        self.first = false;
        let play_abs: u64 = now.nanos_since(chunk.task_start);
        let chunk_abs: u64 = chunk.chunk_sent_ts.nanos_since(chunk.task_start);
        let token = match chunk.first_token_ts {
            Some(t1) => Some(
                TokenTimes {
                    llm_delay: t1.nanos_since(chunk.task_start),
                    chunker_delay: chunk.chunk_sent_ts.nanos_since(t1),
                    chunker_abs: chunk_abs,
                },
            ),
            None => None,
        };
        let play_delay: u64 = play_abs - chunk_abs;
        PlayerStep::Speak { times: Some(FirstChunkTimes { token, play_delay, play_abs }) }
    }

    /// What is logged of a chunk that was spoken from `started` to `now`, and the speech that is
    /// queued behind it. One with a first token was sent before.
    pub fn on_spoken(
        &self,
        chunk: &Chunk,
        started: Timestamp,
        now: Timestamp,
        queued_ms: u64,
    ) -> (r: (SpokenLog, u64))
        requires
            chunk.first_token_ts is Some ==> was_sent(*chunk, now),
        ensures
            r.0 == (SpokenLog {
                first: chunk.first_token_ts is Some,
                delay: if chunk.first_token_ts is Some {
                    (now.spec_nanos_since(chunk.task_start)
                        - chunk.chunk_sent_ts.spec_nanos_since(chunk.task_start)) as u64
                } else {
                    now.spec_nanos_since(started)
                },
                abs: now.spec_nanos_since(chunk.task_start),
            }),
            r.1 == (queued_ms - chunk.est_ms) % 0x1_0000_0000_0000_0000,
    {
        let abs: u64 = now.nanos_since(chunk.task_start);
        let queued: u64 = queued_after_speech(queued_ms, chunk.est_ms);
        if chunk.first_token_ts.is_some() {
            let chunk_abs: u64 = chunk.chunk_sent_ts.nanos_since(chunk.task_start);
            (SpokenLog { first: true, delay: abs - chunk_abs, abs }, queued)
        } else {
            (SpokenLog { first: false, delay: now.nanos_since(started), abs }, queued)
        }
    }
}

/// The times of the first chunk add up where its points in time follow each other: the start, the
/// first token, the chunk, and its playback.
pub proof fn law_times_add_up(chunk: Chunk, token: Timestamp, now: Timestamp)
    requires
        chunk.first_token_ts == Some(token),
        chunk.task_start.nanos <= token.nanos <= chunk.chunk_sent_ts.nanos <= now.nanos,
    ensures
        was_sent(chunk, now),
        ({
            let times = times_of(chunk, now);
            &&& times.token is Some
            &&& times.token->0.llm_delay == token.nanos - chunk.task_start.nanos
            &&& times.token->0.chunker_delay == chunk.chunk_sent_ts.nanos - token.nanos
            &&& times.token->0.chunker_abs == times.token->0.llm_delay
                + times.token->0.chunker_delay
            &&& times.play_delay == now.nanos - chunk.chunk_sent_ts.nanos
            &&& times.play_abs == times.token->0.chunker_abs + times.play_delay
        }),
{
}

/// A chunk was sent by a point in time unless it was sent later; without a first token only the
/// times of its playback are told.
pub proof fn law_sent_by_now(chunk: Chunk, now: Timestamp)
    requires
        chunk.task_start.nanos <= chunk.chunk_sent_ts.nanos,
        chunk.task_start.nanos <= now.nanos,
    ensures
        was_sent(chunk, now) <==> chunk.chunk_sent_ts.nanos <= now.nanos,
        times_of(chunk, now).token is Some <==> chunk.first_token_ts is Some,
        times_of(chunk, now).play_abs == now.nanos - chunk.task_start.nanos,
{
}

/// Nothing is spoken once playback is cancelled; the times of the first chunk that is spoken are
/// told, and of no other.
pub proof fn law_chunks_are_spoken()
    ensures
        forall|p: &mut Player, chunk: &Chunk, cancelled: bool, now: Timestamp, r: PlayerStep|
            #[trigger] call_ensures(Player::on_chunk, (p, chunk, cancelled, now), r) ==> {
                &&& r is Stop <==> cancelled
                &&& cancelled ==> (*final(p)).first == (*p).first
                &&& !cancelled ==> !(*final(p)).first
                &&& r matches PlayerStep::Speak { times } ==> (times is Some <==> (*p).first)
                &&& r matches PlayerStep::Speak { times } ==> (times is Some ==> times == Some(
                    times_of(*chunk, now),
                ))
            },
{
}

/// What a chunk has added to the queue leaves it once it is spoken.
pub proof fn law_spoken_chunks_leave_the_queue(
    p: &Player,
    chunk: &Chunk,
    started: Timestamp,
    now: Timestamp,
    queued_ms: u64,
    r: (SpokenLog, u64),
)
    requires
        call_ensures(Player::on_spoken, (p, chunk, started, now, queued_ms), r),
        chunk.task_start.nanos <= chunk.chunk_sent_ts.nanos <= now.nanos,
        started.nanos <= now.nanos,
    ensures
        queued_ms >= chunk.est_ms ==> r.1 == queued_ms - chunk.est_ms,
        r.0.first <==> chunk.first_token_ts is Some,
        r.0.abs == now.nanos - chunk.task_start.nanos,
        r.0.first ==> r.0.delay == now.nanos - chunk.chunk_sent_ts.nanos,
        !r.0.first ==> r.0.delay == now.nanos - started.nanos,
{
}

} // verus!
