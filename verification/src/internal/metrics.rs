//! What is logged of a segment on its way from the language model to the speaker.

use crate::generator::TtsMetrics;
use crate::pipeline::{later, PlaybackDrain};
use crate::text::chars_of;
use crate::time::Timestamp;
use crate::tokenizer::TextSegment;
use vstd::prelude::*;
use vstd::string::*;

verus! {

/// The delays of the first token, in nanoseconds.
#[derive(Debug, Clone, Copy, PartialEq, Eq, Structural)]
pub struct TokenDelays {
    /// From the start of the language model to its first token.
    pub llm_delay: u64,
    /// From the first token to the segment.
    pub chunker_delay: u64,
}

/// The head of the log.
#[derive(Debug, Clone, Copy, PartialEq, Eq, Structural)]
pub struct SegmentIntro {
    pub token: Option<TokenDelays>,
}

/// The head of the log, which is written once.
pub fn log_segment_intro(segment: &TextSegment, intro_logged: &mut bool) -> (r: Option<SegmentIntro>)
    ensures
        *final(intro_logged),
        r == if *old(intro_logged) {
            None
        } else {
            Some(
                SegmentIntro {
                    token: match segment@.first_token_ts {
                        Some(t1) => Some(
                            TokenDelays {
                                llm_delay: t1.spec_nanos_since(segment@.llm_start_ts),
                                chunker_delay: segment@.segment_sent_ts.spec_nanos_since(t1),
                            },
                        ),
                        None => None,
                    },
                },
            )
        },
{
    if *intro_logged {
        return None;
    }
    *intro_logged = true;
    let token = match segment.first_token_ts {
        Some(t1) => Some(
            TokenDelays {
                llm_delay: t1.nanos_since(segment.llm_start_ts),
                chunker_delay: segment.segment_sent_ts.nanos_since(t1),
            },
        ),
        None => None,
    };
    Some(SegmentIntro { token })
}

/// What is logged of a segment that is played, in nanoseconds.
#[derive(Debug, Clone, Copy, PartialEq, Eq, Structural)]
pub struct PlaybackLog {
    /// From the segment to its first audio; of the first segment only.
    pub first_audio_delay: Option<u64>,
    /// From the start of the language model to the end of playback, where the end is known.
    pub play_done: Option<u64>,
    /// The characters of the segment.
    pub chars: usize,
}

/// What is logged of a segment that is played. An end of playback that is known is taken down in
/// `drain`; one that is reported later is to be logged then, by `log_play_done`.
pub fn log_playback_metrics(
    segment: &TextSegment,
    metrics: &TtsMetrics,
    drain: &mut PlaybackDrain,
) -> (r: PlaybackLog)
    ensures
        r.first_audio_delay == if segment@.first_token_ts is Some {
            Some(
                match metrics.first_audio_ts {
                    Some(ts) => ts,
                    None => metrics.start_ts,
                }.spec_nanos_since(segment@.segment_sent_ts),
            )
        } else {
            None
        },
        r.play_done == if metrics.play_done_reported {
            None
        } else {
            Some(metrics.play_done_ts.spec_nanos_since(segment@.llm_start_ts))
        },
        r.chars == segment@.text.len(),
        final(drain).last_done == if metrics.play_done_reported {
            old(drain).last_done
        } else {
            later(old(drain).last_done, metrics.play_done_ts)
        },
{
    let first_audio_ts = match metrics.first_audio_ts {
        Some(ts) => ts,
        None => metrics.start_ts,
    };
    let first_audio_delay = if segment.first_token_ts.is_some() {
        Some(first_audio_ts.nanos_since(segment.segment_sent_ts))
    } else {
        None
    };
    let play_done = if metrics.play_done_reported {
        None
    } else {
        Some(log_play_done(segment, metrics.play_done_ts, drain))
    };
    PlaybackLog { first_audio_delay, play_done, chars: chars_of(segment.text.as_str()).len() }
}

/// What is logged of an end of playback: the time from the start of the language model. The end is
/// taken down in `drain`.
pub fn log_play_done(segment: &TextSegment, ts: Timestamp, drain: &mut PlaybackDrain) -> (r: u64)
    ensures
        r == ts.spec_nanos_since(segment@.llm_start_ts),
        final(drain).last_done == later(old(drain).last_done, ts),
{
    drain.note_done(ts);
    ts.nanos_since(segment.llm_start_ts)
}

/// The head of the log is written once, with the delays of the first token where there is one.
pub proof fn law_head_of_the_log()
    ensures
        forall|segment: &TextSegment, logged: &mut bool, r: Option<SegmentIntro>|
            #[trigger] call_ensures(log_segment_intro, (segment, logged), r) ==> {
                &&& *final(logged)
                &&& r is Some <==> !*logged
                &&& r matches Some(intro) ==> (intro.token is Some
                    <==> segment@.first_token_ts is Some)
            },
{
}

/// An end of playback that is known is logged and taken down at once; one that is reported later is
/// neither.
pub proof fn law_known_ends_are_taken_down()
    ensures
        forall|segment: &TextSegment, m: &TtsMetrics, drain: &mut PlaybackDrain, r: PlaybackLog|
            #[trigger] call_ensures(log_playback_metrics, (segment, m, drain), r) ==> {
                &&& r.play_done is Some <==> !m.play_done_reported
                &&& r.first_audio_delay is Some <==> segment@.first_token_ts is Some
                &&& r.chars == segment@.text.len()
                &&& m.play_done_reported ==> (*final(drain)).last_done == (*drain).last_done
                &&& !m.play_done_reported && segment@.llm_start_ts.nanos <= m.play_done_ts.nanos
                    ==> r.play_done == Some(
                    (m.play_done_ts.nanos - segment@.llm_start_ts.nanos) as u64,
                )
            },
{
}

} // verus!
