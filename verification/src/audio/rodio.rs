//! Playback through a ring buffer: what is written, what is played, and when.

use super::queue::SampleQueue;
use super::{playing_ms, samples_to_ms, CancelScope, CancelToken, RodioConfig};
use crate::time::Timestamp;
use std::collections::VecDeque;
use vstd::prelude::*;

verus! {

/// After how many samples the end markers are looked at.
pub const MARKER_CHECK_INTERVAL: u64 = 256;

/// How many samples the ring buffer holds.
pub open spec fn ring_capacity_of(config: RodioConfig) -> nat {
    config.sample_rate as nat * config.ring_seconds as nat * config.channels as nat
}

/// How many samples are buffered before playback starts.
pub open spec fn prebuffer_of(config: RodioConfig) -> nat {
    (config.sample_rate as nat * config.prefill_ms as nat) / 1000 * config.channels as nat
}

/// How many samples the ring buffer holds.
pub fn ring_capacity(config: &RodioConfig) -> (r: usize)
    requires
        config.in_range(),
    ensures
        r == ring_capacity_of(*config),
        8_000 <= r <= 11_520_000,
{
    proof {
        assert(8_000 <= config.sample_rate * config.ring_seconds <= 5_760_000) by (nonlinear_arith)
            requires
                8_000 <= config.sample_rate <= 96_000,
                1 <= config.ring_seconds <= 60,
        ;
        let x = config.sample_rate * config.ring_seconds;
        assert(8_000 <= x * config.channels <= 11_520_000) by (nonlinear_arith)
            requires
                8_000 <= x <= 5_760_000,
                1 <= config.channels <= 2,
        ;
    }
    (config.sample_rate as u64 * config.ring_seconds * config.channels as u64) as usize
}

/// How many samples are buffered before playback starts.
pub fn prebuffer_samples(config: &RodioConfig) -> (r: u64)
    requires
        config.in_range(),
    ensures
        r == prebuffer_of(*config),
{
    proof {
        assert(0 <= config.sample_rate * config.prefill_ms <= 192_000_000) by (nonlinear_arith)
            requires
                8_000 <= config.sample_rate <= 96_000,
                0 <= config.prefill_ms <= 2_000,
        ;
        let x = config.sample_rate * config.prefill_ms / 1000;
        assert(0 <= x * config.channels <= 384_000_000) by (nonlinear_arith)
            requires
                0 <= x <= 192_000_000,
                1 <= config.channels <= 2,
        ;
    }
    config.sample_rate as u64 * config.prefill_ms / 1000 * config.channels as u64
}

/// A moment in playback: so many samples after the stream started.
#[derive(Debug, Clone, Copy, PartialEq, Eq, Structural)]
pub struct SamplePoint {
    pub stream_start: Timestamp,
    pub sample: u64,
}

/// Where playback is told to whoever waits for it.
#[derive(Debug)]
pub struct PlayMarker<D> {
    /// Once so many samples are consumed, the segment is played.
    pub end_sample: u64,
    /// Who waits.
    pub done: D,
}

/// What has been written and played, with waiters of type `D`.
#[derive(Debug)]
pub struct PlaybackState<D> {
    /// Whether samples are consumed.
    pub started: bool,
    pub stream_start: Option<Timestamp>,
    /// How many samples were output, silence counted in.
    pub played_samples: u64,
    /// How many samples were written.
    pub written_samples: u64,
    /// How many written samples were output.
    pub consumed_samples: u64,
    /// How many samples are buffered before playback starts.
    pub prebuffer_samples: u64,
    pub markers: VecDeque<PlayMarker<D>>,
}

/// How many of the first markers are reached once `consumed` samples are.
pub open spec fn reached<D>(markers: Seq<PlayMarker<D>>, consumed: u64) -> int
    decreases markers.len(),
{
    if markers.len() == 0 || markers[0].end_sample > consumed {
        0
    } else {
        1 + reached(markers.skip(1), consumed)
    }
}

/// The waiters of markers, in order.
pub open spec fn waiters<D>(markers: Seq<PlayMarker<D>>) -> Seq<D> {
    markers.map_values(|m: PlayMarker<D>| m.done)
}

/// `a + b` modulo the number of `u64` values.
pub open spec fn wrapped_sum(a: u64, b: u64) -> u64 {
    ((a + b) % 0x1_0000_0000_0000_0000) as u64
}

/// Markers that are reached are at the front.
pub proof fn lemma_reached_bound<D>(markers: Seq<PlayMarker<D>>, consumed: u64)
    ensures
        0 <= reached(markers, consumed) <= markers.len(),
        forall|i: int|
            0 <= i < reached(markers, consumed) ==> (#[trigger] markers[i]).end_sample <= consumed,
        reached(markers, consumed) < markers.len() ==> markers[reached(
            markers,
            consumed,
        )].end_sample > consumed,
    decreases markers.len(),
{
    if markers.len() > 0 && markers[0].end_sample <= consumed {
        let rest = markers.skip(1);
        lemma_reached_bound(rest, consumed);
        assert forall|i: int| 0 <= i < reached(markers, consumed) implies (
        #[trigger] markers[i]).end_sample <= consumed by {
            if i > 0 {
                assert(rest[i - 1] == markers[i]);
            }
        }
    }
}

impl<D> PlaybackState<D> {
    /// Nothing written, nothing played.
    pub fn new(prebuffer_samples: u64) -> (r: Self)
        ensures
            !r.started,
            r.stream_start is None,
            r.played_samples == 0,
            r.written_samples == 0,
            r.consumed_samples == 0,
            r.prebuffer_samples == prebuffer_samples,
            r.markers@ == Seq::<PlayMarker<D>>::empty(),
    {
        PlaybackState {
            started: false,
            stream_start: None,
            played_samples: 0,
            written_samples: 0,
            consumed_samples: 0,
            prebuffer_samples,
            markers: VecDeque::new(),
        }
    }

    /// Where a segment that is written now starts: behind all that was written, and behind all
    /// that was consumed.
    pub fn begin_write(&mut self) -> (r: u64)
        ensures
            r == if old(self).written_samples < old(self).consumed_samples {
                old(self).consumed_samples
            } else {
                old(self).written_samples
            },
            *final(self) == (PlaybackState { written_samples: r, ..*old(self) }),
    {
        if self.written_samples < self.consumed_samples {
            self.written_samples = self.consumed_samples;
        }
        self.written_samples
    }

    /// Notes that samples were written.
    pub fn on_write(&mut self, samples: u64)
        ensures
            *final(self) == (PlaybackState {
                written_samples: wrapped_sum(old(self).written_samples, samples),
                ..*old(self)
            }),
    {
        self.written_samples = self.written_samples.wrapping_add(samples);
    }

    /// The waiters that the next output sample reaches.
    pub open spec fn reached_by_output(self, consumed: bool) -> int {
        let played = wrapped_sum(self.played_samples, 1);
        let total = if consumed {
            wrapped_sum(self.consumed_samples, 1)
        } else {
            self.consumed_samples
        };
        if played % MARKER_CHECK_INTERVAL == 0 {
            reached(self.markers@, total)
        } else {
            0
        }
    }

    /// Notes that a sample was output, a written one or silence; returns who is told that
    /// playback is done.
    pub fn on_output_sample(&mut self, consumed: bool) -> (r: Vec<D>)
        ensures
            final(self).started == old(self).started,
            final(self).stream_start == old(self).stream_start,
            final(self).played_samples == wrapped_sum(old(self).played_samples, 1),
            final(self).written_samples == old(self).written_samples,
            final(self).consumed_samples == if consumed {
                wrapped_sum(old(self).consumed_samples, 1)
            } else {
                old(self).consumed_samples
            },
            final(self).prebuffer_samples == old(self).prebuffer_samples,
            r@ == waiters(old(self).markers@.take(old(self).reached_by_output(consumed))),
            final(self).markers@ == old(self).markers@.skip(old(self).reached_by_output(consumed)),
            final(self).played_samples % 256 == 0 && final(self).markers@.len() > 0
                ==> final(self).markers@[0].end_sample > final(self).consumed_samples,
    {
        proof {
            law_consumed_segments_are_told(*old(self), consumed);
        }
        self.played_samples = self.played_samples.wrapping_add(1);
        if consumed {
            self.consumed_samples = self.consumed_samples.wrapping_add(1);
        }
        if self.played_samples % MARKER_CHECK_INTERVAL == 0 {
            let total: u64 = self.consumed_samples;
            self.check_markers(total)
        } else {
            proof {
                assert(old(self).markers@.skip(0) =~= old(self).markers@);
                assert(waiters(old(self).markers@.take(0)) =~= Seq::<D>::empty());
            }
            Vec::new()
        }
    }

    /// Forgets everything; returns all who wait.
    pub fn reset(&mut self) -> (r: Vec<D>)
        ensures
            r@ == waiters(old(self).markers@),
            !final(self).started,
            final(self).stream_start is None,
            final(self).played_samples == 0,
            final(self).written_samples == 0,
            final(self).consumed_samples == 0,
            final(self).prebuffer_samples == old(self).prebuffer_samples,
            final(self).markers@ == Seq::<PlayMarker<D>>::empty(),
    {
        self.started = false;
        self.stream_start = None;
        self.played_samples = 0;
        self.written_samples = 0;
        self.consumed_samples = 0;
        self.clear_markers()
    }

    /// Starts playback where enough is buffered; returns when the stream started, if it has.
    pub fn try_start(&mut self, buffered_samples: u64, now: Timestamp) -> (r: Option<Timestamp>)
        ensures
            r == if !old(self).started && buffered_samples < old(self).prebuffer_samples {
                None
            } else {
                final(self).stream_start
            },
            *final(self) == if old(self).started || buffered_samples < old(
                self,
            ).prebuffer_samples {
                *old(self)
            } else {
                PlaybackState {
                    started: true,
                    stream_start: if old(self).stream_start is Some {
                        old(self).stream_start
                    } else {
                        Some(now)
                    },
                    ..*old(self)
                }
            },
    {
        if self.started {
            return self.stream_start;
        }
        if buffered_samples < self.prebuffer_samples {
            return None;
        }
        if self.stream_start.is_none() {
            self.stream_start = Some(now);
        }
        self.started = true;
        self.stream_start
    }

    /// Starts playback, however little is buffered; returns when the stream started.
    pub fn force_start(&mut self, now: Timestamp) -> (r: Timestamp)
        ensures
            r == match old(self).stream_start {
                Some(ts) => ts,
                None => now,
            },
            *final(self) == (PlaybackState { started: true, stream_start: Some(r), ..*old(self) }),
    {
        match self.stream_start {
            Some(ts) => {
                self.started = true;
                ts
            },
            None => {
                self.stream_start = Some(now);
                self.started = true;
                now
            },
        }
    }

    /// Lets `done` wait until `end_sample` samples are consumed; returned where they are already.
    pub fn push_marker(&mut self, end_sample: u64, done: D) -> (r: Option<D>)
        ensures
            if old(self).consumed_samples >= end_sample {
                r == Some(done) && *final(self) == *old(self)
            } else {
                &&& r is None
                &&& final(self).markers@ == old(self).markers@.push(PlayMarker { end_sample, done })
                &&& final(self).started == old(self).started
                &&& final(self).stream_start == old(self).stream_start
                &&& final(self).played_samples == old(self).played_samples
                &&& final(self).written_samples == old(self).written_samples
                &&& final(self).consumed_samples == old(self).consumed_samples
                &&& final(self).prebuffer_samples == old(self).prebuffer_samples
            },
    {
        if self.consumed_samples >= end_sample {
            return Some(done);
        }
        self.markers.push_back(PlayMarker { end_sample, done });
        None
    }

    /// Takes all markers away; returns all who wait.
    pub fn clear_markers(&mut self) -> (r: Vec<D>)
        ensures
            r@ == waiters(old(self).markers@),
            final(self).markers@ == Seq::<PlayMarker<D>>::empty(),
            final(self).started == old(self).started,
            final(self).stream_start == old(self).stream_start,
            final(self).played_samples == old(self).played_samples,
            final(self).written_samples == old(self).written_samples,
            final(self).consumed_samples == old(self).consumed_samples,
            final(self).prebuffer_samples == old(self).prebuffer_samples,
    {
        let mut out: Vec<D> = Vec::new();
        let ghost all = self.markers@;
        while self.markers.len() > 0
            invariant
                out@ + waiters(self.markers@) =~= waiters(all),
                self.started == old(self).started,
                self.stream_start == old(self).stream_start,
                self.played_samples == old(self).played_samples,
                self.written_samples == old(self).written_samples,
                self.consumed_samples == old(self).consumed_samples,
                self.prebuffer_samples == old(self).prebuffer_samples,
            decreases self.markers@.len(),
        {
            let ghost before = self.markers@;
            let ghost had = out@;
            if let Some(marker) = self.markers.pop_front() {
                out.push(marker.done);
                proof {
                    assert(waiters(before) =~= seq![before[0].done] + waiters(self.markers@));
                    assert(out@ + waiters(self.markers@) =~= had + waiters(before));
                }
            }
        }
        proof {
            assert(waiters(self.markers@) =~= Seq::<D>::empty());
            assert(out@ =~= waiters(all));
        }
        out
    }

    /// Takes the markers away that are reached; returns who waits for them.
    pub fn check_markers(&mut self, consumed_samples: u64) -> (r: Vec<D>)
        ensures
            r@ == waiters(
                old(self).markers@.take(reached(old(self).markers@, consumed_samples)),
            ),
            final(self).markers@ == old(self).markers@.skip(
                reached(old(self).markers@, consumed_samples),
            ),
            final(self).started == old(self).started,
            final(self).stream_start == old(self).stream_start,
            final(self).played_samples == old(self).played_samples,
            final(self).written_samples == old(self).written_samples,
            final(self).consumed_samples == old(self).consumed_samples,
            final(self).prebuffer_samples == old(self).prebuffer_samples,
    {
        let mut out: Vec<D> = Vec::new();
        let ghost all = self.markers@;
        let ghost mut taken: int = 0;
        proof {
            assert(all.skip(0) =~= all);
            assert(waiters(all.take(0)) =~= Seq::<D>::empty());
        }
        while self.markers.len() > 0 && self.markers[0].end_sample <= consumed_samples
            invariant
                0 <= taken <= all.len(),
                self.markers@ == all.skip(taken),
                out@ == waiters(all.take(taken)),
                reached(all, consumed_samples) == taken + reached(self.markers@, consumed_samples),
                self.started == old(self).started,
                self.stream_start == old(self).stream_start,
                self.played_samples == old(self).played_samples,
                self.written_samples == old(self).written_samples,
                self.consumed_samples == old(self).consumed_samples,
                self.prebuffer_samples == old(self).prebuffer_samples,
            decreases self.markers@.len(),
        {
            let ghost before = self.markers@;
            if let Some(marker) = self.markers.pop_front() {
                out.push(marker.done);
                proof {
                    assert(before.skip(1) =~= self.markers@);
                    assert(all.skip(taken).skip(1) =~= all.skip(taken + 1));
                    assert(waiters(all.take(taken)).push(all[taken].done) =~= waiters(
                        all.take(taken + 1),
                    ));
                    taken = taken + 1;
                }
            }
        }
        out
    }
}

/// Looking at the markers loses nobody: those told and those who still wait are those who
/// waited, in order; all told are reached, and the first who still waits is not.
pub proof fn law_no_waiter_is_lost<D>(markers: Seq<PlayMarker<D>>, consumed: u64)
    ensures
        ({
            let n = reached(markers, consumed);
            &&& waiters(markers.take(n)) + waiters(markers.skip(n)) == waiters(markers)
            &&& forall|i: int| 0 <= i < n ==> (#[trigger] markers[i]).end_sample <= consumed
            &&& n < markers.len() ==> markers[n].end_sample > consumed
        }),
{
    lemma_reached_bound(markers, consumed);
    let n = reached(markers, consumed);
    assert(waiters(markers.take(n)) + waiters(markers.skip(n)) =~= waiters(markers));
}

/// The output sample at which a written sample plays: later by as many samples as were silence,
/// and not before what is already played.
pub open spec fn wall_sample_of(played: u64, consumed: u64, sample: u64) -> u64 {
    let gap = if played < consumed {
        0
    } else {
        played - consumed
    };
    let wall = if sample + gap > u64::MAX {
        u64::MAX as int
    } else {
        sample + gap
    };
    if wall < played {
        played
    } else {
        wall as u64
    }
}

/// The output sample at which a written sample plays.
pub fn wall_sample(played: u64, consumed: u64, sample: u64) -> (r: u64)
    ensures
        r == wall_sample_of(played, consumed, sample),
{
    let gap: u64 = played.saturating_sub(consumed);
    let wall: u64 = sample.saturating_add(gap);
    if wall < played {
        played
    } else {
        wall
    }
}

/// The samples on their way to the output.
pub struct RingBuffer {
    pub queue: SampleQueue,
    /// How often the buffer was found full.
    pub full_count: u64,
    /// How long writers had to wait, in microseconds.
    pub blocked_us: u64,
}

/// How far a write into the ring buffer has come.
#[derive(Debug, Clone, Copy, PartialEq, Eq, Structural)]
pub struct PushProgress {
    pub written: usize,
    /// How often in a row the buffer was found full.
    pub backoff: u32,
    /// How often the buffer was found full.
    pub full_events: u64,
}

/// What a writer does next.
#[derive(Debug, Clone, Copy, PartialEq, Eq, Structural)]
pub enum PushStep {
    /// The write is over.
    Done,
    /// The buffer is full: try again after the delay.
    Wait { delay_us: u64 },
}

/// How long to wait when the buffer was full `backoff` times before.
pub open spec fn backoff_delay(backoff: u32) -> u64 {
    if backoff == 0 {
        100
    } else if backoff == 1 {
        200
    } else if backoff == 2 {
        400
    } else {
        800
    }
}

/// How many of `wanted` samples fit.
pub open spec fn fitting(len: nat, capacity: nat, wanted: int) -> int {
    let room = if len < capacity {
        capacity - len
    } else {
        0
    };
    if wanted < room {
        wanted
    } else {
        room
    }
}

impl RingBuffer {
    /// An empty ring buffer.
    pub fn new(capacity: usize) -> (r: Self)
        requires
            0 < capacity <= isize::MAX / 16,
        ensures
            r.queue@ == Seq::<i64>::empty(),
            r.queue.capacity() == capacity,
            r.full_count == 0,
            r.blocked_us == 0,
    {
        RingBuffer { queue: SampleQueue::new(capacity), full_count: 0, blocked_us: 0 }
    }

    /// Writes as many samples as fit, and says whether to go on. A cancelled write is over.
    pub fn push_step(
        &mut self,
        data: &Vec<i64>,
        progress: &mut PushProgress,
        cancelled: bool,
    ) -> (r: PushStep)
        requires
            old(progress).written <= data@.len(),
        ensures
            ({
                let from = old(progress).written as int;
                let n = fitting(
                    old(self).queue@.len(),
                    old(self).queue.capacity(),
                    data@.len() - from,
                );
                if cancelled || from == data@.len() {
                    &&& r == PushStep::Done
                    &&& *final(self) == *old(self)
                    &&& *final(progress) == *old(progress)
                } else {
                    let backoff = if n > 0 {
                        0
                    } else {
                        old(progress).backoff
                    };
                    &&& final(self).queue@ == old(self).queue@ + data@.subrange(from, from + n)
                    &&& final(progress).written == from + n
                    &&& if from + n == data@.len() {
                        &&& r == PushStep::Done
                        &&& final(progress).backoff == 0
                        &&& final(progress).full_events == old(progress).full_events
                    } else {
                        &&& r == PushStep::Wait { delay_us: backoff_delay(backoff) }
                        &&& final(progress).backoff == if backoff == u32::MAX {
                            u32::MAX
                        } else {
                            (backoff + 1) as u32
                        }
                        &&& final(progress).full_events == if old(progress).full_events
                            == u64::MAX {
                            u64::MAX
                        } else {
                            (old(progress).full_events + 1) as u64
                        }
                    }
                }
            }),
            final(self).queue.capacity() == old(self).queue.capacity(),
            final(self).full_count == old(self).full_count,
            final(self).blocked_us == old(self).blocked_us,
    {
        if cancelled || progress.written == data.len() {
            return PushStep::Done;
        }
        let ghost from = progress.written as int;
        let ghost start = self.queue@;
        let ghost events = progress.full_events;
        let ghost first_backoff = progress.backoff;
        let ghost cap = self.queue.capacity();
        proof {
            assert(start + data@.subrange(from, from) =~= start);
        }
        while progress.written < data.len()
            invariant
                from <= progress.written <= data@.len(),
                from < data@.len(),
                !cancelled,
                self.queue@ == start + data@.subrange(from, progress.written as int),
                self.queue.capacity() == cap,
                progress.full_events == events,
                progress.backoff == if progress.written > from {
                    0
                } else {
                    first_backoff
                },
                progress.written - from <= fitting(start.len(), cap, data@.len() - from),
                self.full_count == old(self).full_count,
                self.blocked_us == old(self).blocked_us,
                from == old(progress).written,
                start == old(self).queue@,
                events == old(progress).full_events,
                first_backoff == old(progress).backoff,
                cap == old(self).queue.capacity(),
            decreases data@.len() - progress.written,
        {
            let ghost before = self.queue@;
            if self.queue.push(data[progress.written]) {
                proof {
                    let w = progress.written as int;
                    assert(self.queue@ =~= start + data@.subrange(from, w + 1));
                }
                progress.written = progress.written + 1;
                progress.backoff = 0;
            } else {
                proof {
                    assert(before.len() == start.len() + (progress.written - from));
                    assert(progress.written - from == fitting(
                        start.len(),
                        cap,
                        data@.len() - from,
                    ));
                }
                let delay_us: u64 = if progress.backoff == 0 {
                    100
                } else if progress.backoff == 1 {
                    200
                } else if progress.backoff == 2 {
                    400
                } else {
                    800
                };
                progress.full_events = progress.full_events.saturating_add(1);
                progress.backoff = progress.backoff.saturating_add(1);
                return PushStep::Wait { delay_us };
            }
        }
        PushStep::Done
    }

    /// Counts what a write met; says whether the wait was long enough to report.
    pub fn note_push(&mut self, full_events: u64, elapsed_us: u64) -> (r: bool)
        ensures
            r == (full_events > 0 && elapsed_us >= 1000),
            final(self).full_count == wrapped_sum(old(self).full_count, full_events),
            final(self).blocked_us == if r {
                wrapped_sum(old(self).blocked_us, elapsed_us)
            } else {
                old(self).blocked_us
            },
            final(self).queue == old(self).queue,
    {
        if full_events == 0 {
            return false;
        }
        self.full_count = self.full_count.wrapping_add(full_events);
        if elapsed_us >= 1000 {
            self.blocked_us = self.blocked_us.wrapping_add(elapsed_us);
            true
        } else {
            false
        }
    }
}

/// The output side of a stream: the ring buffer, what was played, and who writes.
pub struct RodioCore<D> {
    pub ring: RingBuffer,
    pub playback: PlaybackState<D>,
    pub sample_rate: u32,
    pub channels: u16,
    /// Whether a segment is being written.
    pub active_writer: bool,
}

/// Writes one segment.
#[derive(Debug, Clone, Copy, PartialEq, Eq, Structural)]
pub struct RodioSegmentWriter {
    /// Whether this writer may write; only one may at a time.
    pub active: bool,
    /// The scope in which the segment was begun: once it is void, nothing is written.
    pub scope: CancelScope,
    /// Where the segment starts, in written samples.
    pub start_written: Option<u64>,
    /// How many samples of the segment are written.
    pub written_total: u64,
    /// When its first sample plays.
    pub first_audio: Option<SamplePoint>,
}

/// When playback of a segment is done.
#[derive(Debug, Clone, Copy, PartialEq, Eq, Structural)]
pub enum PlayTime {
    At(Timestamp),
    AtSample(SamplePoint),
}

/// When a segment plays.
#[derive(Debug, Clone, Copy, PartialEq, Eq, Structural)]
pub struct SegmentPlayback {
    /// When its first sample plays, where it has one.
    pub first_audio: Option<SamplePoint>,
    /// When it is played, as far as known by now.
    pub play_done: PlayTime,
    /// Whether the actual end is reported later.
    pub play_done_reported: bool,
}

/// What has become of a waiter.
#[derive(Debug)]
pub enum MarkerFate<D> {
    /// Nothing was written, so nobody is to be told.
    Unused(D),
    /// Everything is played: tell at once.
    Reached(D),
    /// It waits for playback.
    Queued,
}

impl<D> RodioCore<D> {
    /// A stream set up by a configuration, whose numbers are brought into their ranges first.
    pub fn from_config(config: RodioConfig) -> (r: Self)
        ensures
            r.ring.queue@ == Seq::<i64>::empty(),
            r.ring.queue.capacity() == ring_capacity_of(config.normalized()),
            r.ring.full_count == 0,
            r.ring.blocked_us == 0,
            r.playback.played_samples == 0,
            r.playback.written_samples == 0,
            r.playback.consumed_samples == 0,
            r.playback.prebuffer_samples == prebuffer_of(config.normalized()),
            !r.playback.started,
            r.playback.stream_start is None,
            r.playback.markers@ == Seq::<PlayMarker<D>>::empty(),
            r.sample_rate == config.normalized().sample_rate,
            r.channels == config.normalized().channels,
            !r.active_writer,
    {
        let config = config.normalize();
        RodioCore {
            ring: RingBuffer::new(ring_capacity(&config)),
            playback: PlaybackState::new(prebuffer_samples(&config)),
            sample_rate: config.sample_rate,
            channels: config.channels,
            active_writer: false,
        }
    }

    /// Begins a segment; it is dropped where another is being written.
    pub fn begin_segment(&mut self, scope: CancelScope) -> (r: RodioSegmentWriter)
        ensures
            r == (RodioSegmentWriter {
                active: !old(self).active_writer,
                scope,
                start_written: None,
                written_total: 0,
                first_audio: None,
            }),
            *final(self) == (RodioCore { active_writer: true, ..*old(self) }),
    {
        let active = !self.active_writer;
        self.active_writer = true;
        RodioSegmentWriter {
            active,
            scope,
            start_written: None,
            written_total: 0,
            first_audio: None,
        }
    }

    /// Stops playback and drops what is queued; returns all who wait for it.
    pub fn stop(&mut self) -> (r: Vec<D>)
        ensures
            r@ == waiters(old(self).playback.markers@),
            final(self).ring.queue@ == Seq::<i64>::empty(),
            final(self).ring.queue.capacity() == old(self).ring.queue.capacity(),
            final(self).ring.full_count == old(self).ring.full_count,
            final(self).ring.blocked_us == old(self).ring.blocked_us,
            !final(self).playback.started,
            final(self).playback.stream_start is None,
            final(self).playback.played_samples == 0,
            final(self).playback.written_samples == 0,
            final(self).playback.consumed_samples == 0,
            final(self).playback.prebuffer_samples == old(self).playback.prebuffer_samples,
            final(self).playback.markers@ == Seq::<PlayMarker<D>>::empty(),
            !final(self).active_writer,
            final(self).sample_rate == old(self).sample_rate,
            final(self).channels == old(self).channels,
    {
        let told = self.playback.reset();
        self.ring.queue.clear();
        self.active_writer = false;
        told
    }

    /// How much audio is queued, in milliseconds.
    pub fn buffered_ms(&self) -> (r: Option<u64>)
        ensures
            r == if self.sample_rate as nat * self.channels as nat == 0 {
                None
            } else {
                Some(
                    playing_ms(
                        self.ring.queue@.len(),
                        self.sample_rate as nat,
                        self.channels as nat,
                    ) as u64,
                )
            },
    {
        proof {
            assert(self.sample_rate as nat * self.channels as nat == 0 <==> self.sample_rate == 0
                || self.channels == 0) by (nonlinear_arith);
        }
        if self.sample_rate == 0 || self.channels == 0 {
            return None;
        }
        let queued: usize = self.ring.queue.len();
        Some(samples_to_ms(queued as u64, self.sample_rate, self.channels))
    }

    /// The next sample to output, silence where there is none; and who is told that playback is
    /// done. Before playback has started there is silence, and nothing is counted.
    pub fn next_sample(&mut self) -> (r: (Option<i64>, Vec<D>))
        ensures
            if !old(self).playback.started {
                r.0 is None && r.1@ == Seq::<D>::empty() && *final(self) == *old(self)
            } else {
                let had = old(self).ring.queue@;
                let n = old(self).playback.reached_by_output(had.len() > 0);
                &&& r.0 == if had.len() > 0 {
                    Some(had[0])
                } else {
                    None
                }
                &&& final(self).ring.queue@ == if had.len() > 0 {
                    had.skip(1)
                } else {
                    had
                }
                &&& r.1@ == waiters(old(self).playback.markers@.take(n))
                &&& final(self).playback.markers@ == old(self).playback.markers@.skip(n)
                &&& final(self).playback.played_samples == wrapped_sum(
                    old(self).playback.played_samples,
                    1,
                )
                &&& final(self).playback.consumed_samples == if had.len() > 0 {
                    wrapped_sum(old(self).playback.consumed_samples, 1)
                } else {
                    old(self).playback.consumed_samples
                }
                &&& final(self).playback.started
                &&& final(self).playback.stream_start == old(self).playback.stream_start
                &&& final(self).playback.written_samples == old(self).playback.written_samples
                &&& final(self).playback.prebuffer_samples == old(self).playback.prebuffer_samples
                &&& final(self).ring.queue.capacity() == old(self).ring.queue.capacity()
                &&& final(self).ring.full_count == old(self).ring.full_count
                &&& final(self).ring.blocked_us == old(self).ring.blocked_us
                &&& final(self).active_writer == old(self).active_writer
                &&& final(self).sample_rate == old(self).sample_rate
                &&& final(self).channels == old(self).channels
            },
    {
        if !self.playback.started {
            return (None, Vec::new());
        }
        let sample = self.ring.queue.pop();
        let told = self.playback.on_output_sample(sample.is_some());
        (sample, told)
    }
}

impl RodioSegmentWriter {
    /// Whether samples of this segment are written at all.
    pub fn accepts(&self, token: &CancelToken, samples: usize) -> (r: bool)
        ensures
            r == (self.active && !self.scope.is_void(*token) && samples > 0),
    {
        self.active && !self.scope.is_cancelled(token) && samples > 0
    }

    /// Before samples are written: the first of them fix where the segment starts.
    pub fn begin_push<D>(&mut self, core: &mut RodioCore<D>)
        ensures
            final(self).start_written is Some,
            *final(self) == (RodioSegmentWriter {
                start_written: final(self).start_written,
                ..*old(self)
            }),
            if old(self).start_written is Some {
                final(self).start_written == old(self).start_written && *final(core) == *old(core)
            } else {
                let start = if old(core).playback.written_samples < old(
                    core,
                ).playback.consumed_samples {
                    old(core).playback.consumed_samples
                } else {
                    old(core).playback.written_samples
                };
                &&& final(self).start_written == Some(start)
                &&& *final(core) == (RodioCore {
                    playback: PlaybackState {
                        written_samples: start,
                        ..old(core).playback
                    },
                    ..*old(core)
                })
            },
    {
        if self.start_written.is_none() {
            self.start_written = Some(core.playback.begin_write());
        }
    }

    /// When the segment's first sample plays, seen from the state of playback.
    pub open spec fn first_audio_from<D>(
        self,
        playback: PlaybackState<D>,
        stream_start: Timestamp,
    ) -> Option<SamplePoint> {
        if self.first_audio is Some {
            self.first_audio
        } else {
            match self.start_written {
                Some(start) => Some(
                    SamplePoint {
                        stream_start,
                        sample: wall_sample_of(
                            playback.played_samples,
                            playback.consumed_samples,
                            start,
                        ),
                    },
                ),
                None => None,
            }
        }
    }

    /// Notes when the segment's first sample plays, the first time that can be told.
    fn update_first_audio<D>(&mut self, core: &RodioCore<D>, stream_start: Timestamp)
        ensures
            *final(self) == (RodioSegmentWriter {
                first_audio: old(self).first_audio_from(core.playback, stream_start),
                ..*old(self)
            }),
    {
        if self.first_audio.is_none() {
            if let Some(start) = self.start_written {
                let sample: u64 = wall_sample(
                    core.playback.played_samples,
                    core.playback.consumed_samples,
                    start,
                );
                self.first_audio = Some(SamplePoint { stream_start, sample });
            }
        }
    }

    /// After samples were written: they are counted, and playback starts where enough is
    /// buffered.
    pub fn end_push<D>(&mut self, core: &mut RodioCore<D>, written: usize, now: Timestamp)
        ensures
            if written == 0 {
                *final(self) == *old(self) && *final(core) == *old(core)
            } else {
                let counted = PlaybackState {
                    written_samples: wrapped_sum(
                        old(core).playback.written_samples,
                        written as u64,
                    ),
                    ..old(core).playback
                };
                let starts = old(self).first_audio is None && !counted.started && old(
                    core,
                ).ring.queue@.len() >= counted.prebuffer_samples;
                let playback = if starts {
                    PlaybackState {
                        started: true,
                        stream_start: if counted.stream_start is Some {
                            counted.stream_start
                        } else {
                            Some(now)
                        },
                        ..counted
                    }
                } else {
                    counted
                };
                &&& *final(core) == (RodioCore { playback, ..*old(core) })
                &&& final(self).written_total == if old(self).written_total + written > u64::MAX {
                    u64::MAX as int
                } else {
                    old(self).written_total + written
                }
                &&& final(self).first_audio == match playback.stream_start {
                    Some(ts) => old(self).first_audio_from(playback, ts),
                    None => old(self).first_audio,
                }
                &&& final(self).active == old(self).active
                &&& final(self).scope == old(self).scope
                &&& final(self).start_written == old(self).start_written
            },
    {
        if written == 0 {
            return;
        }
        core.playback.on_write(written as u64);
        self.written_total = self.written_total.saturating_add(written as u64);
        if self.first_audio.is_none() {
            let buffered: usize = core.ring.queue.len();
            let stream_start = match core.playback.try_start(buffered as u64, now) {
                Some(ts) => Some(ts),
                None => core.playback.stream_start,
            };
            if let Some(ts) = stream_start {
                self.update_first_audio(core, ts);
            }
        }
    }

    /// Where the segment ends, in written samples.
    pub open spec fn end_written<D>(self, playback: PlaybackState<D>) -> u64 {
        let start = match self.start_written {
            Some(start) => start,
            None => playback.written_samples,
        };
        if start + self.written_total > u64::MAX {
            u64::MAX
        } else {
            (start + self.written_total) as u64
        }
    }

    /// Ends the segment. Where samples were written and it was not cancelled, playback starts
    /// at the latest now, and `done` is told when the last of them is played.
    pub fn finish<D>(
        self,
        core: &mut RodioCore<D>,
        cancelled: bool,
        now: Timestamp,
        done: D,
    ) -> (r: (SegmentPlayback, MarkerFate<D>))
        ensures
            final(core).active_writer == (old(core).active_writer && !self.active),
            final(core).ring == old(core).ring,
            final(core).sample_rate == old(core).sample_rate,
            final(core).channels == old(core).channels,
            if cancelled || self.written_total == 0 {
                &&& r.0 == (SegmentPlayback {
                    first_audio: self.first_audio,
                    play_done: PlayTime::At(now),
                    play_done_reported: false,
                })
                &&& r.1 == MarkerFate::Unused(done)
                &&& final(core).playback == old(core).playback
            } else {
                let before = old(core).playback;
                let start = match before.stream_start {
                    Some(ts) => ts,
                    None => now,
                };
                let end = self.end_written(before);
                &&& r.0 == (SegmentPlayback {
                    first_audio: self.first_audio_from(before, start),
                    play_done: PlayTime::AtSample(
                        SamplePoint {
                            stream_start: start,
                            sample: wall_sample_of(
                                before.played_samples,
                                before.consumed_samples,
                                end,
                            ),
                        },
                    ),
                    play_done_reported: true,
                })
                &&& final(core).playback.stream_start == Some(start)
                &&& final(core).playback.started == (before.started || before.stream_start is None)
                &&& final(core).playback.played_samples == before.played_samples
                &&& final(core).playback.written_samples == before.written_samples
                &&& final(core).playback.consumed_samples == before.consumed_samples
                &&& final(core).playback.prebuffer_samples == before.prebuffer_samples
                &&& if before.consumed_samples >= end {
                    r.1 == MarkerFate::Reached(done) && final(core).playback.markers@
                        == before.markers@
                } else {
                    r.1 == MarkerFate::<D>::Queued && final(core).playback.markers@
                        == before.markers@.push(PlayMarker { end_sample: end, done })
                }
            },
    {
        if self.active {
            core.active_writer = false;
        }
        if cancelled || self.written_total == 0 {
            return (
                SegmentPlayback {
                    first_audio: self.first_audio,
                    play_done: PlayTime::At(now),
                    play_done_reported: false,
                },
                MarkerFate::Unused(done),
            );
        }
        let stream_start = match core.playback.stream_start {
            Some(ts) => ts,
            None => core.playback.force_start(now),
        };
        let mut writer = self;
        writer.update_first_audio(core, stream_start);
        let start: u64 = match self.start_written {
            Some(start) => start,
            None => core.playback.written_samples,
        };
        let end: u64 = start.saturating_add(self.written_total);
        let sample: u64 = wall_sample(
            core.playback.played_samples,
            core.playback.consumed_samples,
            end,
        );
        let fate = match core.playback.push_marker(end, done) {
            Some(done) => MarkerFate::Reached(done),
            None => MarkerFate::Queued,
        };
        (
            SegmentPlayback {
                first_audio: writer.first_audio,
                play_done: PlayTime::AtSample(SamplePoint { stream_start, sample }),
                play_done_reported: true,
            },
            fate,
        )
    }

    /// Gives the right to write back, where this writer had it.
    pub fn release<D>(&self, core: &mut RodioCore<D>)
        ensures
            *final(core) == (RodioCore {
                active_writer: old(core).active_writer && !self.active,
                ..*old(core)
            }),
    {
        if self.active {
            core.active_writer = false;
        }
    }
}

/// A written sample never plays before what is already played, and samples play in the order in
/// which they were written.
pub proof fn law_playing_order(played: u64, consumed: u64, a: u64, b: u64)
    requires
        a <= b,
    ensures
        played <= wall_sample_of(played, consumed, a) <= wall_sample_of(played, consumed, b),
{
}

/// Whether no end lies before the one in front of it.
pub open spec fn ends_in_order<D>(markers: Seq<PlayMarker<D>>) -> bool {
    forall|i: int, j: int|
        0 <= i <= j < markers.len() ==> (#[trigger] markers[i]).end_sample <= (
        #[trigger] markers[j]).end_sample
}

/// At every 256th sample that is output, a written one or silence, all are told whose samples are
/// consumed by then, from the front on; in between nobody is. So where the ends are in order,
/// nobody is left behind whose samples are consumed.
pub proof fn law_consumed_segments_are_told<D>(state: PlaybackState<D>, consumed: bool)
    ensures
        ({
            let n = state.reached_by_output(consumed);
            let played = if state.played_samples == u64::MAX {
                0
            } else {
                state.played_samples + 1
            };
            let total = if !consumed {
                state.consumed_samples as int
            } else if state.consumed_samples == u64::MAX {
                0
            } else {
                state.consumed_samples + 1
            };
            let left = state.markers@.skip(n);
            &&& 0 <= n <= state.markers@.len()
            &&& played % 256 != 0 ==> n == 0
            &&& forall|i: int| 0 <= i < n ==> (#[trigger] state.markers@[i]).end_sample <= total
            &&& played % 256 == 0 && left.len() > 0 ==> left[0].end_sample > total
            &&& played % 256 == 0 && ends_in_order(state.markers@) ==> forall|i: int|
                0 <= i < left.len() ==> (#[trigger] left[i]).end_sample > total
        }),
{
    let total = if consumed {
        wrapped_sum(state.consumed_samples, 1)
    } else {
        state.consumed_samples
    };
    lemma_reached_bound(state.markers@, total);
    let n = state.reached_by_output(consumed);
    let left = state.markers@.skip(n);
    if ends_in_order(state.markers@) && left.len() > 0 {
        assert forall|i: int| 0 <= i < left.len() && left[0].end_sample > total implies (
        #[trigger] left[i]).end_sample > total by {
            assert(left[0] == state.markers@[n]);
            assert(left[i] == state.markers@[n + i]);
        }
    }
}

/// Whether a state of playback follows from another by one output sample.
pub open spec fn follows_by_output<D>(
    before: PlaybackState<D>,
    consumed: bool,
    after: PlaybackState<D>,
) -> bool {
    &&& after.played_samples == before.played_samples + 1
    &&& after.consumed_samples == before.consumed_samples + (if consumed {
        1int
    } else {
        0
    })
    &&& after.markers@ == before.markers@.skip(before.reached_by_output(consumed))
}

/// While samples are output nobody is queued anew, and the order stays.
proof fn lemma_outputs_only_tell<D>(
    states: Seq<PlaybackState<D>>,
    outputs: Seq<bool>,
    from: int,
    to: int,
)
    requires
        states.len() == outputs.len() + 1,
        forall|i: int|
            0 <= i < outputs.len() ==> follows_by_output(
                states[i],
                #[trigger] outputs[i],
                states[i + 1],
            ),
        0 <= from <= to < states.len(),
        ends_in_order(states[from].markers@),
    ensures
        ends_in_order(states[to].markers@),
        states[from].consumed_samples <= states[to].consumed_samples,
        states[to].played_samples == states[from].played_samples + (to - from),
        forall|x: PlayMarker<D>|
            states[to].markers@.contains(x) ==> #[trigger] states[from].markers@.contains(x),
    decreases to - from,
{
    if from < to {
        lemma_outputs_only_tell(states, outputs, from, to - 1);
        let before = states[to - 1];
        let n = before.reached_by_output(outputs[to - 1]);
        assert(follows_by_output(before, outputs[to - 1], states[to - 1 + 1]));
        law_consumed_segments_are_told(before, outputs[to - 1]);
        let left = before.markers@.skip(n);
        assert(states[to].markers@ == left);
        assert forall|i: int, j: int| 0 <= i <= j < left.len() implies (
        #[trigger] left[i]).end_sample <= (#[trigger] left[j]).end_sample by {
            assert(left[i] == before.markers@[n + i]);
            assert(left[j] == before.markers@[n + j]);
        }
        assert forall|x: PlayMarker<D>| states[to].markers@.contains(x) implies
            #[trigger] states[from].markers@.contains(x) by {
            let k = choose|k: int| 0 <= k < left.len() && left[k] == x;
            assert(before.markers@[n + k] == x);
            assert(before.markers@.contains(x));
        }
    }
}

/// Whoever waits for samples that are consumed is told within 256 output samples from then on:
/// after so many, nobody is queued any more whose end was consumed at their start. It does not
/// matter which of them were written samples and which silence.
pub proof fn law_nobody_waits_longer_than_the_interval<D>(
    states: Seq<PlaybackState<D>>,
    outputs: Seq<bool>,
)
    requires
        outputs.len() == 256,
        states.len() == 257,
        forall|i: int|
            0 <= i < 256 ==> follows_by_output(states[i], #[trigger] outputs[i], states[i + 1]),
        ends_in_order(states[0].markers@),
    ensures
        forall|i: int|
            0 <= i < states[256].markers@.len() ==> (
            #[trigger] states[256].markers@[i]).end_sample > states[0].consumed_samples,
{
    let p = states[0].played_samples as int;
    let at = 256 - p % 256;
    lemma_outputs_only_tell(states, outputs, 0, at - 1);
    lemma_outputs_only_tell(states, outputs, 0, at);
    let before = states[at - 1];
    assert(follows_by_output(before, outputs[at - 1], states[at - 1 + 1]));
    law_consumed_segments_are_told(before, outputs[at - 1]);
    assert((p + at) % 256 == 0);
    lemma_outputs_only_tell(states, outputs, at, 256);
    assert forall|i: int| 0 <= i < states[256].markers@.len() implies (
    #[trigger] states[256].markers@[i]).end_sample > states[0].consumed_samples by {
        let x = states[256].markers@[i];
        assert(states[256].markers@.contains(x));
        assert(states[at].markers@.contains(x));
        let k = choose|k: int| 0 <= k < states[at].markers@.len() && states[at].markers@[k] == x;
        assert(states[at].markers@[k].end_sample > states[at].consumed_samples);
    }
}

/// The ring buffer holds the configured seconds of audio in all channels, and playback starts
/// once the configured time of it is buffered, counted in whole frames.
pub proof fn law_ring_holds_its_seconds(config: RodioConfig)
    requires
        config.in_range(),
    ensures
        ring_capacity_of(config) == config.channels * (config.sample_rate * config.ring_seconds),
        playing_ms(
            ring_capacity_of(config),
            config.sample_rate as nat,
            config.channels as nat,
        ) == config.ring_seconds * 1000,
        prebuffer_of(config) == config.channels * ((config.sample_rate * config.prefill_ms) / 1000),
{
    let (rate, secs, ch) = (
        config.sample_rate as int,
        config.ring_seconds as int,
        config.channels as int,
    );
    assert(rate * secs * ch == ch * (rate * secs)) by (nonlinear_arith);
    let frame = rate * ch;
    assert(frame > 0) by (nonlinear_arith)
        requires
            rate > 0,
            ch > 0,
            frame == rate * ch,
    ;
    assert(rate * secs * ch * 1000 == (secs * 1000) * frame) by (nonlinear_arith)
        requires
            frame == rate * ch,
    ;
    assert(rate * secs <= 5_760_000) by (nonlinear_arith)
        requires
            0 <= rate <= 96_000,
            0 <= secs <= 60,
    ;
    let held = rate * secs;
    assert(held * ch * 1000 <= u64::MAX) by (nonlinear_arith)
        requires
            0 <= held <= 5_760_000,
            0 <= ch <= 2,
    ;
    vstd::arithmetic::div_mod::lemma_div_by_multiple(secs * 1000, frame);
    assert((rate * config.prefill_ms as int) / 1000 * ch == ch * ((rate * config.prefill_ms as int)
        / 1000)) by (nonlinear_arith);
}

/// As much is written as there is room for, and no more: either all of it, or until the buffer is
/// full.
pub proof fn law_writes_fill_the_room(len: nat, capacity: nat, wanted: int)
    requires
        len <= capacity,
        wanted >= 0,
    ensures
        ({
            let n = fitting(len, capacity, wanted);
            &&& 0 <= n <= wanted
            &&& len + n <= capacity
            &&& n == wanted || len + n == capacity
        }),
{
}

/// A writer that finds the buffer full waits longer each time, from 100 up to 800 microseconds.
pub proof fn law_backoff_doubles(backoff: u32)
    ensures
        backoff_delay(0) == 100,
        backoff_delay(1) == 200,
        backoff_delay(2) == 400,
        backoff >= 3 ==> backoff_delay(backoff) == 800,
{
}

/// A sample that is not consumed yet plays as many samples after what is played as it lies behind
/// what is consumed, whatever silence there was; one that is consumed counts as playing now.
pub proof fn law_playing_time_of_a_sample(played: u64, consumed: u64, sample: u64)
    requires
        consumed <= played,
        played + sample <= u64::MAX,
    ensures
        sample >= consumed ==> wall_sample_of(played, consumed, sample) == played + (sample
            - consumed),
        sample < consumed ==> wall_sample_of(played, consumed, sample) == played,
{
}

/// A segment ends as many samples behind its start as were written of it; and once it is known
/// when its first sample plays, that stays.
pub proof fn law_segment_spans_its_samples<D>(
    writer: RodioSegmentWriter,
    playback: PlaybackState<D>,
    stream_start: Timestamp,
)
    ensures
        writer.start_written matches Some(start) ==> start + writer.written_total <= u64::MAX
            ==> writer.end_written(playback) - start == writer.written_total,
        writer.start_written is None && playback.written_samples + writer.written_total <= u64::MAX
            ==> writer.end_written(playback) - playback.written_samples == writer.written_total,
        writer.first_audio is Some ==> writer.first_audio_from(playback, stream_start)
            == writer.first_audio,
        writer.first_audio is None && writer.start_written is None ==> writer.first_audio_from(
            playback,
            stream_start,
        ) is None,
        writer.first_audio is None && writer.start_written is Some ==> (writer.first_audio_from(
            playback,
            stream_start,
        ) matches Some(p) && p.stream_start == stream_start && p.sample == wall_sample_of(
            playback.played_samples,
            playback.consumed_samples,
            writer.start_written->0,
        )),
{
}

/// At every 256th output sample nobody is left in front whose samples are consumed, be it a written
/// sample or silence that is output; every output sample is counted, and the written ones apart.
pub proof fn law_output_samples_are_counted<D>()
    ensures
        forall|s: &mut PlaybackState<D>, consumed: bool, r: Vec<D>|
            #[trigger] call_ensures(PlaybackState::<D>::on_output_sample, (s, consumed), r) ==> {
                let told = (*s).markers@.len() - (*final(s)).markers@.len();
                &&& (*s).played_samples < u64::MAX ==> (*final(s)).played_samples
                    == (*s).played_samples + 1
                &&& consumed && (*s).consumed_samples < u64::MAX ==> (*final(s)).consumed_samples
                    == (*s).consumed_samples + 1
                &&& !consumed ==> (*final(s)).consumed_samples == (*s).consumed_samples
                &&& (*final(s)).written_samples == (*s).written_samples
                &&& (*final(s)).played_samples % 256 == 0 && (*final(s)).markers@.len() > 0
                    ==> (*final(s)).markers@[0].end_sample > (*final(s)).consumed_samples
                &&& (*final(s)).played_samples % 256 != 0 ==> (*final(s)).markers@ == (*s).markers@
                &&& r@.len() == told
                &&& 0 <= told
                &&& (*final(s)).markers@ == (*s).markers@.skip(told)
                &&& forall|i: int| 0 <= i < told ==> #[trigger] r@[i] == (*s).markers@[i].done
            },
{
    assert forall|s: &mut PlaybackState<D>, consumed: bool, r: Vec<D>|
        #[trigger] call_ensures(PlaybackState::<D>::on_output_sample, (s, consumed), r) implies {
        let told = (*s).markers@.len() - (*final(s)).markers@.len();
        &&& (*s).played_samples < u64::MAX ==> (*final(s)).played_samples == (*s).played_samples + 1
        &&& consumed && (*s).consumed_samples < u64::MAX ==> (*final(s)).consumed_samples
            == (*s).consumed_samples + 1
        &&& !consumed ==> (*final(s)).consumed_samples == (*s).consumed_samples
        &&& (*final(s)).written_samples == (*s).written_samples
        &&& (*final(s)).played_samples % 256 == 0 && (*final(s)).markers@.len() > 0 ==> (*final(s)).markers@[0].end_sample > (*final(s)).consumed_samples
        &&& (*final(s)).played_samples % 256 != 0 ==> (*final(s)).markers@ == (*s).markers@
        &&& r@.len() == told
        &&& 0 <= told
        &&& (*final(s)).markers@ == (*s).markers@.skip(told)
        &&& forall|i: int| 0 <= i < told ==> #[trigger] r@[i] == (*s).markers@[i].done
    } by {
        law_consumed_segments_are_told(*s, consumed);
        assert((*s).markers@.skip(0) =~= (*s).markers@);
    }
}

/// A segment starts behind all that was written and all that was consumed, and what is written is
/// counted from there.
pub proof fn law_where_segments_start<D>()
    ensures
        forall|s: &mut PlaybackState<D>, r: u64|
            #[trigger] call_ensures(PlaybackState::<D>::begin_write, (s,), r) ==> {
                &&& r >= (*s).written_samples && r >= (*s).consumed_samples
                &&& r == (*s).written_samples || r == (*s).consumed_samples
                &&& (*final(s)).written_samples == r
                &&& (*final(s)).consumed_samples == (*s).consumed_samples && (*final(s)).played_samples == (*s).played_samples
                &&& (*final(s)).started == (*s).started && (*final(s)).markers == (*s).markers
            },
        forall|s: &mut PlaybackState<D>, samples: u64, r: ()|
            #[trigger] call_ensures(PlaybackState::<D>::on_write, (s, samples), r) ==> {
                &&& (*s).written_samples + samples <= u64::MAX ==> (*final(s)).written_samples
                    == (*s).written_samples + samples
                &&& (*final(s)).consumed_samples == (*s).consumed_samples && (*final(s)).played_samples == (*s).played_samples
                &&& (*final(s)).started == (*s).started && (*final(s)).markers == (*s).markers
            },
{
}

/// Playback starts once enough is buffered, or when it is forced to; the stream keeps the time at
/// which it started.
pub proof fn law_when_playback_starts<D>()
    ensures
        forall|s: &mut PlaybackState<D>, buffered: u64, now: Timestamp, r: Option<Timestamp>|
            #[trigger] call_ensures(PlaybackState::<D>::try_start, (s, buffered, now), r) ==> {
                &&& (*final(s)).started <==> (*s).started || buffered >= (*s).prebuffer_samples
                &&& (*s).stream_start is Some ==> (*final(s)).stream_start == (*s).stream_start
                &&& (*s).stream_start is None && !(*s).started && buffered
                    >= (*s).prebuffer_samples ==> (*final(s)).stream_start == Some(now) && r == Some(
                    now,
                )
                &&& !(*final(s)).started ==> r is None && (*final(s)).stream_start
                    == (*s).stream_start
                &&& (*final(s)).started ==> r == (*final(s)).stream_start
                &&& (*final(s)).written_samples == (*s).written_samples && (*final(s)).played_samples == (*s).played_samples && (*final(s)).consumed_samples
                    == (*s).consumed_samples && (*final(s)).markers == (*s).markers
            },
        forall|s: &mut PlaybackState<D>, now: Timestamp, r: Timestamp|
            #[trigger] call_ensures(PlaybackState::<D>::force_start, (s, now), r) ==> {
                &&& (*final(s)).started
                &&& (*final(s)).stream_start == Some(r)
                &&& (*s).stream_start matches Some(ts) ==> r == ts
                &&& (*s).stream_start is None ==> r == now
                &&& (*final(s)).written_samples == (*s).written_samples && (*final(s)).played_samples == (*s).played_samples && (*final(s)).consumed_samples
                    == (*s).consumed_samples && (*final(s)).markers == (*s).markers
            },
{
}

/// Whoever waits for samples that are consumed already is told at once; any other waits behind
/// those who wait.
pub proof fn law_who_waits<D>()
    ensures
        forall|s: &mut PlaybackState<D>, end: u64, done: D, r: Option<D>|
            #[trigger] call_ensures(PlaybackState::<D>::push_marker, (s, end, done), r) ==> {
                &&& (*s).consumed_samples >= end ==> r == Some(done) && (*final(s)).markers@
                    == (*s).markers@
                &&& (*s).consumed_samples < end ==> {
                    &&& r is None
                    &&& (*final(s)).markers@.len() == (*s).markers@.len() + 1
                    &&& (*final(s)).markers@.last().end_sample == end
                    &&& (*final(s)).markers@.last().done == done
                    &&& (*final(s)).markers@.drop_last() == (*s).markers@
                }
                &&& (*final(s)).consumed_samples == (*s).consumed_samples
            },
        forall|s: &mut PlaybackState<D>, r: Vec<D>|
            #[trigger] call_ensures(PlaybackState::<D>::reset, (s,), r) ==> {
                &&& r@.len() == (*s).markers@.len()
                &&& forall|i: int|
                    0 <= i < r@.len() ==> #[trigger] r@[i] == (*s).markers@[i].done
                &&& (*final(s)).markers@.len() == 0
                &&& !(*final(s)).started && (*final(s)).stream_start is None
                &&& (*final(s)).played_samples == 0 && (*final(s)).written_samples == 0 && (*final(s)).consumed_samples == 0
                &&& (*final(s)).prebuffer_samples == (*s).prebuffer_samples
            },
{
    assert forall|s: &mut PlaybackState<D>, end: u64, done: D, r: Option<D>|
        #[trigger] call_ensures(PlaybackState::<D>::push_marker, (s, end, done), r) && (
        *s).consumed_samples < end implies (*final(s)).markers@.drop_last() == (*s).markers@ by {
        assert((*final(s)).markers@.drop_last() =~= (*s).markers@);
    }
}

/// Before playback has started nothing is output and nothing changes; from then on samples leave
/// in the order in which they were written, and there is silence where there is none.
pub proof fn law_samples_are_output_in_order<D>()
    ensures
        forall|c: &mut RodioCore<D>, r: (Option<i64>, Vec<D>)|
            #[trigger] call_ensures(RodioCore::<D>::next_sample, (c,), r) ==> {
                &&& !(*c).playback.started ==> r.0 is None && r.1@.len() == 0 && *final(c) == *c
                &&& (*c).playback.started && (*c).ring.queue@.len() > 0 ==> r.0 == Some(
                    (*c).ring.queue@[0],
                ) && (*final(c)).ring.queue@ == (*c).ring.queue@.skip(1)
                &&& (*c).playback.started && (*c).ring.queue@.len() == 0 ==> r.0 is None && (*final(c)).ring.queue@.len() == 0 && (*final(c)).playback.consumed_samples
                    == (*c).playback.consumed_samples
                &&& (*c).playback.started && (*c).ring.queue@.len() > 0
                    && (*c).playback.consumed_samples < u64::MAX ==> (*final(c)).playback.consumed_samples == (*c).playback.consumed_samples + 1
                &&& (*c).playback.started && (*c).playback.played_samples < u64::MAX ==> (*final(c)).playback.played_samples == (*c).playback.played_samples + 1
            },
{
}

/// Only one segment is written at a time: the first that is begun, until its writer gives the
/// right back. Stopping drops what is queued, tells all who wait, and lets the next one write.
pub proof fn law_one_writer_at_a_time<D>()
    ensures
        forall|c: &mut RodioCore<D>, scope: CancelScope, r: RodioSegmentWriter|
            #[trigger] call_ensures(RodioCore::<D>::begin_segment, (c, scope), r) ==> {
                &&& r.active <==> !(*c).active_writer
                &&& (*final(c)).active_writer
                &&& r.scope == scope && r.start_written is None && r.written_total == 0
                    && r.first_audio is None
                &&& (*final(c)).ring == (*c).ring && (*final(c)).playback == (*c).playback
            },
        forall|w: &RodioSegmentWriter, c: &mut RodioCore<D>, r: ()|
            #[trigger] call_ensures(RodioSegmentWriter::release::<D>, (w, c), r) ==> {
                &&& w.active ==> !(*final(c)).active_writer
                &&& !w.active ==> (*final(c)).active_writer == (*c).active_writer
                &&& (*final(c)).ring == (*c).ring && (*final(c)).playback == (*c).playback
            },
        forall|c: &mut RodioCore<D>, r: Vec<D>|
            #[trigger] call_ensures(RodioCore::<D>::stop, (c,), r) ==> {
                &&& r@.len() == (*c).playback.markers@.len()
                &&& (*final(c)).ring.queue@.len() == 0
                &&& (*final(c)).playback.markers@.len() == 0
                &&& !(*final(c)).playback.started
                &&& !(*final(c)).active_writer
                &&& (*final(c)).playback.consumed_samples == 0 && (*final(c)).playback.written_samples == 0 && (*final(c)).playback.played_samples == 0
            },
{
}

/// A write is over once it is cancelled or all is written, and waits otherwise, longer each time;
/// what is written stands in the queue behind what stood there, in its order.
pub proof fn law_writes_go_on()
    ensures
        forall|
            ring: &mut RingBuffer,
            data: &Vec<i64>,
            p: &mut PushProgress,
            cancelled: bool,
            r: PushStep,
        |
            #[trigger] call_ensures(RingBuffer::push_step, (ring, data, p, cancelled), r) && (
            *p).written <= data@.len() ==> {
                let n = (*final(p)).written - (*p).written;
                &&& cancelled ==> r == PushStep::Done && *final(ring) == *ring && *final(p) == *p
                &&& !cancelled ==> (r == PushStep::Done <==> (*final(p)).written == data@.len())
                &&& 0 <= n && (*final(p)).written <= data@.len()
                &&& n > 0 ==> (*final(ring)).queue@ == (*ring).queue@ + data@.subrange(
                    (*p).written as int,
                    (*final(p)).written as int,
                )
                &&& !cancelled && (*final(p)).written < data@.len() ==> (*ring).queue@.len() + n
                    >= (*ring).queue.capacity()
                &&& r matches PushStep::Wait { delay_us } ==> {
                    &&& n > 0 || (*p).backoff == 0 ==> delay_us == 100
                    &&& n == 0 && (*p).backoff == 1 ==> delay_us == 200
                    &&& n == 0 && (*p).backoff == 2 ==> delay_us == 400
                    &&& n == 0 && (*p).backoff > 2 ==> delay_us == 800
                    &&& n > 0 ==> (*final(p)).backoff == 1
                    &&& n == 0 && (*p).backoff < u32::MAX ==> (*final(p)).backoff == (*p).backoff
                        + 1
                    &&& (*p).full_events < u64::MAX ==> (*final(p)).full_events
                        == (*p).full_events + 1
                }
            },
        forall|ring: &mut RingBuffer, full: u64, us: u64, r: bool|
            #[trigger] call_ensures(RingBuffer::note_push, (ring, full, us), r) ==> {
                &&& r <==> full > 0 && us >= 1000
                &&& (*ring).full_count + full <= u64::MAX ==> (*final(ring)).full_count
                    == (*ring).full_count + full
                &&& r && (*ring).blocked_us + us <= u64::MAX ==> (*final(ring)).blocked_us
                    == (*ring).blocked_us + us
                &&& !r ==> (*final(ring)).blocked_us == (*ring).blocked_us
                &&& (*final(ring)).queue == (*ring).queue
            },
{
}

/// The first samples that are written fix where a segment starts, behind all that was written and
/// consumed; later ones do not move it.
pub proof fn law_first_samples_fix_the_start<D>()
    ensures
        forall|w: &mut RodioSegmentWriter, c: &mut RodioCore<D>, r: ()|
            #[trigger] call_ensures(RodioSegmentWriter::begin_push::<D>, (w, c), r) ==> {
                &&& (*w).start_written matches Some(start) ==> (*final(w)).start_written == Some(
                    start,
                ) && (*final(c)).playback == (*c).playback
                &&& (*w).start_written is None ==> ((*final(w)).start_written matches Some(start)
                    && start >= (*c).playback.written_samples && start
                    >= (*c).playback.consumed_samples && (start == (*c).playback.written_samples
                    || start == (*c).playback.consumed_samples) && (*final(c)).playback.written_samples == start)
                &&& (*final(w)).written_total == (*w).written_total && (*final(w)).active
                    == (*w).active && (*final(w)).scope == (*w).scope
                &&& (*final(c)).ring == (*c).ring
            },
        forall|w: &mut RodioSegmentWriter, c: &mut RodioCore<D>, n: usize, now: Timestamp, r: ()|
            #[trigger] call_ensures(RodioSegmentWriter::end_push::<D>, (w, c, n, now), r) ==> {
                &&& (*w).written_total + n <= u64::MAX ==> (*final(w)).written_total
                    == (*w).written_total + n
                &&& (*c).playback.written_samples + n <= u64::MAX ==> (*final(c)).playback.written_samples == (*c).playback.written_samples + n
                &&& n == 0 ==> *final(w) == *w && *final(c) == *c
                &&& n > 0 && (*w).first_audio is None && (*c).ring.queue@.len()
                    >= (*c).playback.prebuffer_samples ==> (*final(c)).playback.started
                &&& (*c).ring.queue@.len() < (*c).playback.prebuffer_samples ==> (*final(c)).playback.started == (*c).playback.started
                &&& (*w).first_audio is Some ==> (*final(w)).first_audio == (*w).first_audio
                &&& (*final(w)).start_written == (*w).start_written
                &&& (*final(c)).ring == (*c).ring
            },
{
}

/// A segment that is finished with samples waits to be told of its end, or is told at once where
/// all is consumed; without samples, or cancelled, nobody waits.
pub proof fn law_end_of_a_segment<D>()
    ensures
        forall|
            w: RodioSegmentWriter,
            c: &mut RodioCore<D>,
            cancelled: bool,
            now: Timestamp,
            done: D,
            r: (SegmentPlayback, MarkerFate<D>),
        |
            #[trigger] call_ensures(
                RodioSegmentWriter::finish::<D>,
                (w, c, cancelled, now, done),
                r,
            ) ==> {
                let over = cancelled || w.written_total == 0;
                let before = (*c).playback;
                &&& over ==> r.1 == MarkerFate::Unused(done) && r.0.play_done == PlayTime::At(now)
                    && !r.0.play_done_reported && (*final(c)).playback == before
                &&& !over ==> r.0.play_done_reported && (*final(c)).playback.stream_start is Some
                    && r.0.play_done is AtSample
                &&& !over && w.start_written is Some && w.start_written->0 + w.written_total
                    <= u64::MAX ==> {
                    let end = w.start_written->0 + w.written_total;
                    &&& before.consumed_samples >= end ==> r.1 == MarkerFate::Reached(done)
                    &&& before.consumed_samples < end ==> r.1 is Queued && (*final(c)).playback.markers@.last().end_sample == end && (*final(c)).playback.markers@.last().done == done
                }
                &&& w.active ==> !(*final(c)).active_writer
                &&& !w.active ==> (*final(c)).active_writer == (*c).active_writer
            },
{
}

} // verus!
