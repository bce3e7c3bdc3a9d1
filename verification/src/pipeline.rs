//! Scheduling of synthesis and playback: segments are synthesized ahead, and played in order.

use crate::generator::TtsMetrics;
use crate::internal::env::{self, EnvVars};
use crate::metrics::{MetricEvent, MetricEventKind};
use crate::number::{append_number, decimal};
use crate::text::{lowercase, same, trim, trimmed, lowercased};
use crate::time::Timestamp;
use crate::tokenizer::{segment_view, SegmentView, TextSegment};
use std::collections::VecDeque;
use vstd::prelude::*;
use vstd::string::*;

verus! {

/// How synthesis and playback are scheduled.
#[derive(Debug, Clone, Copy, PartialEq, Eq, Structural)]
pub enum PipelineMode {
    /// Ahead of playback where the engine can.
    Auto,
    /// One segment after the other.
    Serial,
    /// Ahead of playback.
    Decoupled,
}

impl PipelineMode {
    /// The mode of a lower-case word.
    pub open spec fn of_key(key: Seq<char>) -> Option<PipelineMode> {
        if key == "auto"@ {
            Some(PipelineMode::Auto)
        } else if key == "serial"@ || key == "sync"@ {
            Some(PipelineMode::Serial)
        } else if key == "decoupled"@ || key == "parallel"@ || key == "synth"@ {
            Some(PipelineMode::Decoupled)
        } else {
            None
        }
    }

    /// The mode of a lower-case word.
    pub fn from_key(key: &str) -> (r: Option<PipelineMode>)
        ensures
            r == Self::of_key(key@),
    {
        if same(key, "auto") {
            Some(PipelineMode::Auto)
        } else if same(key, "serial") || same(key, "sync") {
            Some(PipelineMode::Serial)
        } else if same(key, "decoupled") || same(key, "parallel") || same(key, "synth") {
            Some(PipelineMode::Decoupled)
        } else {
            None
        }
    }

    /// The mode of a word, whatever its case and the white space round it.
    pub fn parse(raw: &str) -> (r: Option<PipelineMode>)
        ensures
            r == Self::of_key(lowercased(trimmed(raw@))),
    {
        Self::from_key(lowercase(trim(raw).as_str()).as_str())
    }

    /// The mode that the environment sets.
    pub open spec fn env_mode(vars: Map<Seq<char>, Seq<char>>) -> PipelineMode {
        let named = match env::text_var(vars, "TTS_PIPELINE_MODE"@) {
            Some(raw) => Self::of_key(lowercased(trimmed(raw))),
            None => None,
        };
        match named {
            Some(mode) => mode,
            None => if env::switch_setting(vars, "TTS_PARALLEL_SYNTH"@, true) {
                PipelineMode::Auto
            } else {
                PipelineMode::Serial
            },
        }
    }

    /// Reads the mode from the environment: `TTS_PIPELINE_MODE`, else `TTS_PARALLEL_SYNTH`.
    pub fn from_env(vars: &EnvVars) -> (r: PipelineMode)
        ensures
            r == Self::env_mode(vars@),
    {
        if let Some(raw) = env::string(vars, "TTS_PIPELINE_MODE") {
            if let Some(mode) = Self::parse(raw.as_str()) {
                return mode;
            }
        }
        if env::bool01(vars, "TTS_PARALLEL_SYNTH", true) {
            PipelineMode::Auto
        } else {
            PipelineMode::Serial
        }
    }
}

/// Pipeline scheduling knobs.
#[derive(Debug, Clone, Copy, PartialEq, Eq, Structural)]
pub struct PipelineConfig {
    pub mode: PipelineMode,
    /// How many segments are synthesized at once.
    pub synth_inflight: usize,
    /// How many segments may wait for synthesis before no more input is taken.
    pub backlog_limit: usize,
    /// How long one synthesis may take; 0 for no limit.
    pub synth_timeout_ms: u64,
}

impl Default for PipelineConfig {
    fn default() -> (r: Self)
        ensures
            r == (PipelineConfig {
                mode: PipelineMode::Auto,
                synth_inflight: 1,
                backlog_limit: 4096,
                synth_timeout_ms: 30_000,
            }),
    {
        PipelineConfig {
            mode: PipelineMode::Auto,
            synth_inflight: 1,
            // Large, so that fast LLM output is absorbed without holding its sender back.
            backlog_limit: 4096,
            synth_timeout_ms: 30_000,
        }
    }
}

impl PipelineConfig {
    /// The configuration that the environment sets.
    pub open spec fn env_config(vars: Map<Seq<char>, Seq<char>>) -> Self {
        PipelineConfig {
            mode: PipelineMode::env_mode(vars),
            synth_inflight: env::unsigned_setting(
                vars,
                "TTS_SYNTH_INFLIGHT"@,
                usize::MAX as nat,
                1,
                1,
                8,
            ) as usize,
            backlog_limit: env::unsigned_setting(
                vars,
                "TTS_BACKLOG_LIMIT"@,
                usize::MAX as nat,
                32,
                1,
                4096,
            ) as usize,
            synth_timeout_ms: env::unsigned_setting(
                vars,
                "TTS_SYNTH_TIMEOUT_MS"@,
                u64::MAX as nat,
                30_000,
                0,
                600_000,
            ) as u64,
        }
    }

    /// Reads the configuration from the environment.
    pub fn from_env(vars: &EnvVars) -> (r: Self)
        ensures
            r == Self::env_config(vars@),
            1 <= r.synth_inflight <= 8,
            1 <= r.backlog_limit <= 4096,
            r.synth_timeout_ms <= 600_000,
    {
        let defaults = PipelineConfig::default();
        PipelineConfig {
            mode: PipelineMode::from_env(vars),
            synth_inflight: env::usize_clamped(
                vars,
                "TTS_SYNTH_INFLIGHT",
                defaults.synth_inflight,
                1,
                8,
            ),
            backlog_limit: env::usize_clamped(
                vars,
                "TTS_BACKLOG_LIMIT",
                32,
                1,
                4096,
            ),
            synth_timeout_ms: env::u64_clamped(
                vars,
                "TTS_SYNTH_TIMEOUT_MS",
                defaults.synth_timeout_ms,
                0,
                600_000,
            ),
        }
    }
}

/// How a pipeline runs its jobs.
#[derive(Debug, Clone, Copy, PartialEq, Eq, Structural)]
pub enum RunnerKind {
    /// Each job speaks its segment.
    Serial,
    /// Each job synthesizes its segment; playback follows in order.
    Decoupled,
}

/// What a pipeline is run with.
#[derive(Debug, Clone, Copy, PartialEq, Eq, Structural)]
pub struct RunPlan {
    pub runner: RunnerKind,
    /// Whether decoupled synthesis was asked for and the engine cannot.
    pub fell_back: bool,
    /// How many jobs run at once.
    pub max_inflight: usize,
    /// How many segments may wait.
    pub backlog_limit: usize,
    /// How long one synthesis may take.
    pub synth_timeout_ms: Option<u64>,
}

/// `n`, but at least 1.
pub open spec fn at_least_one(n: usize) -> usize {
    if n < 1 {
        1
    } else {
        n
    }
}

impl RunPlan {
    /// The plan for a configuration, given whether the engine can synthesize ahead.
    pub open spec fn of(config: PipelineConfig, supports_queue: bool) -> RunPlan {
        let decoupled = config.mode != PipelineMode::Serial && supports_queue;
        RunPlan {
            runner: if decoupled {
                RunnerKind::Decoupled
            } else {
                RunnerKind::Serial
            },
            fell_back: config.mode == PipelineMode::Decoupled && !supports_queue,
            max_inflight: if decoupled {
                at_least_one(config.synth_inflight)
            } else {
                1
            },
            backlog_limit: at_least_one(config.backlog_limit),
            synth_timeout_ms: if decoupled && config.synth_timeout_ms > 0 {
                Some(config.synth_timeout_ms)
            } else {
                None
            },
        }
    }

    /// Plans a run.
    pub fn new(config: PipelineConfig, supports_queue: bool) -> (r: RunPlan)
        ensures
            r == RunPlan::of(config, supports_queue),
            r.runner == RunnerKind::Decoupled <==> supports_queue && (config.mode
                == PipelineMode::Auto || config.mode == PipelineMode::Decoupled),
            r.fell_back <==> config.mode == PipelineMode::Decoupled && !supports_queue,
            r.runner == RunnerKind::Serial ==> r.max_inflight == 1 && r.synth_timeout_ms is None,
            r.max_inflight >= 1 && r.backlog_limit >= 1,
    {
        let (runner, fell_back) = match config.mode {
            PipelineMode::Serial => (RunnerKind::Serial, false),
            PipelineMode::Decoupled => if supports_queue {
                (RunnerKind::Decoupled, false)
            } else {
                (RunnerKind::Serial, true)
            },
            PipelineMode::Auto => if supports_queue {
                (RunnerKind::Decoupled, false)
            } else {
                (RunnerKind::Serial, false)
            },
        };
        let max_inflight: usize = match runner {
            RunnerKind::Serial => 1,
            RunnerKind::Decoupled => if config.synth_inflight < 1 {
                1
            } else {
                config.synth_inflight
            },
        };
        let backlog_limit: usize = if config.backlog_limit < 1 {
            1
        } else {
            config.backlog_limit
        };
        let synth_timeout_ms = match runner {
            RunnerKind::Serial => None,
            RunnerKind::Decoupled => if config.synth_timeout_ms == 0 {
                None
            } else {
                Some(config.synth_timeout_ms)
            },
        };
        RunPlan { runner, fell_back, max_inflight, backlog_limit, synth_timeout_ms }
    }
}

/// Which turn a pipeline is in, for its metrics.
#[derive(Debug, Clone, Copy, PartialEq, Eq, Structural)]
pub struct PipelineState {
    pub current_turn_id: Option<u64>,
    pub first_audio_emitted: bool,
}

impl PipelineState {
    /// No turn yet.
    pub fn new() -> (r: Self)
        ensures
            r == (PipelineState { current_turn_id: None, first_audio_emitted: false }),
    {
        PipelineState { current_turn_id: None, first_audio_emitted: false }
    }

    /// Notes that a segment enters the pipeline; the first of a turn is an event.
    pub fn on_segment(&mut self, segment: &TextSegment) -> (r: Option<MetricEvent>)
        ensures
            r == if segment@.first_token_ts is Some {
                Some(
                    MetricEvent {
                        turn_id: segment@.turn_id,
                        kind: MetricEventKind::TtsFirstSegmentSent,
                        ts: segment@.segment_sent_ts,
                    },
                )
            } else {
                None
            },
            *final(self) == if old(self).current_turn_id == Some(segment@.turn_id) {
                *old(self)
            } else {
                PipelineState {
                    current_turn_id: Some(segment@.turn_id),
                    first_audio_emitted: false,
                }
            },
    {
        let event = if segment.first_token_ts.is_some() {
            Some(
                MetricEvent {
                    turn_id: segment.turn_id,
                    kind: MetricEventKind::TtsFirstSegmentSent,
                    ts: segment.segment_sent_ts,
                },
            )
        } else {
            None
        };
        let same_turn = match self.current_turn_id {
            Some(id) => id == segment.turn_id,
            None => false,
        };
        if !same_turn {
            self.current_turn_id = Some(segment.turn_id);
            self.first_audio_emitted = false;
        }
        event
    }

    /// Notes that a segment was played; the first audio of a turn is an event.
    pub fn on_metrics(&mut self, segment: &TextSegment, metrics: &TtsMetrics) -> (r: Option<
        MetricEvent,
    >)
        ensures
            r == if !old(self).first_audio_emitted && segment@.first_token_ts is Some
                && metrics.first_audio_ts is Some {
                Some(
                    MetricEvent {
                        turn_id: segment@.turn_id,
                        kind: MetricEventKind::TtsFirstAudio,
                        ts: metrics.first_audio_ts->0,
                    },
                )
            } else {
                None
            },
            *final(self) == (PipelineState {
                first_audio_emitted: old(self).first_audio_emitted || r is Some,
                ..*old(self)
            }),
    {
        if !self.first_audio_emitted && segment.first_token_ts.is_some() {
            if let Some(ts) = metrics.first_audio_ts {
                self.first_audio_emitted = true;
                return Some(
                    MetricEvent {
                        turn_id: segment.turn_id,
                        kind: MetricEventKind::TtsFirstAudio,
                        ts,
                    },
                );
            }
        }
        None
    }
}

/// What a job gives where it gives anything, with audio of type `A`.
#[derive(Debug)]
pub enum OutcomeKind<A> {
    /// Audio that is still to be played.
    NeedPlay(A),
    /// The segment was played.
    Played(TtsMetrics),
}

/// A job to be run.
#[derive(Debug)]
pub struct Job {
    pub seq: u64,
    pub text_segment: TextSegment,
}

/// What has become of a job.
#[derive(Debug)]
pub struct JobOutcome<A> {
    pub seq: u64,
    pub text_segment: TextSegment,
    pub result: Result<Option<OutcomeKind<A>>, String>,
}

/// What a synthesis came to.
#[derive(Debug)]
pub enum SynthReply<A> {
    Done(Result<Option<A>, String>),
    TimedOut { timeout_ms: u64 },
}

/// The result of a job that speaks its segment.
pub fn spoken<A>(reply: Result<TtsMetrics, String>) -> (r: Result<Option<OutcomeKind<A>>, String>)
    ensures
        r == match reply {
            Ok(metrics) => Ok::<_, String>(Some(OutcomeKind::<A>::Played(metrics))),
            Err(e) => Err(e),
        },
{
    match reply {
        Ok(metrics) => Ok(Some(OutcomeKind::Played(metrics))),
        Err(e) => Err(e),
    }
}

/// The result of a job that synthesizes its segment.
pub fn synthesized<A>(reply: SynthReply<A>) -> (r: Result<Option<OutcomeKind<A>>, String>)
    ensures
        match reply {
            SynthReply::Done(Ok(Some(audio))) => r == Ok::<_, String>(
                Some(OutcomeKind::NeedPlay(audio)),
            ),
            SynthReply::Done(Ok(None)) => r == Ok::<Option<OutcomeKind<A>>, String>(None),
            SynthReply::Done(Err(e)) => r == Err::<Option<OutcomeKind<A>>, _>(e),
            SynthReply::TimedOut { timeout_ms } => r matches Err(e) && e@
                == "synthesize timed out after "@ + decimal(timeout_ms as nat) + "ms"@,
        },
{
    match reply {
        SynthReply::Done(Ok(Some(audio))) => Ok(Some(OutcomeKind::NeedPlay(audio))),
        SynthReply::Done(Ok(None)) => Ok(None),
        SynthReply::Done(Err(e)) => Err(e),
        SynthReply::TimedOut { timeout_ms } => {
            let mut message = "synthesize timed out after ".to_string();
            append_number(&mut message, timeout_ms);
            message.append("ms");
            Err(message)
        },
    }
}

/// How far a job has come.
pub enum JobState<A> {
    /// It waits to be started.
    Waiting,
    /// It runs.
    Running,
    /// It is done, and its outcome waits for those before it.
    Finished(Result<Option<OutcomeKind<A>>, String>),
}

/// A job that has not been delivered.
pub struct JobView<A> {
    pub segment: SegmentView,
    pub state: JobState<A>,
}

/// What a `Scheduler` holds.
pub struct SchedulerView<A> {
    /// The number of the job that is delivered next.
    pub next_seq: u64,
    /// The jobs not delivered yet, by number: the first of them has the number `next_seq`.
    pub jobs: Seq<JobView<A>>,
    /// Whether the input has ended.
    pub closed: bool,
    /// How many jobs may wait to be started before no more input is taken.
    pub backlog_limit: nat,
}

/// `base + offset`, modulo the number of `u64` values.
pub open spec fn seq_at(base: u64, offset: int) -> u64 {
    ((base + offset) % 0x1_0000_0000_0000_0000) as u64
}

/// How many of the jobs wait to be started.
pub open spec fn waiting<A>(jobs: Seq<JobView<A>>) -> nat
    decreases jobs.len(),
{
    if jobs.len() == 0 {
        0
    } else {
        waiting(jobs.drop_last()) + if jobs.last().state is Waiting {
            1nat
        } else {
            0
        }
    }
}

/// How many of the jobs run.
pub open spec fn running<A>(jobs: Seq<JobView<A>>) -> nat
    decreases jobs.len(),
{
    if jobs.len() == 0 {
        0
    } else {
        running(jobs.drop_last()) + if jobs.last().state is Running {
            1nat
        } else {
            0
        }
    }
}

/// The place of the first job that waits; the number of jobs where none does.
pub open spec fn first_waiting<A>(jobs: Seq<JobView<A>>) -> int
    decreases jobs.len(),
{
    if jobs.len() == 0 || jobs[0].state is Waiting {
        0
    } else {
        1 + first_waiting(jobs.skip(1))
    }
}

impl<A> SchedulerView<A> {
    /// The scheduler with one more job, numbered behind the others.
    pub open spec fn submitted(self, segment: SegmentView, started: bool) -> Self {
        SchedulerView {
            jobs: self.jobs.push(
                JobView {
                    segment,
                    state: if started {
                        JobState::Running
                    } else {
                        JobState::Waiting
                    },
                },
            ),
            ..self
        }
    }

    /// The number of the job at a place.
    pub open spec fn number(self, place: int) -> u64 {
        seq_at(self.next_seq, place)
    }

    /// The place of the job with a number, if there were as many jobs.
    pub open spec fn place(self, seq: u64) -> int {
        if seq >= self.next_seq {
            seq - self.next_seq
        } else {
            seq + 0x1_0000_0000_0000_0000 - self.next_seq
        }
    }

    /// Whether the job with this number runs.
    pub open spec fn runs(self, seq: u64) -> bool {
        self.place(seq) < self.jobs.len() && self.jobs[self.place(seq)].state is Running
    }

    /// The scheduler with the job at a place in another state.
    pub open spec fn with_state(self, place: int, state: JobState<A>) -> Self {
        SchedulerView {
            jobs: self.jobs.update(
                place,
                JobView { segment: self.jobs[place].segment, state },
            ),
            ..self
        }
    }

    /// Whether more input is taken.
    pub open spec fn takes_input(self) -> bool {
        !self.closed && waiting(self.jobs) < self.backlog_limit
    }

    /// Whether everything is done.
    pub open spec fn done(self) -> bool {
        self.closed && self.jobs.len() == 0
    }
}

/// A job in a scheduler.
struct Slot<A> {
    segment: TextSegment,
    state: JobState<A>,
}

impl<A> Slot<A> {
    spec fn job(self) -> JobView<A> {
        JobView { segment: self.segment@, state: self.state }
    }
}

/// The jobs of a list of slots.
spec fn jobs_of<A>(slots: Seq<Slot<A>>) -> Seq<JobView<A>> {
    slots.map_values(|slot: Slot<A>| slot.job())
}

/// Numbers jobs in the order in which they come, and delivers their outcomes in that order.
///
/// A job waits until it may be started, runs, and is finished; its outcome is held back until
/// those of all jobs before it are delivered.
pub struct Scheduler<A> {
    next_seq: u64,
    slots: VecDeque<Slot<A>>,
    closed: bool,
    backlog_limit: usize,
}

impl<A> View for Scheduler<A> {
    type V = SchedulerView<A>;

    closed spec fn view(&self) -> SchedulerView<A> {
        SchedulerView {
            next_seq: self.next_seq,
            jobs: jobs_of(self.slots@),
            closed: self.closed,
            backlog_limit: self.backlog_limit as nat,
        }
    }
}

impl<A> Scheduler<A> {
    /// A scheduler without jobs.
    pub fn new(backlog_limit: usize) -> (r: Self)
        ensures
            r@ == (SchedulerView::<A> {
                next_seq: 0,
                jobs: Seq::empty(),
                closed: false,
                backlog_limit: backlog_limit as nat,
            }),
    {
        let r = Scheduler { next_seq: 0, slots: VecDeque::new(), closed: false, backlog_limit };
        proof {
            assert(r@.jobs =~= Seq::empty());
        }
        r
    }

    /// Takes a segment in as the next job. Where it may be started, it runs from now on and is
    /// returned; else it waits.
    pub fn submit(&mut self, segment: TextSegment, may_start: bool) -> (r: Option<Job>)
        ensures
            final(self)@ == old(self)@.submitted(segment@, may_start),
            match r {
                Some(job) => may_start && job.seq == old(self)@.number(
                    old(self)@.jobs.len() as int,
                ) && job.text_segment@ == segment@,
                None => !may_start,
            },
    {
        if may_start {
            let offset: usize = self.slots.len();
            let seq: u64 = self.next_seq.wrapping_add(offset as u64);
            let text_segment = segment.clone();
            self.slots.push_back(Slot { segment, state: JobState::Running });
            proof {
                assert(self@.jobs =~= old(self)@.submitted(segment@, may_start).jobs);
            }
            Some(Job { seq, text_segment })
        } else {
            self.slots.push_back(Slot { segment, state: JobState::Waiting });
            proof {
                assert(self@.jobs =~= old(self)@.submitted(segment@, may_start).jobs);
            }
            None
        }
    }

    /// The place of the first job that waits; the number of jobs where none does.
    fn find_waiting(&self) -> (r: usize)
        ensures
            r == first_waiting(self@.jobs),
            r <= self@.jobs.len(),
            r < self@.jobs.len() ==> self@.jobs[r as int].state is Waiting,
    {
        let mut i: usize = 0;
        proof {
            assert(self@.jobs.skip(0) =~= self@.jobs);
        }
        while i < self.slots.len()
            invariant
                i <= self.slots@.len(),
                first_waiting(self@.jobs) == i + first_waiting(self@.jobs.skip(i as int)),
            decreases self.slots@.len() - i,
        {
            proof {
                assert(self@.jobs.skip(i as int)[0] == self@.jobs[i as int]);
                assert(self@.jobs.skip(i as int).skip(1) =~= self@.jobs.skip(i + 1));
            }
            if let JobState::Waiting = self.slots[i].state {
                return i;
            }
            i += 1;
        }
        i
    }

    /// Starts the first job that waits, if one does.
    pub fn start_next(&mut self) -> (r: Option<Job>)
        ensures
            ({
                let place = first_waiting(old(self)@.jobs);
                match r {
                    Some(job) => {
                        &&& place < old(self)@.jobs.len()
                        &&& job.seq == old(self)@.number(place)
                        &&& job.text_segment@ == old(self)@.jobs[place].segment
                        &&& final(self)@ == old(self)@.with_state(place, JobState::Running)
                    },
                    None => place == old(self)@.jobs.len() && final(self)@ == old(self)@,
                }
            }),
    {
        let place: usize = self.find_waiting();
        match self.slots.remove(place) {
            Some(slot) => {
                let seq: u64 = self.next_seq.wrapping_add(place as u64);
                let text_segment = slot.segment.clone();
                self.slots.insert(place, Slot { segment: slot.segment, state: JobState::Running });
                proof {
                    assert(self@.jobs =~= old(self)@.with_state(
                        place as int,
                        JobState::Running,
                    ).jobs);
                }
                Some(Job { seq, text_segment })
            },
            None => None,
        }
    }

    /// Takes in what has become of a job that runs; says whether there was such a job.
    pub fn finish(
        &mut self,
        seq: u64,
        result: Result<Option<OutcomeKind<A>>, String>,
    ) -> (r: bool)
        ensures
            r == old(self)@.runs(seq),
            final(self)@ == if r {
                old(self)@.with_state(old(self)@.place(seq), JobState::Finished(result))
            } else {
                old(self)@
            },
    {
        let place: u64 = seq.wrapping_sub(self.next_seq);
        let len: usize = self.slots.len();
        if place >= len as u64 {
            return false;
        }
        let place: usize = place as usize;
        let runs = match self.slots[place].state {
            JobState::Running => true,
            _ => false,
        };
        if !runs {
            return false;
        }
        if let Some(slot) = self.slots.remove(place) {
            self.slots.insert(
                place,
                Slot { segment: slot.segment, state: JobState::Finished(result) },
            );
            proof {
                assert(self@.jobs =~= old(self)@.with_state(
                    place as int,
                    JobState::Finished(result),
                ).jobs);
            }
        }
        true
    }

    /// Delivers the outcome of the next job, if it is there.
    pub fn next_outcome(&mut self) -> (r: Option<JobOutcome<A>>)
        ensures
            match r {
                Some(outcome) => {
                    &&& old(self)@.jobs.len() > 0
                    &&& old(self)@.jobs[0].state == JobState::Finished(outcome.result)
                    &&& outcome.text_segment@ == old(self)@.jobs[0].segment
                    &&& outcome.seq == old(self)@.next_seq
                    &&& final(self)@ == (SchedulerView {
                        next_seq: seq_at(old(self)@.next_seq, 1),
                        jobs: old(self)@.jobs.skip(1),
                        ..old(self)@
                    })
                },
                None => {
                    &&& old(self)@.jobs.len() == 0 || !(old(self)@.jobs[0].state is Finished)
                    &&& final(self)@ == old(self)@
                },
            },
    {
        if self.slots.len() == 0 {
            return None;
        }
        let finished = match self.slots[0].state {
            JobState::Finished(_) => true,
            _ => false,
        };
        if !finished {
            return None;
        }
        match self.slots.pop_front() {
            Some(slot) => {
                let seq: u64 = self.next_seq;
                self.next_seq = seq.wrapping_add(1);
                proof {
                    assert(self@.jobs =~= old(self)@.jobs.skip(1));
                }
                match slot.state {
                    JobState::Finished(result) => Some(
                        JobOutcome { seq, text_segment: slot.segment, result },
                    ),
                    _ => None,
                }
            },
            None => None,
        }
    }

    /// Ends the input.
    pub fn close_input(&mut self)
        ensures
            final(self)@ == (SchedulerView { closed: true, ..old(self)@ }),
    {
        self.closed = true;
    }

    /// Whether more input is taken.
    pub fn wants_input(&self) -> (r: bool)
        ensures
            r == self@.takes_input(),
    {
        if self.closed {
            return false;
        }
        let mut i: usize = 0;
        let mut count: usize = 0;
        proof {
            assert(self@.jobs.take(0) =~= Seq::empty());
        }
        while i < self.slots.len()
            invariant
                count <= i <= self.slots@.len(),
                count == waiting(self@.jobs.take(i as int)),
            decreases self.slots@.len() - i,
        {
            proof {
                assert(self@.jobs.take(i + 1).drop_last() =~= self@.jobs.take(i as int));
                assert(self@.jobs.take(i + 1).last() == self@.jobs[i as int]);
            }
            if let JobState::Waiting = self.slots[i].state {
                count += 1;
            }
            i += 1;
        }
        proof {
            assert(self@.jobs.take(i as int) =~= self@.jobs);
        }
        count < self.backlog_limit
    }

    /// How many jobs run.
    pub fn running_jobs(&self) -> (r: usize)
        ensures
            r == running(self@.jobs),
    {
        let mut i: usize = 0;
        let mut count: usize = 0;
        proof {
            assert(self@.jobs.take(0) =~= Seq::empty());
        }
        while i < self.slots.len()
            invariant
                count <= i <= self.slots@.len(),
                count == running(self@.jobs.take(i as int)),
            decreases self.slots@.len() - i,
        {
            proof {
                assert(self@.jobs.take(i + 1).drop_last() =~= self@.jobs.take(i as int));
                assert(self@.jobs.take(i + 1).last() == self@.jobs[i as int]);
            }
            if let JobState::Running = self.slots[i].state {
                count += 1;
            }
            i += 1;
        }
        proof {
            assert(self@.jobs.take(i as int) =~= self@.jobs);
        }
        count
    }

    /// Whether the input has ended and every job is delivered.
    pub fn is_done(&self) -> (r: bool)
        ensures
            r == self@.done(),
    {
        self.closed && self.slots.len() == 0
    }
}

/// More jobs hold no fewer that run.
proof fn lemma_running_grows<A>(jobs: Seq<JobView<A>>, n: int)
    requires
        0 <= n <= jobs.len(),
    ensures
        running(jobs.take(n)) <= running(jobs),
    decreases jobs.len() - n,
{
    if n < jobs.len() {
        lemma_running_grows(jobs, n + 1);
        assert(jobs.take(n + 1).drop_last() =~= jobs.take(n));
    } else {
        assert(jobs.take(n) =~= jobs);
    }
}

/// Something that happens to a scheduler.
pub enum SchedulerEvent<A> {
    Submit { segment: SegmentView, may_start: bool },
    StartNext,
    Finish { seq: u64, result: Result<Option<OutcomeKind<A>>, String> },
    Deliver,
    CloseInput,
}

/// The scheduler after an event.
pub open spec fn after_event<A>(s: SchedulerView<A>, event: SchedulerEvent<A>) -> SchedulerView<A> {
    match event {
        SchedulerEvent::Submit { segment, may_start } => s.submitted(segment, may_start),
        SchedulerEvent::StartNext => {
            let place = first_waiting(s.jobs);
            if place < s.jobs.len() {
                s.with_state(place, JobState::Running)
            } else {
                s
            }
        },
        SchedulerEvent::Finish { seq, result } => if s.runs(seq) {
            s.with_state(s.place(seq), JobState::Finished(result))
        } else {
            s
        },
        SchedulerEvent::Deliver => if s.jobs.len() > 0 && s.jobs[0].state is Finished {
            SchedulerView { next_seq: seq_at(s.next_seq, 1), jobs: s.jobs.skip(1), ..s }
        } else {
            s
        },
        SchedulerEvent::CloseInput => SchedulerView { closed: true, ..s },
    }
}

/// The scheduler after a run of events.
pub open spec fn after_events<A>(
    s: SchedulerView<A>,
    events: Seq<SchedulerEvent<A>>,
) -> SchedulerView<A>
    decreases events.len(),
{
    if events.len() == 0 {
        s
    } else {
        after_event(after_events(s, events.drop_last()), events.last())
    }
}

/// The segments that a run of events takes in, in order.
pub open spec fn taken_in<A>(events: Seq<SchedulerEvent<A>>) -> Seq<SegmentView>
    decreases events.len(),
{
    if events.len() == 0 {
        Seq::empty()
    } else {
        let before = taken_in(events.drop_last());
        match events.last() {
            SchedulerEvent::Submit { segment, .. } => before.push(segment),
            _ => before,
        }
    }
}

/// The segments whose outcomes a run of events delivers, in order.
pub open spec fn delivered<A>(s: SchedulerView<A>, events: Seq<SchedulerEvent<A>>) -> Seq<
    SegmentView,
>
    decreases events.len(),
{
    if events.len() == 0 {
        Seq::empty()
    } else {
        let before = delivered(s, events.drop_last());
        let state = after_events(s, events.drop_last());
        if events.last() is Deliver && state.jobs.len() > 0 && state.jobs[0].state is Finished {
            before.push(state.jobs[0].segment)
        } else {
            before
        }
    }
}

/// The segments of jobs, in order.
pub open spec fn segments_of<A>(jobs: Seq<JobView<A>>) -> Seq<SegmentView> {
    jobs.map_values(|job: JobView<A>| job.segment)
}

/// Whatever happens, and in whatever order jobs are started and finished, each segment is
/// delivered once, in the order in which it was taken in: what was delivered, followed by what
/// is still held, is what was held at first, followed by what was taken in.
pub proof fn law_delivered_once_in_order<A>(
    s: SchedulerView<A>,
    events: Seq<SchedulerEvent<A>>,
)
    ensures
        delivered(s, events) + segments_of(after_events(s, events).jobs) == segments_of(s.jobs)
            + taken_in(events),
    decreases events.len(),
{
    if events.len() == 0 {
        assert(delivered(s, events) + segments_of(s.jobs) =~= segments_of(s.jobs) + taken_in(
            events,
        ));
    } else {
        let earlier = events.drop_last();
        law_delivered_once_in_order(s, earlier);
        let mid = after_events(s, earlier);
        let end = after_events(s, events);
        lemma_first_waiting(mid.jobs);
        match events.last() {
            SchedulerEvent::Submit { segment, may_start } => {
                assert(segments_of(end.jobs) =~= segments_of(mid.jobs).push(segment));
                assert(delivered(s, events) + segments_of(end.jobs) =~= (delivered(s, earlier)
                    + segments_of(mid.jobs)).push(segment));
                assert(segments_of(s.jobs) + taken_in(events) =~= (segments_of(s.jobs) + taken_in(
                    earlier,
                )).push(segment));
            },
            SchedulerEvent::Deliver => {
                if mid.jobs.len() > 0 && mid.jobs[0].state is Finished {
                    assert(segments_of(mid.jobs) =~= seq![mid.jobs[0].segment] + segments_of(
                        end.jobs,
                    ));
                    assert(delivered(s, events) + segments_of(end.jobs) =~= delivered(s, earlier)
                        + segments_of(mid.jobs));
                }
            },
            _ => {
                assert(segments_of(end.jobs) =~= segments_of(mid.jobs));
            },
        }
    }
}

/// The first job that waits lies among the jobs, if there is one, and does wait.
pub proof fn lemma_first_waiting<A>(jobs: Seq<JobView<A>>)
    ensures
        0 <= first_waiting(jobs) <= jobs.len(),
        first_waiting(jobs) < jobs.len() ==> jobs[first_waiting(jobs)].state is Waiting,
    decreases jobs.len(),
{
    if jobs.len() > 0 && !(jobs[0].state is Waiting) {
        lemma_first_waiting(jobs.skip(1));
    }
}

/// When everything is done, everything that was taken in has been delivered.
pub proof fn law_done_means_all_delivered<A>(
    s: SchedulerView<A>,
    events: Seq<SchedulerEvent<A>>,
)
    requires
        s.jobs.len() == 0,
        after_events(s, events).done(),
    ensures
        delivered(s, events) == taken_in(events),
{
    law_delivered_once_in_order(s, events);
    assert(delivered(s, events) + segments_of(after_events(s, events).jobs) =~= delivered(
        s,
        events,
    ));
    assert(segments_of(s.jobs) + taken_in(events) =~= taken_in(events));
}

/// No two of the jobs held have the same number, and each is found by its number.
pub proof fn law_numbers_are_distinct<A>(s: SchedulerView<A>, i: int, j: int)
    requires
        0 <= i < s.jobs.len(),
        0 <= j < s.jobs.len(),
        s.jobs.len() <= 0x1_0000_0000_0000_0000,
    ensures
        s.place(s.number(i)) == i,
        s.number(i) == s.number(j) ==> i == j,
{
}

/// While a job is held, something can be done: the next job to deliver waits to be started,
/// runs, or has its outcome ready.
pub proof fn law_never_stuck<A>(s: SchedulerView<A>)
    requires
        s.jobs.len() > 0,
    ensures
        first_waiting(s.jobs) < s.jobs.len() || running(s.jobs) > 0 || s.jobs[0].state is Finished,
{
    if s.jobs[0].state is Running {
        assert(s.jobs.take(1).drop_last() =~= Seq::empty());
        lemma_running_grows(s.jobs, 1);
        reveal_with_fuel(running, 2);
    }
}

/// When the last playback is done.
#[derive(Debug, Clone, Copy, PartialEq, Eq, Structural)]
pub struct PlaybackDrain {
    pub last_done: Option<Timestamp>,
}

/// The later of a time and one that may be missing.
pub open spec fn later(known: Option<Timestamp>, ts: Timestamp) -> Option<Timestamp> {
    match known {
        Some(prev) => if ts.nanos > prev.nanos {
            Some(ts)
        } else {
            Some(prev)
        },
        None => Some(ts),
    }
}

impl PlaybackDrain {
    /// Nothing was played.
    pub fn new() -> (r: Self)
        ensures
            r.last_done is None,
    {
        PlaybackDrain { last_done: None }
    }

    /// Notes that a playback is done, or will be, at `ts`.
    pub fn note_done(&mut self, ts: Timestamp)
        ensures
            final(self).last_done == later(old(self).last_done, ts),
    {
        let newer = match self.last_done {
            Some(prev) => ts.is_after(prev),
            None => true,
        };
        if newer {
            self.last_done = Some(ts);
        }
    }

    /// Counts a playback in; says whether its end is reported later.
    pub fn track(&mut self, metrics: &TtsMetrics) -> (r: bool)
        ensures
            r == metrics.play_done_reported,
            final(self).last_done == if r {
                old(self).last_done
            } else {
                later(old(self).last_done, metrics.play_done_ts)
            },
    {
        if metrics.play_done_reported {
            return true;
        }
        self.note_done(metrics.play_done_ts);
        false
    }

    /// Until when playback goes on, if it does.
    pub fn wait_until(&self, now: Timestamp) -> (r: Option<Timestamp>)
        ensures
            r == match self.last_done {
                Some(ts) if ts.nanos > now.nanos => Some(ts),
                _ => None,
            },
    {
        match self.last_done {
            Some(ts) => if ts.is_after(now) {
                Some(ts)
            } else {
                None
            },
            None => None,
        }
    }
}

/// The last of the times noted one after the other.
pub open spec fn last_of(times: Seq<Timestamp>) -> Option<Timestamp>
    decreases times.len(),
{
    if times.len() == 0 {
        None
    } else {
        later(last_of(times.drop_last()), times.last())
    }
}

/// Playback is awaited until the latest of all ends noted, in whatever order they were.
pub proof fn law_drain_waits_for_the_latest(times: Seq<Timestamp>)
    ensures
        match last_of(times) {
            Some(ts) => times.contains(ts) && forall|i: int|
                0 <= i < times.len() ==> (#[trigger] times[i]).nanos <= ts.nanos,
            None => times.len() == 0,
        },
    decreases times.len(),
{
    if times.len() > 0 {
        let earlier = times.drop_last();
        law_drain_waits_for_the_latest(earlier);
        let ts = last_of(times)->0;
        assert(times[times.len() - 1] == times.last());
        assert forall|i: int| 0 <= i < times.len() implies (#[trigger] times[i]).nanos
            <= ts.nanos by {
            if i < times.len() - 1 {
                assert(earlier[i] == times[i]);
            }
        }
        if ts != times.last() {
            let k = choose|k: int| 0 <= k < earlier.len() && earlier[k] == ts;
            assert(times[k] == ts);
        }
    }
}

/// What went wrong with a segment.
#[derive(Debug)]
pub enum Problem {
    NothingSynthesized,
    NothingPlayed,
    Failed(String),
}

/// Where a pipeline stands in its round: it starts what waits, waits for something to happen, and
/// delivers what is finished.
#[derive(Debug)]
pub enum Stage {
    Starting,
    Waiting,
    Delivering,
    /// The audio of a segment is being played.
    Playing(TextSegment),
    Over { cancelled: bool },
}

/// A `Stage` with its segment as a view.
pub enum StageView {
    Starting,
    Waiting,
    Delivering,
    Playing(SegmentView),
    Over { cancelled: bool },
}

impl View for Stage {
    type V = StageView;

    open spec fn view(&self) -> StageView {
        match self {
            Stage::Starting => StageView::Starting,
            Stage::Waiting => StageView::Waiting,
            Stage::Delivering => StageView::Delivering,
            Stage::Playing(segment) => StageView::Playing(segment@),
            Stage::Over { cancelled } => StageView::Over { cancelled: *cancelled },
        }
    }
}

/// What is to be done for a pipeline next.
#[derive(Debug)]
pub enum PipelineAction<A> {
    /// Run a job, and hand in what becomes of it.
    Run(Job),
    /// Wait for cancellation, for input where it is taken, and for a job where one runs.
    Await { input: bool, jobs: bool },
    /// Play audio, and hand in the reply.
    Play(A),
    /// A segment was played; the end of its playback may still be reported.
    Played { event: Option<MetricEvent>, report_pending: bool },
    /// A segment was not played.
    Warn { turn_id: u64, problem: Problem },
    /// Hand in the reply to the audio that is being played.
    AwaitReply,
    /// Stop; where playback is to be drained, wait for its end first.
    Stop { drain: bool },
}

/// A `PipelineAction` with its job as a number and a view.
pub enum ActionView<A> {
    Run { seq: u64, segment: SegmentView },
    Await { input: bool, jobs: bool },
    Play(A),
    Played { event: Option<MetricEvent>, report_pending: bool },
    Warn { turn_id: u64, problem: Problem },
    AwaitReply,
    Stop { drain: bool },
}

impl<A> View for PipelineAction<A> {
    type V = ActionView<A>;

    open spec fn view(&self) -> ActionView<A> {
        match *self {
            PipelineAction::Run(job) => ActionView::Run {
                seq: job.seq,
                segment: job.text_segment@,
            },
            PipelineAction::Await { input, jobs } => ActionView::Await { input, jobs },
            PipelineAction::Play(audio) => ActionView::Play(audio),
            PipelineAction::Played { event, report_pending } => ActionView::Played {
                event,
                report_pending,
            },
            PipelineAction::Warn { turn_id, problem } => ActionView::Warn { turn_id, problem },
            PipelineAction::AwaitReply => ActionView::AwaitReply,
            PipelineAction::Stop { drain } => ActionView::Stop { drain },
        }
    }
}

/// The event of a segment that enters the pipeline: the first of a turn is one.
pub open spec fn segment_event(segment: SegmentView) -> Option<MetricEvent> {
    if segment.first_token_ts is Some {
        Some(
            MetricEvent {
                turn_id: segment.turn_id,
                kind: MetricEventKind::TtsFirstSegmentSent,
                ts: segment.segment_sent_ts,
            },
        )
    } else {
        None
    }
}

/// The event of the first audio of a turn, if this is it.
pub open spec fn first_audio_event(
    state: PipelineState,
    segment: SegmentView,
    metrics: TtsMetrics,
) -> Option<MetricEvent> {
    if !state.first_audio_emitted && segment.first_token_ts is Some && metrics.first_audio_ts
        is Some {
        Some(
            MetricEvent {
                turn_id: segment.turn_id,
                kind: MetricEventKind::TtsFirstAudio,
                ts: metrics.first_audio_ts->0,
            },
        )
    } else {
        None
    }
}

/// Segments on their way from text to audio.
pub struct Pipeline<A> {
    pub plan: RunPlan,
    pub scheduler: Scheduler<A>,
    pub state: PipelineState,
    pub drain: PlaybackDrain,
    pub stage: Stage,
}

/// What a `Pipeline` holds.
pub struct PipelineView<A> {
    pub plan: RunPlan,
    pub queue: SchedulerView<A>,
    pub state: PipelineState,
    pub drain: PlaybackDrain,
    pub stage: StageView,
}

impl<A> View for Pipeline<A> {
    type V = PipelineView<A>;

    open spec fn view(&self) -> PipelineView<A> {
        PipelineView {
            plan: self.plan,
            queue: self.scheduler@,
            state: self.state,
            drain: self.drain,
            stage: self.stage@,
        }
    }
}

impl<A> PipelineView<A> {
    /// A pipeline without segments.
    pub open spec fn start(config: PipelineConfig, supports_queue: bool) -> Self {
        PipelineView {
            plan: RunPlan::of(config, supports_queue),
            queue: SchedulerView {
                next_seq: 0,
                jobs: Seq::empty(),
                closed: false,
                backlog_limit: at_least_one(config.backlog_limit) as nat,
            },
            state: PipelineState { current_turn_id: None, first_audio_emitted: false },
            drain: PlaybackDrain { last_done: None },
            stage: StageView::Starting,
        }
    }

    /// The pipeline in another stage.
    pub open spec fn at(self, stage: StageView) -> Self {
        PipelineView { stage, ..self }
    }

    /// Whether one more job may run.
    pub open spec fn has_slot(self) -> bool {
        running(self.queue.jobs) < self.plan.max_inflight
    }

    /// The pipeline with one more segment, which runs at once where there is a slot.
    pub open spec fn with_segment(self, segment: SegmentView) -> Self {
        PipelineView {
            queue: self.queue.submitted(segment, self.has_slot()),
            state: if self.state.current_turn_id == Some(segment.turn_id) {
                self.state
            } else {
                PipelineState {
                    current_turn_id: Some(segment.turn_id),
                    first_audio_emitted: false,
                }
            },
            ..self
        }
    }

    /// What to wait for.
    pub open spec fn awaiting(self) -> ActionView<A> {
        ActionView::Await { input: self.queue.takes_input(), jobs: running(self.queue.jobs) > 0 }
    }

    /// Starts the first job that waits where there is a slot, else waits.
    pub open spec fn starting(self) -> (ActionView<A>, Self) {
        let place = first_waiting(self.queue.jobs);
        if place < self.queue.jobs.len() && self.has_slot() {
            (
                ActionView::Run {
                    seq: self.queue.number(place),
                    segment: self.queue.jobs[place].segment,
                },
                PipelineView {
                    queue: self.queue.with_state(place, JobState::Running),
                    stage: StageView::Starting,
                    ..self
                },
            )
        } else {
            (self.awaiting(), self.at(StageView::Waiting))
        }
    }

    /// Counts a played segment in.
    pub open spec fn counted(self, segment: SegmentView, metrics: TtsMetrics) -> (
        ActionView<A>,
        Self,
    ) {
        let event = first_audio_event(self.state, segment, metrics);
        (
            ActionView::Played { event, report_pending: metrics.play_done_reported },
            PipelineView {
                state: PipelineState {
                    first_audio_emitted: self.state.first_audio_emitted || event is Some,
                    ..self.state
                },
                drain: PlaybackDrain {
                    last_done: if metrics.play_done_reported {
                        self.drain.last_done
                    } else {
                        later(self.drain.last_done, metrics.play_done_ts)
                    },
                },
                stage: StageView::Delivering,
                ..self
            },
        )
    }

    /// Delivers the outcome of the first job, which is finished.
    pub open spec fn delivering(self) -> (ActionView<A>, Self) {
        let segment = self.queue.jobs[0].segment;
        let rest = PipelineView {
            queue: SchedulerView {
                next_seq: seq_at(self.queue.next_seq, 1),
                jobs: self.queue.jobs.skip(1),
                ..self.queue
            },
            ..self
        };
        match self.queue.jobs[0].state->Finished_0 {
            Ok(Some(OutcomeKind::Played(metrics))) => rest.counted(segment, metrics),
            Ok(Some(OutcomeKind::NeedPlay(audio))) => (
                ActionView::Play(audio),
                rest.at(StageView::Playing(segment)),
            ),
            Ok(None) => (
                ActionView::Warn { turn_id: segment.turn_id, problem: Problem::NothingSynthesized },
                rest,
            ),
            Err(e) => (
                ActionView::Warn { turn_id: segment.turn_id, problem: Problem::Failed(e) },
                rest,
            ),
        }
    }

    /// What is to be done next, and the pipeline once it is asked for.
    pub open spec fn next(self) -> (ActionView<A>, Self) {
        match self.stage {
            StageView::Starting => self.starting(),
            StageView::Waiting => (self.awaiting(), self),
            StageView::Delivering => if self.queue.jobs.len() > 0 && self.queue.jobs[0].state
                is Finished {
                self.delivering()
            } else if self.queue.done() {
                (
                    ActionView::Stop { drain: true },
                    self.at(StageView::Over { cancelled: false }),
                )
            } else {
                self.starting()
            },
            StageView::Playing(_) => (ActionView::AwaitReply, self),
            StageView::Over { cancelled } => (ActionView::Stop { drain: !cancelled }, self),
        }
    }

    /// The pipeline once a segment, or the end of the input, is taken in.
    pub open spec fn with_input(self, segment: Option<SegmentView>) -> Self {
        match segment {
            Some(segment) => self.with_segment(segment).at(StageView::Delivering),
            None => PipelineView {
                queue: SchedulerView { closed: true, ..self.queue },
                stage: StageView::Delivering,
                ..self
            },
        }
    }

    /// The pipeline once it is known what has become of a job.
    pub open spec fn with_job_done(
        self,
        seq: u64,
        result: Result<Option<OutcomeKind<A>>, String>,
    ) -> Self {
        if self.queue.runs(seq) {
            PipelineView {
                queue: self.queue.with_state(self.queue.place(seq), JobState::Finished(result)),
                stage: StageView::Delivering,
                ..self
            }
        } else {
            self.at(StageView::Starting)
        }
    }

    /// What is to be done with the engine's reply to the audio of a segment.
    pub open spec fn replied(
        self,
        segment: SegmentView,
        reply: Result<Option<TtsMetrics>, String>,
    ) -> (ActionView<A>, Self) {
        match reply {
            Ok(Some(metrics)) => self.counted(segment, metrics),
            Ok(None) => (
                ActionView::Warn { turn_id: segment.turn_id, problem: Problem::NothingPlayed },
                self.at(StageView::Delivering),
            ),
            Err(e) => (
                ActionView::Warn { turn_id: segment.turn_id, problem: Problem::Failed(e) },
                self.at(StageView::Delivering),
            ),
        }
    }
}

impl<A> Pipeline<A> {
    /// A pipeline without segments, for an engine that can or cannot synthesize ahead.
    pub fn new(config: PipelineConfig, supports_queue: bool) -> (r: Self)
        ensures
            r@ == PipelineView::<A>::start(config, supports_queue),
    {
        let plan = RunPlan::new(config, supports_queue);
        Pipeline {
            plan,
            scheduler: Scheduler::new(plan.backlog_limit),
            state: PipelineState::new(),
            drain: PlaybackDrain::new(),
            stage: Stage::Starting,
        }
    }

    /// Takes a segment in; returns the event that it is, and the job to run where there is a
    /// slot for it.
    pub fn schedule_text_segment(&mut self, segment: TextSegment) -> (r: (
        Option<MetricEvent>,
        Option<Job>,
    ))
        ensures
            final(self)@ == old(self)@.with_segment(segment@),
            r.0 == segment_event(segment@),
            match r.1 {
                Some(job) => old(self)@.has_slot() && job.text_segment@ == segment@ && job.seq
                    == old(self)@.queue.number(old(self)@.queue.jobs.len() as int),
                None => !old(self)@.has_slot(),
            },
    {
        let event = self.state.on_segment(&segment);
        let has_slot = self.scheduler.running_jobs() < self.plan.max_inflight;
        let job = self.scheduler.submit(segment, has_slot);
        (event, job)
    }

    /// Takes a segment in, or the end of the input, which is `None`.
    pub fn on_input(&mut self, segment: Option<TextSegment>) -> (r: (
        Option<MetricEvent>,
        Option<Job>,
    ))
        requires
            old(self)@.stage is Waiting,
        ensures
            final(self)@ == old(self)@.with_input(segment_view(segment)),
            match segment {
                Some(segment) => {
                    &&& r.0 == segment_event(segment@)
                    &&& match r.1 {
                        Some(job) => old(self)@.has_slot() && job.text_segment@ == segment@
                            && job.seq == old(self)@.queue.number(
                            old(self)@.queue.jobs.len() as int,
                        ),
                        None => !old(self)@.has_slot(),
                    }
                },
                None => r.0 is None && r.1 is None,
            },
    {
        self.stage = Stage::Delivering;
        match segment {
            Some(segment) => self.schedule_text_segment(segment),
            None => {
                self.scheduler.close_input();
                (None, None)
            },
        }
    }

    /// Takes in what has become of a job.
    pub fn on_job_done(&mut self, seq: u64, result: Result<Option<OutcomeKind<A>>, String>)
        requires
            old(self)@.stage is Waiting,
        ensures
            final(self)@ == old(self)@.with_job_done(seq, result),
    {
        if self.scheduler.finish(seq, result) {
            self.stage = Stage::Delivering;
        } else {
            self.stage = Stage::Starting;
        }
    }

    /// The pipeline was cancelled.
    pub fn on_cancelled(&mut self)
        ensures
            final(self)@ == old(self)@.at(StageView::Over { cancelled: true }),
    {
        self.stage = Stage::Over { cancelled: true };
    }

    /// Counts a played segment in.
    fn count_in(&mut self, segment: &TextSegment, metrics: &TtsMetrics) -> (r: PipelineAction<A>)
        ensures
            (r@, final(self)@) == old(self)@.counted(segment@, *metrics),
    {
        let event = self.state.on_metrics(segment, metrics);
        let report_pending = self.drain.track(metrics);
        self.stage = Stage::Delivering;
        PipelineAction::Played { event, report_pending }
    }

    /// Takes in the engine's reply to the audio that is being played.
    pub fn on_play_reply(&mut self, reply: Result<Option<TtsMetrics>, String>) -> (r:
        PipelineAction<A>)
        requires
            old(self)@.stage is Playing,
        ensures
            (r@, final(self)@) == old(self)@.replied(old(self)@.stage->Playing_0, reply),
    {
        let segment = match &self.stage {
            Stage::Playing(segment) => segment.clone(),
            _ => {
                return PipelineAction::AwaitReply;
            },
        };
        self.stage = Stage::Delivering;
        match reply {
            Ok(Some(metrics)) => self.count_in(&segment, &metrics),
            Ok(None) => PipelineAction::Warn {
                turn_id: segment.turn_id,
                problem: Problem::NothingPlayed,
            },
            Err(e) => PipelineAction::Warn {
                turn_id: segment.turn_id,
                problem: Problem::Failed(e),
            },
        }
    }

    /// What to wait for.
    fn await_action(&self) -> (r: PipelineAction<A>)
        ensures
            r@ == self@.awaiting(),
    {
        PipelineAction::Await {
            input: self.scheduler.wants_input(),
            jobs: self.scheduler.running_jobs() > 0,
        }
    }

    /// Starts the first job that waits where there is a slot, else waits.
    fn start_or_wait(&mut self) -> (r: PipelineAction<A>)
        ensures
            (r@, final(self)@) == old(self)@.starting(),
    {
        if self.scheduler.running_jobs() < self.plan.max_inflight {
            if let Some(job) = self.scheduler.start_next() {
                self.stage = Stage::Starting;
                return PipelineAction::Run(job);
            }
        }
        self.stage = Stage::Waiting;
        self.await_action()
    }

    /// What is to be done next.
    pub fn next_action(&mut self) -> (r: PipelineAction<A>)
        ensures
            (r@, final(self)@) == old(self)@.next(),
    {
        match &self.stage {
            Stage::Starting => self.start_or_wait(),
            Stage::Waiting => self.await_action(),
            Stage::Delivering => match self.scheduler.next_outcome() {
                Some(outcome) => {
                    let segment = outcome.text_segment;
                    match outcome.result {
                        Ok(Some(OutcomeKind::Played(metrics))) => self.count_in(
                            &segment,
                            &metrics,
                        ),
                        Ok(Some(OutcomeKind::NeedPlay(audio))) => {
                            self.stage = Stage::Playing(segment);
                            PipelineAction::Play(audio)
                        },
                        Ok(None) => PipelineAction::Warn {
                            turn_id: segment.turn_id,
                            problem: Problem::NothingSynthesized,
                        },
                        Err(e) => PipelineAction::Warn {
                            turn_id: segment.turn_id,
                            problem: Problem::Failed(e),
                        },
                    }
                },
                None => if self.scheduler.is_done() {
                    self.stage = Stage::Over { cancelled: false };
                    PipelineAction::Stop { drain: true }
                } else {
                    self.start_or_wait()
                },
            },
            Stage::Playing(_) => PipelineAction::AwaitReply,
            Stage::Over { cancelled } => PipelineAction::Stop { drain: !*cancelled },
        }
    }
}

/// Something that happens to a pipeline.
pub enum PipelineEvent<A> {
    Next,
    /// A segment comes, or the input ends; while it waits and takes input.
    Input(Option<SegmentView>),
    /// A job is done; while it waits.
    JobDone { seq: u64, result: Result<Option<OutcomeKind<A>>, String> },
    /// The engine replies; while audio is being played.
    Reply(Result<Option<TtsMetrics>, String>),
    Cancelled,
}

/// The pipeline after an event; one that cannot happen in its stage has no effect.
pub open spec fn pipeline_after<A>(s: PipelineView<A>, event: PipelineEvent<A>) -> PipelineView<A> {
    match event {
        PipelineEvent::Next => s.next().1,
        PipelineEvent::Input(segment) => if s.stage is Waiting && s.queue.takes_input() {
            s.with_input(segment)
        } else {
            s
        },
        PipelineEvent::JobDone { seq, result } => if s.stage is Waiting {
            s.with_job_done(seq, result)
        } else {
            s
        },
        PipelineEvent::Reply(reply) => match s.stage {
            StageView::Playing(segment) => s.replied(segment, reply).1,
            _ => s,
        },
        PipelineEvent::Cancelled => s.at(StageView::Over { cancelled: true }),
    }
}

/// What holds of a pipeline at all times: no more jobs run than may, and while it starts jobs or
/// waits there is nothing to deliver and something left to do; while it waits no job waits for a
/// slot that is free.
pub open spec fn pipeline_inv<A>(s: PipelineView<A>) -> bool {
    &&& s.plan.max_inflight >= 1
    &&& s.queue.backlog_limit >= 1
    &&& running(s.queue.jobs) <= s.plan.max_inflight
    &&& (s.stage is Starting || s.stage is Waiting) ==> {
        &&& !s.queue.done()
        &&& s.queue.jobs.len() > 0 ==> !(s.queue.jobs[0].state is Finished)
    }
    &&& s.stage is Waiting ==> !s.has_slot() || first_waiting(s.queue.jobs) >= s.queue.jobs.len()
}

/// A job more or less that runs.
proof fn lemma_running_update<A>(jobs: Seq<JobView<A>>, place: int, job: JobView<A>)
    requires
        0 <= place < jobs.len(),
    ensures
        running(jobs.update(place, job)) == running(jobs) - (if jobs[place].state is Running {
            1int
        } else {
            0
        }) + (if job.state is Running {
            1int
        } else {
            0
        }),
    decreases jobs.len(),
{
    let updated = jobs.update(place, job);
    if place < jobs.len() - 1 {
        lemma_running_update(jobs.drop_last(), place, job);
        assert(updated.drop_last() =~= jobs.drop_last().update(place, job));
    } else {
        assert(updated.drop_last() =~= jobs.drop_last());
    }
}

/// The jobs behind the first one.
proof fn lemma_running_skip<A>(jobs: Seq<JobView<A>>)
    requires
        jobs.len() > 0,
    ensures
        running(jobs.skip(1)) == running(jobs) - (if jobs[0].state is Running {
            1int
        } else {
            0
        }),
    decreases jobs.len(),
{
    if jobs.len() == 1 {
        assert(jobs.skip(1) =~= Seq::empty());
        assert(jobs.drop_last() =~= Seq::empty());
    } else {
        lemma_running_skip(jobs.drop_last());
        assert(jobs.skip(1).drop_last() =~= jobs.drop_last().skip(1));
    }
}

/// A new pipeline is in order.
pub proof fn law_new_pipeline_is_in_order<A>(config: PipelineConfig, supports_queue: bool)
    ensures
        pipeline_inv(PipelineView::<A>::start(config, supports_queue)),
{
}

/// Every event leaves a pipeline in order. In particular no more jobs ever run than the plan
/// allows.
pub proof fn law_pipeline_stays_in_order<A>(s: PipelineView<A>, event: PipelineEvent<A>)
    requires
        pipeline_inv(s),
    ensures
        pipeline_inv(pipeline_after(s, event)),
{
    let jobs = s.queue.jobs;
    lemma_first_waiting(jobs);
    match event {
        PipelineEvent::Next => {
            if s.stage is Starting || s.stage is Delivering {
                if first_waiting(jobs) < jobs.len() {
                    let place = first_waiting(jobs);
                    lemma_running_update(
                        jobs,
                        place,
                        JobView { segment: jobs[place].segment, state: JobState::Running },
                    );
                }
                if jobs.len() > 0 {
                    lemma_running_skip(jobs);
                }
            }
        },
        PipelineEvent::Input(segment) => {
            if segment is Some {
                assert(s.with_segment(segment->0).queue.jobs.drop_last() =~= jobs);
            }
        },
        PipelineEvent::JobDone { seq, result } => {
            if s.stage is Waiting && s.queue.runs(seq) {
                let place = s.queue.place(seq);
                lemma_running_update(
                    jobs,
                    place,
                    JobView { segment: jobs[place].segment, state: JobState::Finished(result) },
                );
            }
        },
        _ => {},
    }
}

/// A pipeline in order never waits for nothing: while it waits it takes input, or a job runs.
pub proof fn law_never_waits_for_nothing<A>(s: PipelineView<A>)
    requires
        pipeline_inv(s),
    ensures
        s.next().0 matches ActionView::Await { input, jobs } ==> input || jobs,
{
    let jobs = s.queue.jobs;
    lemma_first_waiting(jobs);
    if running(jobs) == 0 && jobs.len() > 0 && !(jobs[0].state is Finished) {
        // The first job waits, and there is a slot for it.
        law_never_stuck(s.queue);
        assert(first_waiting(jobs) < jobs.len());
    }
    if jobs.len() == 0 {
        assert(waiting(jobs) == 0);
    }
}

/// A run is decoupled exactly where the engine can synthesize ahead and the mode does not forbid
/// it. It then runs as many jobs at once as are configured, one at least, each for the configured
/// time at most; a serial run has one job at a time, and no limit on it. That the engine cannot
/// is told only where decoupling was asked for by name.
pub proof fn law_runs_ahead_where_the_engine_can(config: PipelineConfig, supports_queue: bool)
    ensures
        ({
            let plan = RunPlan::of(config, supports_queue);
            let ahead = supports_queue && (config.mode == PipelineMode::Auto || config.mode
                == PipelineMode::Decoupled);
            &&& (plan.runner == RunnerKind::Decoupled) == ahead
            &&& (plan.runner == RunnerKind::Serial) == !ahead
            &&& ahead && config.synth_inflight >= 1 ==> plan.max_inflight == config.synth_inflight
            &&& ahead && config.synth_inflight == 0 ==> plan.max_inflight == 1
            &&& !ahead ==> plan.max_inflight == 1
            &&& ahead && config.synth_timeout_ms > 0 ==> plan.synth_timeout_ms == Some(
                config.synth_timeout_ms,
            )
            &&& config.synth_timeout_ms == 0 || !ahead ==> plan.synth_timeout_ms is None
            &&& config.backlog_limit >= 1 ==> plan.backlog_limit == config.backlog_limit
            &&& config.backlog_limit == 0 ==> plan.backlog_limit == 1
            &&& plan.fell_back == (!supports_queue && config.mode == PipelineMode::Decoupled)
        }),
{
}

/// A pipeline starts with the plan of its configuration: empty, open for input, and with as many
/// places for segments that wait as the plan has.
pub proof fn law_new_pipeline_follows_its_plan<A>(config: PipelineConfig, supports_queue: bool)
    ensures
        ({
            let s = PipelineView::<A>::start(config, supports_queue);
            &&& s.plan == RunPlan::of(config, supports_queue)
            &&& s.queue.backlog_limit == s.plan.backlog_limit
            &&& s.queue.jobs.len() == 0
            &&& !s.queue.closed
            &&& s.queue.next_seq == 0
            &&& s.drain.last_done is None
            &&& !s.state.first_audio_emitted
            &&& s.next().0 == ActionView::<A>::Await { input: true, jobs: false }
        }),
{
    assert(PipelineView::<A>::start(config, supports_queue).queue.jobs =~= Seq::empty());
}

/// Each mode has its words, and no word has two; any other word names none.
pub proof fn law_modes_by_word(key: Seq<char>)
    ensures
        PipelineMode::of_key(key) == Some(PipelineMode::Auto) <==> key == "auto"@,
        PipelineMode::of_key(key) == Some(PipelineMode::Serial) <==> key == "serial"@ || key
            == "sync"@,
        PipelineMode::of_key(key) == Some(PipelineMode::Decoupled) <==> key == "decoupled"@ || key
            == "parallel"@ || key == "synth"@,
{
    reveal_strlit("auto");
    reveal_strlit("serial");
    reveal_strlit("sync");
    reveal_strlit("decoupled");
    reveal_strlit("parallel");
    reveal_strlit("synth");
    if key == "synth"@ {
        assert(key[2] == 'n');
        assert(key.len() == 5);
    }
    if key == "sync"@ {
        assert(key.len() == 4 && key[0] == 's');
    }
    if key == "auto"@ {
        assert(key.len() == 4 && key[0] == 'a');
    }
    if key == "serial"@ {
        assert(key.len() == 6);
    }
    if key == "decoupled"@ {
        assert(key.len() == 9);
    }
    if key == "parallel"@ {
        assert(key.len() == 8);
    }
}

/// The mode that is set by a word it has counts; else synthesis runs ahead where the engine can,
/// unless that is switched off.
pub proof fn law_mode_of_the_environment(vars: Map<Seq<char>, Seq<char>>)
    ensures
        ({
            let named = match env::text_var(vars, "TTS_PIPELINE_MODE"@) {
                Some(raw) => PipelineMode::of_key(lowercased(trimmed(raw))),
                None => None,
            };
            let on = env::switch_setting(vars, "TTS_PARALLEL_SYNTH"@, true);
            &&& named is Some ==> PipelineMode::env_mode(vars) == named->0
            &&& named is None && on ==> PipelineMode::env_mode(vars) == PipelineMode::Auto
            &&& named is None && !on ==> PipelineMode::env_mode(vars) == PipelineMode::Serial
        }),
{
}

/// Whether a job waits to be started.
pub open spec fn waits_at<A>(jobs: Seq<JobView<A>>, i: int) -> bool {
    0 <= i < jobs.len() && jobs[i].state is Waiting
}

/// Whether a job runs.
pub open spec fn runs_at<A>(jobs: Seq<JobView<A>>, i: int) -> bool {
    0 <= i < jobs.len() && jobs[i].state is Running
}

/// The jobs that run, and those that wait, are counted one by one.
pub proof fn law_jobs_are_counted<A>(jobs: Seq<JobView<A>>, job: JobView<A>)
    ensures
        running(Seq::<JobView<A>>::empty()) == 0,
        waiting(Seq::<JobView<A>>::empty()) == 0,
        running(jobs.push(job)) == running(jobs) + (if job.state is Running {
            1int
        } else {
            0
        }),
        waiting(jobs.push(job)) == waiting(jobs) + (if job.state is Waiting {
            1int
        } else {
            0
        }),
        running(jobs) <= jobs.len(),
        waiting(jobs) <= jobs.len(),
        running(jobs) > 0 <==> exists|i: int| #[trigger] runs_at(jobs, i),
        waiting(jobs) > 0 <==> exists|i: int| #[trigger] waits_at(jobs, i),
    decreases jobs.len(),
{
    assert(jobs.push(job).drop_last() =~= jobs);
    if jobs.len() > 0 {
        let before = jobs.drop_last();
        let last = jobs.last();
        law_jobs_are_counted(before, last);
        assert(before.push(last) =~= jobs);
        if exists|i: int| #[trigger] runs_at(before, i) {
            let i = choose|i: int| #[trigger] runs_at(before, i);
            assert(runs_at(jobs, i));
        }
        if exists|i: int| #[trigger] waits_at(before, i) {
            let i = choose|i: int| #[trigger] waits_at(before, i);
            assert(waits_at(jobs, i));
        }
        if exists|i: int| #[trigger] runs_at(jobs, i) {
            let i = choose|i: int| #[trigger] runs_at(jobs, i);
            if i < before.len() {
                assert(runs_at(before, i));
            }
        }
        if exists|i: int| #[trigger] waits_at(jobs, i) {
            let i = choose|i: int| #[trigger] waits_at(jobs, i);
            if i < before.len() {
                assert(waits_at(before, i));
            }
        }
        if last.state is Running {
            assert(runs_at(jobs, before.len() as int));
        }
        if last.state is Waiting {
            assert(waits_at(jobs, before.len() as int));
        }
    }
}

/// The first job that waits has none that waits before it.
proof fn lemma_first_waiting_is_first<A>(jobs: Seq<JobView<A>>)
    ensures
        forall|i: int| #[trigger] waits_at(jobs, i) ==> first_waiting(jobs) <= i,
        forall|i: int| #[trigger] waits_at(jobs, i) ==> first_waiting(jobs) < jobs.len(),
    decreases jobs.len(),
{
    lemma_first_waiting(jobs);
    if jobs.len() > 0 && !(jobs[0].state is Waiting) {
        let rest = jobs.skip(1);
        lemma_first_waiting_is_first(rest);
        assert forall|i: int| #[trigger] waits_at(jobs, i) implies first_waiting(jobs) <= i
            && first_waiting(jobs) < jobs.len() by {
            assert(waits_at(rest, i - 1));
        }
    }
}

/// A pipeline that starts jobs runs the first one that waits, as long as fewer run than may; that
/// one then runs, and nothing else changes. Else it waits, for input unless it has ended or as
/// many segments wait as may, and for a job where one runs.
pub proof fn law_starts_the_first_that_waits<A>(s: PipelineView<A>, place: int)
    requires
        s.stage is Starting,
    ensures
        ({
            let jobs = s.queue.jobs;
            let (action, after) = s.next();
            let first = waits_at(jobs, place) && forall|i: int|
                0 <= i < place ==> !#[trigger] waits_at(jobs, i);
            &&& first && running(jobs) < s.plan.max_inflight ==> {
                &&& action == ActionView::<A>::Run {
                    seq: s.queue.number(place),
                    segment: jobs[place].segment,
                }
                &&& after.queue.jobs == jobs.update(
                    place,
                    JobView { segment: jobs[place].segment, state: JobState::Running },
                )
                &&& after.stage is Starting
            }
            &&& running(jobs) >= s.plan.max_inflight || (forall|i: int|
                !#[trigger] waits_at(jobs, i)) ==> {
                &&& action == ActionView::<A>::Await {
                    input: !s.queue.closed && waiting(jobs) < s.queue.backlog_limit,
                    jobs: running(jobs) > 0,
                }
                &&& after.stage is Waiting
                &&& after.queue == s.queue
            }
            &&& after.plan == s.plan
            &&& after.state == s.state
            &&& after.drain == s.drain
            &&& after.queue.next_seq == s.queue.next_seq
            &&& after.queue.closed == s.queue.closed
            &&& after.queue.backlog_limit == s.queue.backlog_limit
        }),
{
    let jobs = s.queue.jobs;
    lemma_first_waiting(jobs);
    lemma_first_waiting_is_first(jobs);
    if first_waiting(jobs) < jobs.len() {
        assert(waits_at(jobs, first_waiting(jobs)));
    }
}

/// A finished job at the front is delivered at once, and is then held no more. Audio is played
/// before anything behind it is delivered; what was played already is counted; a job that gave
/// nothing or failed is reported with its turn, and what is behind it goes on.
pub proof fn law_front_is_delivered<A>(s: PipelineView<A>)
    requires
        s.stage is Delivering,
        s.queue.jobs.len() > 0,
        s.queue.jobs[0].state is Finished,
    ensures
        ({
            let (action, after) = s.next();
            let segment = s.queue.jobs[0].segment;
            &&& after.queue.jobs == s.queue.jobs.skip(1)
            &&& after.queue.next_seq == if s.queue.next_seq == u64::MAX {
                0
            } else {
                s.queue.next_seq + 1
            }
            &&& after.queue.closed == s.queue.closed
            &&& after.queue.backlog_limit == s.queue.backlog_limit
            &&& after.plan == s.plan
            &&& match s.queue.jobs[0].state->Finished_0 {
                Ok(Some(OutcomeKind::NeedPlay(audio))) => action == ActionView::Play(audio)
                    && after.stage == StageView::Playing(segment) && after.drain == s.drain,
                Ok(Some(OutcomeKind::Played(metrics))) => action matches ActionView::Played {
                    report_pending,
                    ..
                } && report_pending == metrics.play_done_reported && after.stage is Delivering,
                Ok(None) => action == ActionView::<A>::Warn {
                    turn_id: segment.turn_id,
                    problem: Problem::NothingSynthesized,
                } && after.stage is Delivering && after.drain == s.drain,
                Err(e) => action == ActionView::<A>::Warn {
                    turn_id: segment.turn_id,
                    problem: Problem::Failed(e),
                } && after.stage is Delivering && after.drain == s.drain,
            }
        }),
{
}

/// A pipeline whose front is not finished stops, with playback drained, exactly where its input
/// has ended and nothing is held; else it goes on to start jobs.
pub proof fn law_stops_when_all_is_done<A>(s: PipelineView<A>)
    requires
        s.stage is Delivering,
        s.queue.jobs.len() > 0 ==> !(s.queue.jobs[0].state is Finished),
    ensures
        s.queue.closed && s.queue.jobs.len() == 0 ==> s.next() == (
            ActionView::<A>::Stop { drain: true },
            PipelineView { stage: StageView::Over { cancelled: false }, ..s },
        ),
        !(s.queue.closed && s.queue.jobs.len() == 0) ==> s.next() == (PipelineView {
            stage: StageView::Starting,
            ..s
        }).next(),
{
}

/// A pipeline that is over stays so: playback is drained unless it was cancelled. While audio is
/// being played, nothing but its reply is awaited.
pub proof fn law_over_and_playing<A>(s: PipelineView<A>)
    ensures
        s.stage == (StageView::Over { cancelled: true }) ==> s.next() == (
            ActionView::<A>::Stop { drain: false },
            s,
        ),
        s.stage == (StageView::Over { cancelled: false }) ==> s.next() == (
            ActionView::<A>::Stop { drain: true },
            s,
        ),
        s.stage is Playing ==> s.next() == (ActionView::<A>::AwaitReply, s),
        pipeline_after(s, PipelineEvent::Cancelled) == (PipelineView {
            stage: StageView::Over { cancelled: true },
            ..s
        }),
{
}

/// A segment that comes in is held behind all others, and runs at once exactly where fewer jobs
/// run than may; the end of the input changes no job. Either way what is finished is delivered
/// next.
pub proof fn law_input_is_held_behind<A>(s: PipelineView<A>, segment: SegmentView)
    ensures
        ({
            let taken = s.with_input(Some(segment));
            let ended = s.with_input(None);
            &&& taken.queue.jobs.len() == s.queue.jobs.len() + 1
            &&& taken.queue.jobs.drop_last() == s.queue.jobs
            &&& taken.queue.jobs.last().segment == segment
            &&& (taken.queue.jobs.last().state is Running) == (running(s.queue.jobs)
                < s.plan.max_inflight)
            &&& (taken.queue.jobs.last().state is Waiting) == (running(s.queue.jobs)
                >= s.plan.max_inflight)
            &&& taken.queue.closed == s.queue.closed
            &&& taken.queue.next_seq == s.queue.next_seq
            &&& taken.stage is Delivering
            &&& ended.queue == (SchedulerView { closed: true, ..s.queue })
            &&& ended.stage is Delivering
            &&& ended.state == s.state
        }),
{
    assert(s.with_input(Some(segment)).queue.jobs.drop_last() =~= s.queue.jobs);
}

/// A job that runs is finished by its number, with the result that came of it; the others are
/// not touched. A number under which no job runs changes no job.
pub proof fn law_result_reaches_its_job<A>(
    s: PipelineView<A>,
    place: int,
    other: int,
    result: Result<Option<OutcomeKind<A>>, String>,
)
    requires
        0 <= place < s.queue.jobs.len(),
        0 <= other < s.queue.jobs.len(),
        s.queue.jobs.len() <= 0x1_0000_0000_0000_0000,
    ensures
        ({
            let after = s.with_job_done(s.queue.number(place), result);
            &&& after.queue.jobs.len() == s.queue.jobs.len()
            &&& other != place ==> after.queue.jobs[other] == s.queue.jobs[other]
            &&& s.queue.jobs[place].state is Running ==> after.queue.jobs[place] == (JobView {
                segment: s.queue.jobs[place].segment,
                state: JobState::Finished(result),
            }) && after.stage is Delivering
            &&& !(s.queue.jobs[place].state is Running) ==> after.queue == s.queue
            &&& after.plan == s.plan
            &&& after.state == s.state
            &&& after.drain == s.drain
        }),
{
    law_numbers_are_distinct(s.queue, place, other);
}

/// The first audio of a turn is an event, once; it counts from the segment with the first token.
/// Playback is then awaited until the end of the segment, unless that is reported later.
pub proof fn law_first_audio_is_told_once<A>(
    s: PipelineView<A>,
    segment: SegmentView,
    metrics: TtsMetrics,
    again: TtsMetrics,
)
    ensures
        ({
            let (action, after) = s.counted(segment, metrics);
            let told = !s.state.first_audio_emitted && segment.first_token_ts is Some
                && metrics.first_audio_ts is Some;
            &&& told ==> action == ActionView::<A>::Played {
                event: Some(
                    MetricEvent {
                        turn_id: segment.turn_id,
                        kind: MetricEventKind::TtsFirstAudio,
                        ts: metrics.first_audio_ts->0,
                    },
                ),
                report_pending: metrics.play_done_reported,
            }
            &&& !told ==> action == ActionView::<A>::Played {
                event: None,
                report_pending: metrics.play_done_reported,
            }
            &&& told ==> (after.counted(segment, again).0 matches ActionView::Played {
                event,
                ..
            } && event is None)
            &&& metrics.play_done_reported ==> after.drain == s.drain
            &&& !metrics.play_done_reported ==> after.drain.last_done is Some
                && after.drain.last_done->0.nanos >= metrics.play_done_ts.nanos
            &&& s.drain.last_done is Some ==> after.drain.last_done is Some
                && after.drain.last_done->0.nanos >= s.drain.last_done->0.nanos
            &&& after.drain.last_done is Some ==> after.drain.last_done == s.drain.last_done
                || after.drain.last_done->0 == metrics.play_done_ts
            &&& after.stage is Delivering
            &&& after.queue == s.queue
        }),
{
}

/// The reply to audio that was played is counted as playback; no reply and a failed one are
/// reported with their turn. Either way the next segment follows.
pub proof fn law_reply_goes_on<A>(
    s: PipelineView<A>,
    segment: SegmentView,
    metrics: TtsMetrics,
    error: String,
)
    ensures
        s.replied(segment, Ok(Some(metrics))) == s.counted(segment, metrics),
        s.replied(segment, Ok(None)) == (
            ActionView::<A>::Warn { turn_id: segment.turn_id, problem: Problem::NothingPlayed },
            PipelineView { stage: StageView::Delivering, ..s },
        ),
        s.replied(segment, Err(error)) == (
            ActionView::<A>::Warn { turn_id: segment.turn_id, problem: Problem::Failed(error) },
            PipelineView { stage: StageView::Delivering, ..s },
        ),
{
}

/// A segment of another turn starts the count of that turn's first audio anew; one of the same
/// turn does not. The segment with a first token is an event when it comes in.
pub proof fn law_each_turn_has_its_first_audio<A>(s: PipelineView<A>, segment: SegmentView)
    ensures
        ({
            let after = s.with_segment(segment).state;
            &&& after.current_turn_id == Some(segment.turn_id)
            &&& s.state.current_turn_id != Some(segment.turn_id) ==> !after.first_audio_emitted
            &&& s.state.current_turn_id == Some(segment.turn_id) ==> after.first_audio_emitted
                == s.state.first_audio_emitted
            &&& (segment_event(segment) is Some) == (segment.first_token_ts is Some)
            &&& segment_event(segment) matches Some(e) ==> e == (MetricEvent {
                turn_id: segment.turn_id,
                kind: MetricEventKind::TtsFirstSegmentSent,
                ts: segment.segment_sent_ts,
            })
        }),
{
}

/// What the environment does not set is one synthesis at a time, 32 segments that wait and half a
/// minute for each; what it sets counts where it lies in its range.
pub proof fn law_pipeline_settings_of_the_environment(vars: Map<Seq<char>, Seq<char>>, n: nat)
    ensures
        ({
            let c = PipelineConfig::env_config(vars);
            let inflight = env::unsigned_var(vars, "TTS_SYNTH_INFLIGHT"@, usize::MAX as nat);
            let backlog = env::unsigned_var(vars, "TTS_BACKLOG_LIMIT"@, usize::MAX as nat);
            let timeout = env::unsigned_var(vars, "TTS_SYNTH_TIMEOUT_MS"@, u64::MAX as nat);
            &&& c.mode == PipelineMode::env_mode(vars)
            &&& 1 <= c.synth_inflight <= 8
            &&& inflight is None ==> c.synth_inflight == 1
            &&& inflight == Some(n) && 1 <= n <= 8 ==> c.synth_inflight == n
            &&& 1 <= c.backlog_limit <= 4096
            &&& backlog is None ==> c.backlog_limit == 32
            &&& backlog == Some(n) && 1 <= n <= 4096 ==> c.backlog_limit == n
            &&& c.synth_timeout_ms <= 600_000
            &&& timeout is None ==> c.synth_timeout_ms == 30_000
            &&& timeout == Some(n) && n <= 600_000 ==> c.synth_timeout_ms == n
        }),
{
}

/// A run is planned ahead exactly where the engine can and the mode is not the serial one; it falls
/// back exactly where it was asked to run ahead by an engine that cannot.
pub proof fn law_plan_of_a_run(config: PipelineConfig, supports_queue: bool, r: RunPlan)
    requires
        call_ensures(RunPlan::new, (config, supports_queue), r),
    ensures
        config.mode == PipelineMode::Auto && supports_queue ==> r.runner == RunnerKind::Decoupled,
        config.mode == PipelineMode::Decoupled && supports_queue ==> r.runner
            == RunnerKind::Decoupled,
        config.mode == PipelineMode::Serial || !supports_queue ==> r.runner == RunnerKind::Serial,
        r.fell_back <==> config.mode == PipelineMode::Decoupled && !supports_queue,
        r.runner == RunnerKind::Decoupled && config.synth_inflight >= 1 ==> r.max_inflight
            == config.synth_inflight,
        r.runner == RunnerKind::Serial ==> r.max_inflight == 1 && r.synth_timeout_ms is None,
        config.backlog_limit >= 1 ==> r.backlog_limit == config.backlog_limit,
        r.runner == RunnerKind::Decoupled && config.synth_timeout_ms > 0 ==> r.synth_timeout_ms
            == Some(config.synth_timeout_ms),
        config.synth_timeout_ms == 0 ==> r.synth_timeout_ms is None,
        r.max_inflight >= 1 && r.backlog_limit >= 1,
{
}

/// The first segment of a turn is told; a segment of another turn opens that turn, in which no
/// audio was heard yet, and one of the same turn changes nothing.
pub proof fn law_segment_opens_its_turn()
    ensures
        forall|s: &mut PipelineState, segment: &TextSegment, r: Option<MetricEvent>|
            #[trigger] call_ensures(PipelineState::on_segment, (s, segment), r) ==> {
                &&& r is Some <==> segment@.first_token_ts is Some
                &&& r matches Some(e) ==> e.turn_id == segment@.turn_id && e.kind
                    == MetricEventKind::TtsFirstSegmentSent && e.ts == segment@.segment_sent_ts
                &&& (*final(s)).current_turn_id == Some(segment@.turn_id)
                &&& (*s).current_turn_id == Some(segment@.turn_id) ==> (*final(s)).first_audio_emitted == (*s).first_audio_emitted
                &&& (*s).current_turn_id != Some(segment@.turn_id) ==> !(*final(s)).first_audio_emitted
            },
{
}

/// The first audio of a turn is told once, with its time, where it is known.
pub proof fn law_first_audio_of_a_turn()
    ensures
        forall|s: &mut PipelineState, segment: &TextSegment, m: &TtsMetrics, r: Option<MetricEvent>|
            #[trigger] call_ensures(PipelineState::on_metrics, (s, segment, m), r) ==> {
                &&& (*s).first_audio_emitted ==> r is None
                &&& segment@.first_token_ts is None || m.first_audio_ts is None ==> r is None
                &&& !(*s).first_audio_emitted && segment@.first_token_ts is Some
                    && m.first_audio_ts is Some ==> r == Some(
                    MetricEvent {
                        turn_id: segment@.turn_id,
                        kind: MetricEventKind::TtsFirstAudio,
                        ts: m.first_audio_ts->0,
                    },
                )
                &&& (*final(s)).first_audio_emitted <==> (*s).first_audio_emitted || r is Some
                &&& (*final(s)).current_turn_id == (*s).current_turn_id
            },
{
}

/// A segment that is taken in is the last job, and runs at once where it may; the first job that
/// waits is the next to be started; and only the first job of all is delivered, once it is done.
pub proof fn law_jobs_in_their_order<A>()
    ensures
        forall|s: &mut Scheduler<A>, segment: TextSegment, may_start: bool, r: Option<Job>|
            #[trigger] call_ensures(Scheduler::<A>::submit, (s, segment, may_start), r) ==> {
                &&& (*final(s))@.jobs.len() == (*s)@.jobs.len() + 1
                &&& (*final(s))@.jobs.drop_last() == (*s)@.jobs
                &&& (*final(s))@.jobs.last().segment == segment@
                &&& may_start ==> (*final(s))@.jobs.last().state is Running
                &&& !may_start ==> (*final(s))@.jobs.last().state is Waiting
                &&& r is Some <==> may_start
                &&& r matches Some(job) ==> job.text_segment@ == segment@
                &&& (*final(s))@.next_seq == (*s)@.next_seq && (*final(s))@.closed == (*s)@.closed
            },
        forall|s: &mut Scheduler<A>, r: Option<Job>|
            #[trigger] call_ensures(Scheduler::<A>::start_next, (s,), r) ==> {
                &&& (*final(s))@.jobs.len() == (*s)@.jobs.len()
                &&& r is None ==> (*final(s))@ == (*s)@ && forall|i: int|
                    0 <= i < (*s)@.jobs.len() ==> !((#[trigger] (*s)@.jobs[i]).state is Waiting)
                &&& r matches Some(job) ==> exists|k: int|
                    0 <= k < (*s)@.jobs.len() && (#[trigger] (*s)@.jobs[k]).state is Waiting
                        && job.text_segment@ == (*s)@.jobs[k].segment && (
                    *final(s))@.jobs[k].state is Running && forall|i: int|
                        0 <= i < k ==> !((#[trigger] (*s)@.jobs[i]).state is Waiting)
            },
        forall|s: &mut Scheduler<A>, r: Option<JobOutcome<A>>|
            #[trigger] call_ensures(Scheduler::<A>::next_outcome, (s,), r) ==> {
                &&& r is Some <==> (*s)@.jobs.len() > 0 && (*s)@.jobs[0].state is Finished
                &&& r is None ==> (*final(s))@ == (*s)@
                &&& r matches Some(o) ==> o.text_segment@ == (*s)@.jobs[0].segment && o.seq
                    == (*s)@.next_seq && (*s)@.jobs[0].state == JobState::Finished(o.result) && (
                *final(s))@.jobs == (*s)@.jobs.skip(1)
                &&& r is Some && (*s)@.next_seq < u64::MAX ==> (*final(s))@.next_seq
                    == (*s)@.next_seq + 1
            },
{
    assert forall|s: &mut Scheduler<A>, segment: TextSegment, may_start: bool, r: Option<Job>|
        #[trigger] call_ensures(Scheduler::<A>::submit, (s, segment, may_start), r) implies (
    *final(s))@.jobs.drop_last() == (*s)@.jobs by {
        assert((*final(s))@.jobs.drop_last() =~= (*s)@.jobs);
    }
    assert forall|s: &mut Scheduler<A>, r: Option<Job>|
        #[trigger] call_ensures(Scheduler::<A>::start_next, (s,), r) implies {
        &&& (*final(s))@.jobs.len() == (*s)@.jobs.len()
        &&& r is None ==> (*final(s))@ == (*s)@ && forall|i: int|
            0 <= i < (*s)@.jobs.len() ==> !((#[trigger] (*s)@.jobs[i]).state is Waiting)
        &&& r matches Some(job) ==> exists|k: int|
            0 <= k < (*s)@.jobs.len() && (#[trigger] (*s)@.jobs[k]).state is Waiting
                && job.text_segment@ == (*s)@.jobs[k].segment && (
            *final(s))@.jobs[k].state is Running && forall|i: int|
                0 <= i < k ==> !((#[trigger] (*s)@.jobs[i]).state is Waiting)
    } by {
        lemma_first_waiting((*s)@.jobs);
        lemma_first_waiting_is_first((*s)@.jobs);
        let k = first_waiting((*s)@.jobs);
        assert forall|i: int| 0 <= i < k implies !((#[trigger] (*s)@.jobs[i]).state is Waiting) by {
            assert(!waits_at((*s)@.jobs, i));
        }
        if r is Some {
            assert((*s)@.jobs[k].state is Waiting);
        }
    }
}

/// What waits for playback waits for the latest end that is known, as long as that is to come.
pub proof fn law_waiting_for_playback(drain: &PlaybackDrain, now: Timestamp, r: Option<Timestamp>)
    requires
        call_ensures(PlaybackDrain::wait_until, (drain, now), r),
    ensures
        r is Some <==> drain.last_done is Some && drain.last_done->0.nanos > now.nanos,
        r is Some ==> r == drain.last_done,
        forall|d: &mut PlaybackDrain, ts: Timestamp, u: ()|
            #[trigger] call_ensures(PlaybackDrain::note_done, (d, ts), u) ==> {
                &&& (*final(d)).last_done is Some
                &&& (*final(d)).last_done->0.nanos >= ts.nanos
                &&& (*d).last_done is Some ==> (*final(d)).last_done->0.nanos
                    >= (*d).last_done->0.nanos
                &&& (*final(d)).last_done == Some(ts) || (*final(d)).last_done == (*d).last_done
            },
        forall|d: &mut PlaybackDrain, m: &TtsMetrics, later_on: bool|
            #[trigger] call_ensures(PlaybackDrain::track, (d, m), later_on) ==> {
                &&& later_on <==> m.play_done_reported
                &&& later_on ==> (*final(d)).last_done == (*d).last_done
                &&& !later_on ==> (*final(d)).last_done is Some && (*final(d)).last_done->0.nanos
                    >= m.play_done_ts.nanos
            },
{
}

/// What a job has come to: audio is still to be played, speech was played, and nothing is nothing;
/// a synthesis that takes too long has failed.
pub proof fn law_results_of_jobs<A>(
    reply: SynthReply<A>,
    r: Result<Option<OutcomeKind<A>>, String>,
    speech: Result<TtsMetrics, String>,
    q: Result<Option<OutcomeKind<A>>, String>,
)
    requires
        call_ensures(synthesized::<A>, (reply,), r),
        call_ensures(spoken::<A>, (speech,), q),
    ensures
        reply is TimedOut ==> r is Err,
        reply matches SynthReply::Done(Ok(Some(audio))) ==> r == Ok::<_, String>(
            Some(OutcomeKind::NeedPlay(audio)),
        ),
        reply matches SynthReply::Done(Ok(None)) ==> r matches Ok(None),
        reply matches SynthReply::Done(Err(e)) ==> r == Err::<Option<OutcomeKind<A>>, String>(e),
        reply matches SynthReply::TimedOut { timeout_ms } ==> (r matches Err(e) && e@
            == "synthesize timed out after "@ + decimal(timeout_ms as nat) + "ms"@),
        speech matches Ok(m) ==> q == Ok::<_, String>(Some(OutcomeKind::<A>::Played(m))),
        speech matches Err(e) ==> q == Err::<Option<OutcomeKind<A>>, String>(e),
{
}

} // verus!
