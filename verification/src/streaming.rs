//! A streaming session: LLM deltas in, speech out.

use crate::internal::env::{self, EnvVars};
use crate::metrics::{MetricEvent, MetricEventKind};
use crate::pipeline::{
    law_new_pipeline_is_in_order, law_pipeline_stays_in_order,
    lemma_first_waiting, pipeline_after, pipeline_inv, segment_event, segments_of, ActionView,
    Job, Pipeline, PipelineAction, PipelineConfig, PipelineEvent, PipelineView, SchedulerView, Stage,
    StageView,
};
use crate::time::Timestamp;
use crate::tokenizer::{
    eager_default, law_cut_keeps_the_text, law_piece_is_spoken, normal_default, relax_default,
    spoken_texts, step_segment, with_piece, FlushLevels, FlushStep, FlushThresholds, RelaxTransition,
    SegmentView, Tokenizer, TokenizerConfig, TokenizerView,
};
use vstd::prelude::*;
use vstd::string::*;

verus! {

/// A message of a session's input, with the epoch in which it was sent.
#[derive(Debug)]
pub enum StreamMsg {
    Delta { text: String, epoch: u64 },
    Eof { epoch: u64 },
}

/// One step of stopping a session.
#[derive(Debug, Clone, Copy, PartialEq, Eq, Structural)]
pub enum CancelStep {
    /// Stop playback, which makes every cancellation scope of the engine void.
    StopEngine,
    /// Tell cooperative tasks.
    SignalTasks,
    /// Abort the orchestrator, so that its receivers are gone and sending fails.
    AbortOrchestrator,
}

/// The steps of interrupting a turn, in order: the engine is stopped first, then the receivers go,
/// and only then are the tasks told.
pub open spec fn interrupt_order() -> Seq<CancelStep> {
    seq![CancelStep::StopEngine, CancelStep::AbortOrchestrator, CancelStep::SignalTasks]
}

/// The steps of interrupting a turn, in order.
pub fn interrupt_steps() -> (r: Vec<CancelStep>)
    ensures
        r@ == interrupt_order(),
{
    let mut steps: Vec<CancelStep> = Vec::new();
    steps.push(CancelStep::StopEngine);
    steps.push(CancelStep::AbortOrchestrator);
    steps.push(CancelStep::SignalTasks);
    proof {
        assert(steps@ =~= interrupt_order());
    }
    steps
}

/// The steps of cancelling a session, in order: the engine is stopped first.
pub open spec fn cancel_order() -> Seq<CancelStep> {
    seq![CancelStep::StopEngine, CancelStep::SignalTasks, CancelStep::AbortOrchestrator]
}

/// The steps of cancelling a session, in order.
pub fn cancel_steps() -> (r: Vec<CancelStep>)
    ensures
        r@ == cancel_order(),
{
    let mut steps: Vec<CancelStep> = Vec::new();
    steps.push(CancelStep::StopEngine);
    steps.push(CancelStep::SignalTasks);
    steps.push(CancelStep::AbortOrchestrator);
    proof {
        assert(steps@ =~= cancel_order());
    }
    steps
}

/// Stream session configuration.
#[derive(Debug, Clone, Copy, PartialEq, Eq, Structural)]
pub struct StreamConfig {
    /// How many deltas may wait.
    pub delta_channel: usize,
    /// How many segments may wait.
    pub segment_channel: usize,
}

impl Default for StreamConfig {
    fn default() -> (r: Self)
        ensures
            r == (StreamConfig { delta_channel: 8192, segment_channel: 4096 }),
    {
        StreamConfig {
            // As many as the tokens of a long LLM answer, so that its sender is not held back.
            delta_channel: 8192,
            // Segments are far fewer than deltas, yet slow speech shall not stall them.
            segment_channel: 4096,
        }
    }
}

impl StreamConfig {
    /// The configuration that the environment sets.
    pub open spec fn env_config(vars: Map<Seq<char>, Seq<char>>) -> Self {
        StreamConfig {
            delta_channel: env::unsigned_setting(
                vars,
                "STREAM_DELTA_CAPACITY"@,
                usize::MAX as nat,
                8192,
                1,
                65_536,
            ) as usize,
            segment_channel: env::unsigned_setting(
                vars,
                "STREAM_SEGMENT_CAPACITY"@,
                usize::MAX as nat,
                4096,
                1,
                65_536,
            ) as usize,
        }
    }

    /// Reads the configuration from the environment.
    pub fn from_env(vars: &EnvVars) -> (r: Self)
        ensures
            r == Self::env_config(vars@),
            1 <= r.delta_channel <= 65_536,
            1 <= r.segment_channel <= 65_536,
    {
        let defaults = StreamConfig::default();
        StreamConfig {
            delta_channel: env::usize_clamped(
                vars,
                "STREAM_DELTA_CAPACITY",
                defaults.delta_channel,
                1,
                65_536,
            ),
            segment_channel: env::usize_clamped(
                vars,
                "STREAM_SEGMENT_CAPACITY",
                defaults.segment_channel,
                1,
                65_536,
            ),
        }
    }
}

/// What a session is made with.
#[derive(Debug, Clone, Copy, PartialEq, Eq, Structural)]
pub struct StreamSessionBuilder {
    pub stream: StreamConfig,
    pub tokenizer: TokenizerConfig,
    /// When the first pieces of the text are long enough to be spoken.
    pub eager: FlushThresholds,
    /// When a piece is long enough in normal operation.
    pub normal: FlushThresholds,
    /// When a piece is long enough while enough audio is buffered.
    pub relax: FlushThresholds,
    pub pipeline: PipelineConfig,
    /// The turn that all segments belong to; 0 where they are bound to none.
    pub turn_id: u64,
}

impl StreamSessionBuilder {
    /// The default configuration, whatever the environment sets.
    pub fn new() -> (r: Self)
        ensures
            r.stream == (StreamConfig { delta_channel: 8192, segment_channel: 4096 }),
            r.tokenizer == (TokenizerConfig {
                eager_chunks: 1,
                relax_buffer_ms: 200,
                relax_log: false,
            }),
            r.levels() == FlushLevels::defaults(),
            r.pipeline == (PipelineConfig {
                mode: crate::pipeline::PipelineMode::Auto,
                synth_inflight: 1,
                backlog_limit: 4096,
                synth_timeout_ms: 30_000,
            }),
            r.turn_id == 0,
    {
        StreamSessionBuilder {
            stream: StreamConfig::default(),
            tokenizer: TokenizerConfig::default(),
            eager: eager_default(),
            normal: normal_default(),
            relax: relax_default(),
            pipeline: PipelineConfig::default(),
            turn_id: 0,
        }
    }

    /// The configuration that the environment sets.
    pub fn from_env(vars: &EnvVars) -> (r: Self)
        ensures
            r == (StreamSessionBuilder {
                stream: StreamConfig::env_config(vars@),
                tokenizer: TokenizerConfig::env_config(vars@),
                eager: FlushLevels::env_levels(vars@).eager,
                normal: FlushLevels::env_levels(vars@).normal,
                relax: FlushLevels::env_levels(vars@).relax,
                pipeline: PipelineConfig::env_config(vars@),
                turn_id: 0,
            }),
    {
        let levels = FlushLevels::from_env(vars);
        StreamSessionBuilder {
            stream: StreamConfig::from_env(vars),
            tokenizer: TokenizerConfig::from_env(vars),
            eager: levels.eager,
            normal: levels.normal,
            relax: levels.relax,
            pipeline: PipelineConfig::from_env(vars),
            turn_id: 0,
        }
    }

    /// Sets the stream configuration.
    pub fn stream_config(self, config: StreamConfig) -> (r: Self)
        ensures
            r == (StreamSessionBuilder { stream: config, ..self }),
    {
        StreamSessionBuilder { stream: config, ..self }
    }

    /// Sets the tokenizer configuration.
    pub fn tokenizer_config(self, config: TokenizerConfig) -> (r: Self)
        ensures
            r == (StreamSessionBuilder { tokenizer: config, ..self }),
    {
        StreamSessionBuilder { tokenizer: config, ..self }
    }

    /// Sets the pipeline configuration.
    pub fn pipeline_config(self, config: PipelineConfig) -> (r: Self)
        ensures
            r == (StreamSessionBuilder { pipeline: config, ..self }),
    {
        StreamSessionBuilder { pipeline: config, ..self }
    }

    /// Binds a turn to all segments of the session.
    pub fn turn_id(self, turn_id: u64) -> (r: Self)
        ensures
            r == (StreamSessionBuilder { turn_id, ..self }),
    {
        StreamSessionBuilder { turn_id, ..self }
    }

    /// The thresholds of the session.
    pub open spec fn levels(self) -> FlushLevels {
        FlushLevels { eager: self.eager, normal: self.normal, relax: self.relax }
    }

    /// The pipeline configuration of the session: no more segments wait than its channel holds.
    pub open spec fn session_pipeline(self) -> PipelineConfig {
        let room = if self.stream.segment_channel < 1 {
            1
        } else {
            self.stream.segment_channel
        };
        PipelineConfig {
            backlog_limit: if self.pipeline.backlog_limit < room {
                self.pipeline.backlog_limit
            } else {
                room
            },
            ..self.pipeline
        }
    }

    /// The pipeline configuration of the session: no more segments wait than its channel holds.
    pub fn effective_pipeline(&self) -> (r: PipelineConfig)
        ensures
            r == self.session_pipeline(),
    {
        let room: usize = if self.stream.segment_channel < 1 {
            1
        } else {
            self.stream.segment_channel
        };
        PipelineConfig {
            backlog_limit: if self.pipeline.backlog_limit < room {
                self.pipeline.backlog_limit
            } else {
                room
            },
            ..self.pipeline
        }
    }
}

/// Why a session takes no input.
#[derive(Debug, Clone, Copy, PartialEq, Eq, Structural)]
pub enum StreamError {
    InputFinished,
    ChannelClosed,
}

impl StreamError {
    /// The error in words.
    pub fn message(self) -> (r: &'static str)
        ensures
            r@ == match self {
                StreamError::InputFinished => "input already finished"@,
                StreamError::ChannelClosed => "stream channel closed"@,
            },
    {
        match self {
            StreamError::InputFinished => "input already finished",
            StreamError::ChannelClosed => "stream channel closed",
        }
    }
}

/// The control side of a session: what may be sent, and when it is stopped. There is no copy of a
/// handle: all who control the session share the one.
#[derive(Debug, PartialEq, Eq, Structural)]
pub struct StreamHandle {
    pub input_finished: bool,
    pub llm_start: Option<Timestamp>,
    pub turn_id: u64,
    pub epoch: u64,
}

/// The epoch after `epoch`.
pub open spec fn next_epoch(epoch: u64) -> u64 {
    if epoch == u64::MAX {
        0
    } else {
        (epoch + 1) as u64
    }
}

impl StreamHandle {
    /// The handle of a new session.
    pub fn new(turn_id: u64) -> (r: Self)
        ensures
            r == (StreamHandle { input_finished: false, llm_start: None, turn_id, epoch: 0 }),
    {
        StreamHandle { input_finished: false, llm_start: None, turn_id, epoch: 0 }
    }

    /// The message that sends a delta, unless the input is finished.
    pub fn push_delta(&self, delta: String) -> (r: Result<StreamMsg, StreamError>)
        ensures
            r == if self.input_finished {
                Err(StreamError::InputFinished)
            } else {
                Ok(StreamMsg::Delta { text: delta, epoch: self.epoch })
            },
    {
        if self.input_finished {
            return Err(StreamError::InputFinished);
        }
        Ok(StreamMsg::Delta { text: delta, epoch: self.epoch })
    }

    /// Finishes the input; the message to send for it, the first time and while the channel is
    /// open.
    pub fn finish_input(&mut self, channel_closed: bool) -> (r: Option<StreamMsg>)
        ensures
            *final(self) == (StreamHandle { input_finished: true, ..*old(self) }),
            r == if old(self).input_finished || channel_closed {
                None
            } else {
                Some(StreamMsg::Eof { epoch: old(self).epoch })
            },
    {
        if self.input_finished {
            return None;
        }
        self.input_finished = true;
        if channel_closed {
            return None;
        }
        Some(StreamMsg::Eof { epoch: self.epoch })
    }

    /// Marks the start of the LLM request, the first time.
    pub fn mark_llm_start(&mut self, now: Timestamp) -> (r: Option<MetricEvent>)
        ensures
            *final(self) == (StreamHandle {
                llm_start: if old(self).llm_start is Some {
                    old(self).llm_start
                } else {
                    Some(now)
                },
                ..*old(self)
            }),
            r == if old(self).llm_start is Some {
                None
            } else {
                Some(
                    MetricEvent {
                        turn_id: old(self).turn_id,
                        kind: MetricEventKind::LlmStart,
                        ts: now,
                    },
                )
            },
    {
        if self.llm_start.is_some() {
            return None;
        }
        self.llm_start = Some(now);
        Some(MetricEvent { turn_id: self.turn_id, kind: MetricEventKind::LlmStart, ts: now })
    }

    /// Interrupts the turn: playback stops and what is queued is dropped, for good.
    pub fn interrupt(&mut self) -> (r: Vec<CancelStep>)
        ensures
            *final(self) == (StreamHandle { epoch: next_epoch(old(self).epoch), ..*old(self) }),
            r@ == interrupt_order(),
    {
        self.epoch = self.epoch.wrapping_add(1);
        interrupt_steps()
    }

    /// Stops the session: where the input is finished it is left to drain, else it is
    /// interrupted.
    pub fn stop(&mut self) -> (r: Vec<CancelStep>)
        ensures
            *final(self) == if old(self).input_finished {
                *old(self)
            } else {
                StreamHandle { epoch: next_epoch(old(self).epoch), ..*old(self) }
            },
            r@ == if old(self).input_finished {
                Seq::empty()
            } else {
                interrupt_order()
            },
    {
        if self.input_finished {
            return Vec::new();
        }
        self.interrupt()
    }

    /// Cancels the stream and stops playback.
    pub fn cancel(&mut self) -> (r: Vec<CancelStep>)
        ensures
            *final(self) == (StreamHandle { epoch: next_epoch(old(self).epoch), ..*old(self) }),
            r@ == cancel_order(),
    {
        self.epoch = self.epoch.wrapping_add(1);
        cancel_steps()
    }
}

/// What becomes of a message.
#[derive(Debug, Clone, Copy, PartialEq, Eq, Structural)]
pub enum Intake {
    /// It was sent before an interruption, or after the end, and is dropped.
    Stale,
    /// It was taken in; it may be an event.
    Taken { event: Option<MetricEvent> },
    /// It was taken in, and there is no text to look at.
    Finished,
}

/// What one message does to a session's text: its intake, and the tokenizer after it.
pub open spec fn intake_of(
    msg: Option<StreamMsg>,
    epoch: u64,
    tokenizer: TokenizerView,
    now: Timestamp,
) -> (Intake, TokenizerView) {
    match msg {
        Some(StreamMsg::Delta { text, epoch: sent }) => if sent != epoch || tokenizer.closed {
            (Intake::Stale, tokenizer)
        } else {
            (
                Intake::Taken {
                    event: if tokenizer.first_delta_ts is None && text@.len() > 0 {
                        Some(
                            MetricEvent {
                                turn_id: tokenizer.turn_id,
                                kind: MetricEventKind::LlmFirstToken,
                                ts: now,
                            },
                        )
                    } else {
                        None
                    },
                },
                tokenizer.with_delta(text@, now),
            )
        },
        Some(StreamMsg::Eof { epoch: sent }) => if sent != epoch {
            (Intake::Stale, tokenizer)
        } else {
            closing(tokenizer)
        },
        None => closing(tokenizer),
    }
}

/// What the end of the input does.
pub open spec fn closing(tokenizer: TokenizerView) -> (Intake, TokenizerView) {
    (
        if tokenizer.text.len() == 0 {
            Intake::Finished
        } else {
            Intake::Taken { event: None }
        },
        TokenizerView { closed: true, ..tokenizer },
    )
}

/// What is to be done for a session next.
#[derive(Debug)]
pub enum SessionAction<A> {
    /// Look at the text, by `cut`.
    Cut,
    /// What is to be done for its pipeline.
    Pipeline(PipelineAction<A>),
}

/// What one look at the text gave.
#[derive(Debug)]
pub struct CutReport {
    /// A change of the thresholds that is to be logged.
    pub change: Option<RelaxTransition>,
    /// The event of the segment that was cut off.
    pub event: Option<MetricEvent>,
    /// The job to run.
    pub job: Option<Job>,
}

/// The working side of a session: deltas become segments, and segments become speech.
pub struct Orchestrator<A> {
    pub tokenizer: Tokenizer,
    pub pipeline: Pipeline<A>,
    /// Whether there is text to look at.
    pub cutting: bool,
}

/// What an `Orchestrator` holds.
pub struct OrchestratorView<A> {
    pub tokenizer: TokenizerView,
    pub pipeline: PipelineView<A>,
    pub cutting: bool,
}

impl<A> View for Orchestrator<A> {
    type V = OrchestratorView<A>;

    open spec fn view(&self) -> OrchestratorView<A> {
        OrchestratorView {
            tokenizer: self.tokenizer@,
            pipeline: self.pipeline@,
            cutting: self.cutting,
        }
    }
}

impl<A> OrchestratorView<A> {
    /// The orchestrator of a new session.
    pub open spec fn start(
        builder: StreamSessionBuilder,
        supports_queue: bool,
        session_start_ts: Timestamp,
    ) -> Self {
        OrchestratorView {
            tokenizer: TokenizerView::start(
                builder.levels(),
                session_start_ts,
                builder.turn_id,
                builder.tokenizer,
            ),
            pipeline: PipelineView::start(builder.session_pipeline(), supports_queue),
            cutting: false,
        }
    }

    /// The orchestrator once a message is taken in. The end of the input is also that of the
    /// pipeline's.
    pub open spec fn with_msg(self, msg: Option<StreamMsg>, epoch: u64, now: Timestamp) -> Self {
        let (intake, tokenizer) = intake_of(msg, epoch, self.tokenizer, now);
        OrchestratorView {
            tokenizer,
            pipeline: PipelineView {
                queue: SchedulerView {
                    closed: self.pipeline.queue.closed || (tokenizer.closed && !(intake is Stale)),
                    ..self.pipeline.queue
                },
                stage: if intake is Stale {
                    StageView::Starting
                } else {
                    StageView::Delivering
                },
                ..self.pipeline
            },
            cutting: intake is Taken,
        }
    }

    /// The orchestrator after one look at the text: a segment that is cut off enters the pipeline.
    pub open spec fn with_cut(
        self,
        buffered_ms: u64,
        llm_start: Option<Timestamp>,
        now: Timestamp,
    ) -> Self {
        let step = self.tokenizer.flush(buffered_ms, llm_start, now);
        OrchestratorView {
            tokenizer: self.tokenizer.after_flush(buffered_ms, llm_start, now),
            pipeline: match step_segment(step) {
                Some(segment) => self.pipeline.with_segment(segment),
                None => self.pipeline,
            },
            cutting: step is Piece,
        }
    }
}

impl<A> Orchestrator<A> {
    /// The orchestrator of a new session, for an engine that can or cannot synthesize ahead.
    pub fn new(
        builder: &StreamSessionBuilder,
        supports_queue: bool,
        session_start_ts: Timestamp,
    ) -> (r: Self)
        ensures
            r@ == OrchestratorView::<A>::start(*builder, supports_queue, session_start_ts),
    {
        Orchestrator {
            tokenizer: Tokenizer::with_config(
                FlushLevels { eager: builder.eager, normal: builder.normal, relax: builder.relax },
                session_start_ts,
                builder.turn_id,
                builder.tokenizer,
            ),
            pipeline: Pipeline::new(builder.effective_pipeline(), supports_queue),
            cutting: false,
        }
    }

    /// What is to be done next.
    pub fn next_action(&mut self) -> (r: SessionAction<A>)
        ensures
            if old(self)@.cutting {
                r == SessionAction::<A>::Cut && *final(self) == *old(self)
            } else {
                &&& r matches SessionAction::Pipeline(action)
                &&& (action@, final(self)@.pipeline) == old(self)@.pipeline.next()
                &&& final(self)@.tokenizer == old(self)@.tokenizer
                &&& !final(self)@.cutting
            },
    {
        if self.cutting {
            return SessionAction::Cut;
        }
        SessionAction::Pipeline(self.pipeline.next_action())
    }

    /// Takes a message in, the end of the channel being `None`; returns the event that it is.
    pub fn on_msg(&mut self, msg: Option<StreamMsg>, epoch: u64, now: Timestamp) -> (r: Intake)
        requires
            old(self)@.pipeline.stage is Waiting,
        ensures
            r == intake_of(msg, epoch, old(self)@.tokenizer, now).0,
            final(self)@ == old(self)@.with_msg(msg, epoch, now),
    {
        let intake = match msg {
            Some(StreamMsg::Delta { text, epoch: sent }) => {
                if sent != epoch || self.tokenizer.is_closed() {
                    Intake::Stale
                } else {
                    let event = self.tokenizer.push_delta(text.as_str(), now);
                    Intake::Taken { event }
                }
            },
            Some(StreamMsg::Eof { epoch: sent }) => {
                if sent != epoch {
                    Intake::Stale
                } else {
                    self.end_input()
                }
            },
            None => self.end_input(),
        };
        match intake {
            Intake::Stale => {
                self.pipeline.stage = Stage::Starting;
                self.cutting = false;
            },
            Intake::Taken { .. } => {
                self.pipeline.stage = Stage::Delivering;
                self.cutting = true;
            },
            Intake::Finished => {
                self.pipeline.stage = Stage::Delivering;
                self.cutting = false;
            },
        }
        intake
    }

    /// Ends the input.
    fn end_input(&mut self) -> (r: Intake)
        ensures
            (r, final(self)@.tokenizer) == closing(old(self)@.tokenizer),
            final(self)@.pipeline == (PipelineView {
                queue: SchedulerView { closed: true, ..old(self)@.pipeline.queue },
                ..old(self)@.pipeline
            }),
    {
        self.tokenizer.close();
        self.pipeline.scheduler.close_input();
        if self.tokenizer.is_empty() {
            Intake::Finished
        } else {
            Intake::Taken { event: None }
        }
    }

    /// Looks at the text once, with `buffered_ms` of audio waiting to be played.
    pub fn cut(&mut self, buffered_ms: u64, llm_start: Option<Timestamp>, now: Timestamp) -> (r:
        CutReport)
        requires
            old(self)@.cutting,
        ensures
            final(self)@ == old(self)@.with_cut(buffered_ms, llm_start, now),
            r.change == old(self)@.tokenizer.relax_change(buffered_ms),
            match step_segment(old(self)@.tokenizer.flush(buffered_ms, llm_start, now)) {
                Some(segment) => {
                    &&& r.event == segment_event(segment)
                    &&& match r.job {
                        Some(job) => old(self)@.pipeline.has_slot() && job.text_segment@ == segment
                            && job.seq == old(self)@.pipeline.queue.number(
                            old(self)@.pipeline.queue.jobs.len() as int,
                        ),
                        None => !old(self)@.pipeline.has_slot(),
                    }
                },
                None => r.event is None && r.job is None,
            },
    {
        let (change, step) = self.tokenizer.flush_step(buffered_ms, llm_start, now);
        let segment = match step {
            FlushStep::Wait => {
                self.cutting = false;
                None
            },
            FlushStep::Piece(segment) => segment,
            FlushStep::Last(segment) => {
                self.cutting = false;
                segment
            },
        };
        match segment {
            Some(segment) => {
                let (event, job) = self.pipeline.schedule_text_segment(segment);
                CutReport { change, event, job }
            },
            None => CutReport { change, event: None, job: None },
        }
    }
}

/// The epoch in which a message was sent.
pub open spec fn sent_in(msg: StreamMsg) -> u64 {
    match msg {
        StreamMsg::Delta { epoch, .. } => epoch,
        StreamMsg::Eof { epoch } => epoch,
    }
}

/// What was sent before an interruption has no effect after it.
pub proof fn law_interruption_drops_earlier_messages(
    msg: StreamMsg,
    handle: StreamHandle,
    tokenizer: TokenizerView,
    now: Timestamp,
)
    requires
        sent_in(msg) == handle.epoch,
    ensures
        intake_of(Some(msg), next_epoch(handle.epoch), tokenizer, now) == (
            Intake::Stale,
            tokenizer,
        ),
{
}

/// Once the input has ended, no message adds text.
pub proof fn law_no_text_after_the_end(
    msg: Option<StreamMsg>,
    epoch: u64,
    tokenizer: TokenizerView,
    now: Timestamp,
)
    requires
        tokenizer.closed,
    ensures
        intake_of(msg, epoch, tokenizer, now).1 == tokenizer,
{
    assert(TokenizerView { closed: true, ..tokenizer } == tokenizer);
}

/// Something that happens to a session.
pub enum SessionEvent<A> {
    /// A message comes, while the session waits and takes input.
    Msg { msg: Option<StreamMsg>, epoch: u64, now: Timestamp },
    /// The text is looked at, while there is some to look at.
    Cut { buffered_ms: u64, llm_start: Option<Timestamp>, now: Timestamp },
    /// Something else happens to the pipeline, while there is no text to look at.
    Pipeline(PipelineEvent<A>),
}

/// The session after an event; one that cannot happen in its stage has no effect.
pub open spec fn session_after<A>(s: OrchestratorView<A>, event: SessionEvent<A>) ->
    OrchestratorView<A> {
    match event {
        SessionEvent::Msg { msg, epoch, now } => if s.pipeline.stage is Waiting
            && s.pipeline.queue.takes_input() && !s.cutting {
            s.with_msg(msg, epoch, now)
        } else {
            s
        },
        SessionEvent::Cut { buffered_ms, llm_start, now } => if s.cutting {
            s.with_cut(buffered_ms, llm_start, now)
        } else {
            s
        },
        SessionEvent::Pipeline(event) => if !s.cutting && !(event is Input) {
            OrchestratorView { pipeline: pipeline_after(s.pipeline, event), ..s }
        } else {
            s
        },
    }
}

/// The session after a run of events.
pub open spec fn session_run<A>(
    s: OrchestratorView<A>,
    events: Seq<SessionEvent<A>>,
) -> OrchestratorView<A>
    decreases events.len(),
{
    if events.len() == 0 {
        s
    } else {
        session_after(session_run(s, events.drop_last()), events.last())
    }
}

/// What holds of a session at all times.
pub open spec fn session_inv<A>(s: OrchestratorView<A>) -> bool {
    &&& pipeline_inv(s.pipeline)
    &&& s.cutting ==> s.pipeline.stage is Delivering
    &&& s.tokenizer.closed == s.pipeline.queue.closed
    &&& s.tokenizer.closed && !s.cutting ==> s.tokenizer.text.len() == 0
}

/// A new session is in order, and stays so whatever happens.
pub proof fn law_session_stays_in_order<A>(
    builder: StreamSessionBuilder,
    supports_queue: bool,
    session_start_ts: Timestamp,
    events: Seq<SessionEvent<A>>,
)
    ensures
        session_inv(
            session_run(
                OrchestratorView::start(builder, supports_queue, session_start_ts),
                events,
            ),
        ),
    decreases events.len(),
{
    let start = OrchestratorView::<A>::start(builder, supports_queue, session_start_ts);
    if events.len() == 0 {
        law_new_pipeline_is_in_order::<A>(builder.session_pipeline(), supports_queue);
    } else {
        law_session_stays_in_order(
            builder,
            supports_queue,
            session_start_ts,
            events.drop_last(),
        );
        lemma_event_keeps_order(session_run(start, events.drop_last()), events.last());
    }
}

/// An event leaves a session in order.
proof fn lemma_event_keeps_order<A>(s: OrchestratorView<A>, event: SessionEvent<A>)
    requires
        session_inv(s),
    ensures
        session_inv(session_after(s, event)),
{
    match event {
        SessionEvent::Msg { .. } => {},
        SessionEvent::Cut { buffered_ms, llm_start, now } => {
            if s.cutting {
                let step = s.tokenizer.flush(buffered_ms, llm_start, now);
                if let Some(segment) = step_segment(step) {
                    assert(s.pipeline.with_segment(segment).queue.jobs.drop_last()
                        =~= s.pipeline.queue.jobs);
                }
            }
        },
        SessionEvent::Pipeline(event) => {
            law_pipeline_stays_in_order(s.pipeline, event);
        },
    }
}

/// The text that a session took in.
pub open spec fn text_in<A>(s: OrchestratorView<A>, events: Seq<SessionEvent<A>>) -> Seq<char>
    decreases events.len(),
{
    if events.len() == 0 {
        Seq::empty()
    } else {
        let earlier = events.drop_last();
        let before = session_run(s, earlier);
        match events.last() {
            SessionEvent::Msg { msg: Some(StreamMsg::Delta { text, epoch: sent }), epoch, .. } => if
            before.pipeline.stage is Waiting && before.pipeline.queue.takes_input()
                && !before.cutting && sent == epoch && !before.tokenizer.closed {
                text_in(s, earlier) + text@
            } else {
                text_in(s, earlier)
            },
            _ => text_in(s, earlier),
        }
    }
}

/// The pieces that a session cut its text into, as they stood in it.
pub open spec fn pieces_out<A>(s: OrchestratorView<A>, events: Seq<SessionEvent<A>>) -> Seq<
    Seq<char>,
>
    decreases events.len(),
{
    if events.len() == 0 {
        Seq::empty()
    } else {
        let earlier = events.drop_last();
        let before = session_run(s, earlier);
        match events.last() {
            SessionEvent::Cut { buffered_ms, .. } => if before.cutting {
                with_piece(pieces_out(s, earlier), before.tokenizer, buffered_ms)
            } else {
                pieces_out(s, earlier)
            },
            _ => pieces_out(s, earlier),
        }
    }
}

/// A session loses none of its text: the pieces that it cut, and the text that it still holds,
/// one behind the other, are the text that it took in.
pub proof fn law_session_keeps_its_text<A>(
    s: OrchestratorView<A>,
    events: Seq<SessionEvent<A>>,
)
    requires
        s.tokenizer.text.len() == 0,
    ensures
        pieces_out(s, events).flatten() + session_run(s, events).tokenizer.text == text_in(
            s,
            events,
        ),
    decreases events.len(),
{
    if events.len() == 0 {
        assert(pieces_out(s, events).flatten() + s.tokenizer.text =~= text_in(s, events));
    } else {
        let earlier = events.drop_last();
        law_session_keeps_its_text(s, earlier);
        let before = session_run(s, earlier);
        let after = session_run(s, events);
        let had = pieces_out(s, earlier);
        match events.last() {
            SessionEvent::Cut { buffered_ms, llm_start, now } => {
                if before.cutting {
                    law_cut_keeps_the_text(had, before.tokenizer, buffered_ms, llm_start, now);
                }
            },
            SessionEvent::Msg { msg, epoch, .. } => {
                if before.pipeline.stage is Waiting && before.pipeline.queue.takes_input()
                    && !before.cutting {
                    if let Some(StreamMsg::Delta { text, epoch: sent }) = msg {
                        if sent == epoch && !before.tokenizer.closed {
                            assert(had.flatten() + (before.tokenizer.text + text@) =~= (
                            had.flatten() + before.tokenizer.text) + text@);
                        }
                    }
                }
            },
            _ => {},
        }
    }
}

/// The segments that entered the pipeline, in order.
pub open spec fn segments_in<A>(s: OrchestratorView<A>, events: Seq<SessionEvent<A>>) -> Seq<
    SegmentView,
>
    decreases events.len(),
{
    if events.len() == 0 {
        Seq::empty()
    } else {
        let earlier = events.drop_last();
        let before = session_run(s, earlier);
        match events.last() {
            SessionEvent::Cut { buffered_ms, llm_start, now } => match step_segment(
                before.tokenizer.flush(buffered_ms, llm_start, now),
            ) {
                Some(segment) if before.cutting => segments_in(s, earlier).push(segment),
                _ => segments_in(s, earlier),
            },
            _ => segments_in(s, earlier),
        }
    }
}

/// What enters the pipeline is what is to be spoken of the text: the pieces that a session cut
/// it into, but for blank ones, each without the byte order marks at its start.
pub proof fn law_session_speaks_its_text<A>(
    s: OrchestratorView<A>,
    events: Seq<SessionEvent<A>>,
)
    ensures
        texts_of(segments_in(s, events)) == spoken_texts(pieces_out(s, events)),
    decreases events.len(),
{
    if events.len() == 0 {
        assert(texts_of(segments_in(s, events)) =~= spoken_texts(pieces_out(s, events)));
    } else {
        let earlier = events.drop_last();
        law_session_speaks_its_text(s, earlier);
        let before = session_run(s, earlier);
        if let SessionEvent::Cut { buffered_ms, llm_start, now } = events.last() {
            if before.cutting {
                law_piece_is_spoken(
                    pieces_out(s, earlier),
                    before.tokenizer,
                    buffered_ms,
                    llm_start,
                    now,
                );
                if let Some(segment) = step_segment(
                    before.tokenizer.flush(buffered_ms, llm_start, now),
                ) {
                    assert(texts_of(segments_in(s, events)) =~= texts_of(
                        segments_in(s, earlier),
                    ).push(segment.text));
                }
            }
        }
    }
}

/// The texts of segments.
pub open spec fn texts_of(segments: Seq<SegmentView>) -> Seq<Seq<char>> {
    Seq::new(segments.len(), |i: int| segments[i].text)
}

/// The segments whose outcome was delivered, in order.
pub open spec fn segments_out<A>(s: OrchestratorView<A>, events: Seq<SessionEvent<A>>) -> Seq<
    SegmentView,
>
    decreases events.len(),
{
    if events.len() == 0 {
        Seq::empty()
    } else {
        let earlier = events.drop_last();
        let before = session_run(s, earlier);
        let queue = before.pipeline.queue;
        match events.last() {
            SessionEvent::Pipeline(PipelineEvent::Next) => if !before.cutting
                && before.pipeline.stage is Delivering && queue.jobs.len() > 0
                && queue.jobs[0].state is Finished {
                segments_out(s, earlier).push(queue.jobs[0].segment)
            } else {
                segments_out(s, earlier)
            },
            _ => segments_out(s, earlier),
        }
    }
}

/// Whatever happens, the outcome of each segment is delivered once and in the order of the text:
/// what was delivered, followed by what is still held, is what entered the pipeline.
pub proof fn law_session_delivers_in_order<A>(
    s: OrchestratorView<A>,
    events: Seq<SessionEvent<A>>,
)
    requires
        s.pipeline.queue.jobs.len() == 0,
    ensures
        segments_out(s, events) + segments_of(session_run(s, events).pipeline.queue.jobs)
            == segments_in(s, events),
    decreases events.len(),
{
    if events.len() == 0 {
        assert(segments_out(s, events) + segments_of(s.pipeline.queue.jobs) =~= segments_in(
            s,
            events,
        ));
    } else {
        let earlier = events.drop_last();
        law_session_delivers_in_order(s, earlier);
        let before = session_run(s, earlier);
        let after = session_run(s, events);
        let mid = before.pipeline.queue.jobs;
        let end = after.pipeline.queue.jobs;
        match events.last() {
            SessionEvent::Cut { buffered_ms, llm_start, now } => {
                if before.cutting {
                    match step_segment(before.tokenizer.flush(buffered_ms, llm_start, now)) {
                        Some(segment) => {
                            assert(segments_of(end) =~= segments_of(mid).push(segment));
                            assert(segments_out(s, events) + segments_of(end) =~= (segments_out(
                                s,
                                earlier,
                            ) + segments_of(mid)).push(segment));
                        },
                        None => {},
                    }
                }
            },
            SessionEvent::Pipeline(PipelineEvent::Next) => {
                if !before.cutting && before.pipeline.stage is Delivering && mid.len() > 0
                    && mid[0].state is Finished {
                    assert(end =~= mid.skip(1));
                    assert(segments_of(mid) =~= seq![mid[0].segment] + segments_of(end));
                    assert(segments_out(s, events) + segments_of(end) =~= segments_out(s, earlier)
                        + segments_of(mid));
                } else {
                    lemma_first_waiting(mid);
                    assert(segments_of(end) =~= segments_of(mid));
                }
            },
            _ => {
                assert(segments_of(end) =~= segments_of(mid));
            },
        }
    }
}

/// A session that stops without being cancelled has cut all its text, and delivered the outcome
/// of every segment: those are what is to be spoken of it, in its order.
pub proof fn law_session_ends_complete<A>(
    builder: StreamSessionBuilder,
    supports_queue: bool,
    session_start_ts: Timestamp,
    events: Seq<SessionEvent<A>>,
)
    requires
        ({
            let start = OrchestratorView::<A>::start(
                builder,
                supports_queue,
                session_start_ts,
            );
            let end = session_run(start, events);
            !end.cutting && end.pipeline.stage is Delivering && end.pipeline.next().0
                == ActionView::<A>::Stop { drain: true }
        }),
    ensures
        ({
            let start = OrchestratorView::<A>::start(
                builder,
                supports_queue,
                session_start_ts,
            );
            &&& pieces_out(start, events).flatten() == text_in(start, events)
            &&& texts_of(segments_out(start, events)) == spoken_texts(pieces_out(start, events))
            &&& segments_out(start, events) == segments_in(start, events)
        }),
{
    let start = OrchestratorView::<A>::start(builder, supports_queue, session_start_ts);
    let end = session_run(start, events);
    law_session_stays_in_order(builder, supports_queue, session_start_ts, events);
    law_session_keeps_its_text(start, events);
    law_session_delivers_in_order(start, events);
    law_session_speaks_its_text(start, events);
    assert(end.pipeline.queue.done());
    assert(pieces_out(start, events).flatten() + end.tokenizer.text =~= pieces_out(
        start,
        events,
    ).flatten());
    assert(segments_out(start, events) + segments_of(end.pipeline.queue.jobs) =~= segments_out(
        start,
        events,
    ));
}

/// What `finish_or_cancel` does next.
#[derive(Debug, Clone, Copy, PartialEq, Eq, Structural)]
pub enum FinishStep {
    /// Wait for the orchestrator, and for cancellation.
    AwaitEither,
    /// Wait for the orchestrator alone.
    AwaitOrchestrator,
    /// The orchestrator is done.
    Return,
}

/// Waiting for a session to drain, which a cancellation cuts short.
#[derive(Debug, Clone, Copy, PartialEq, Eq, Structural)]
pub struct Finishing {
    pub cancelled: bool,
    pub orchestrator_done: bool,
}

impl Finishing {
    /// Starts to wait.
    pub fn new(already_cancelled: bool) -> (r: Self)
        ensures
            r == (Finishing { cancelled: already_cancelled, orchestrator_done: false }),
    {
        Finishing { cancelled: already_cancelled, orchestrator_done: false }
    }

    /// What to wait for next.
    pub fn next(&self) -> (r: FinishStep)
        ensures
            r == if self.orchestrator_done {
                FinishStep::Return
            } else if self.cancelled {
                FinishStep::AwaitOrchestrator
            } else {
                FinishStep::AwaitEither
            },
    {
        if self.orchestrator_done {
            FinishStep::Return
        } else if self.cancelled {
            FinishStep::AwaitOrchestrator
        } else {
            FinishStep::AwaitEither
        }
    }

    /// The session was cancelled: it is stopped at once.
    pub fn on_cancelled(&mut self) -> (r: Vec<CancelStep>)
        ensures
            *final(self) == (Finishing { cancelled: true, ..*old(self) }),
            r@ == cancel_order(),
    {
        self.cancelled = true;
        cancel_steps()
    }

    /// The orchestrator is done: where the session was cancelled, it is stopped once more.
    pub fn on_orchestrator_done(&mut self) -> (r: Vec<CancelStep>)
        ensures
            *final(self) == (Finishing { orchestrator_done: true, ..*old(self) }),
            r@ == if old(self).cancelled {
                cancel_order()
            } else {
                Seq::empty()
            },
    {
        self.orchestrator_done = true;
        if self.cancelled {
            cancel_steps()
        } else {
            Vec::new()
        }
    }
}

/// Whoever stops a session stops the engine first; an interruption then takes the receivers away
/// before it tells the tasks, a cancellation tells the tasks before it takes the receivers away.
/// Each step is taken once.
pub proof fn law_order_of_stopping()
    ensures
        interrupt_order().len() == 3,
        interrupt_order()[0] == CancelStep::StopEngine,
        interrupt_order()[1] == CancelStep::AbortOrchestrator,
        interrupt_order()[2] == CancelStep::SignalTasks,
        cancel_order().len() == 3,
        cancel_order()[0] == CancelStep::StopEngine,
        cancel_order()[1] == CancelStep::SignalTasks,
        cancel_order()[2] == CancelStep::AbortOrchestrator,
{
}

/// The next epoch is another one, and no epoch is followed by the same as another.
pub proof fn law_epochs_differ(a: u64, b: u64)
    ensures
        next_epoch(a) != a,
        a != b ==> next_epoch(a) != next_epoch(b),
        a < u64::MAX ==> next_epoch(a) == a + 1,
{
}

/// Text that was sent in the epoch under way is put behind the text that waits, and is looked at;
/// the first with anything in it is an event. Text of another epoch, or after the end, changes
/// nothing.
pub proof fn law_text_is_taken_in(
    text: String,
    sent: u64,
    epoch: u64,
    tokenizer: TokenizerView,
    now: Timestamp,
)
    ensures
        ({
            let (intake, after) = intake_of(
                Some(StreamMsg::Delta { text, epoch: sent }),
                epoch,
                tokenizer,
                now,
            );
            &&& sent == epoch && !tokenizer.closed ==> {
                &&& after.text == tokenizer.text + text@
                &&& !after.closed
                &&& intake is Taken
                &&& (intake == Intake::Taken {
                    event: Some(
                        MetricEvent {
                            turn_id: tokenizer.turn_id,
                            kind: MetricEventKind::LlmFirstToken,
                            ts: now,
                        },
                    ),
                }) == (tokenizer.first_delta_ts is None && text@.len() > 0)
                &&& tokenizer.first_delta_ts is Some || text@.len() == 0 ==> intake
                    == Intake::Taken { event: None }
            }
            &&& sent != epoch || tokenizer.closed ==> intake == Intake::Stale && after == tokenizer
        }),
{
}

/// The end of the input, in the epoch under way or with its channel, closes the text: what waits
/// is spoken, and where nothing does the input is finished. An end of another epoch changes
/// nothing.
pub proof fn law_end_is_taken_in(
    sent: u64,
    epoch: u64,
    tokenizer: TokenizerView,
    now: Timestamp,
)
    ensures
        ({
            let by_message = intake_of(
                Some(StreamMsg::Eof { epoch: sent }),
                epoch,
                tokenizer,
                now,
            );
            let by_channel = intake_of(None, epoch, tokenizer, now);
            &&& by_channel.1.closed && by_channel.1.text == tokenizer.text
            &&& by_channel.0 == Intake::Finished <==> tokenizer.text.len() == 0
            &&& by_channel.0 == (Intake::Taken { event: None }) <==> tokenizer.text.len() > 0
            &&& sent == epoch ==> by_message == by_channel
            &&& sent != epoch ==> by_message == (Intake::Stale, tokenizer)
        }),
{
}

/// A session takes a message in as its text does, and is then to look at the text exactly where
/// there is some; its pipeline is closed with the text, and holds what it held.
pub proof fn law_message_in_a_session<A>(
    s: OrchestratorView<A>,
    msg: Option<StreamMsg>,
    epoch: u64,
    now: Timestamp,
)
    ensures
        ({
            let (intake, tokenizer) = intake_of(msg, epoch, s.tokenizer, now);
            let after = s.with_msg(msg, epoch, now);
            &&& after.tokenizer == tokenizer
            &&& after.cutting == (intake is Taken)
            &&& after.pipeline.queue.jobs == s.pipeline.queue.jobs
            &&& after.pipeline.queue.next_seq == s.pipeline.queue.next_seq
            &&& after.pipeline.queue.backlog_limit == s.pipeline.queue.backlog_limit
            &&& after.pipeline.plan == s.pipeline.plan
            &&& after.pipeline.state == s.pipeline.state
            &&& after.pipeline.drain == s.pipeline.drain
            &&& intake is Stale ==> after.pipeline.queue.closed == s.pipeline.queue.closed
                && after.pipeline.stage is Starting
            &&& !(intake is Stale) ==> after.pipeline.stage is Delivering
            &&& intake is Finished ==> after.pipeline.queue.closed
            &&& !(intake is Stale) ==> after.pipeline.queue.closed == (s.pipeline.queue.closed
                || tokenizer.closed)
        }),
{
}

/// One look at the text of a session hands the segment that it gives to the pipeline, and is
/// followed by another exactly where a piece was cut off.
pub proof fn law_look_in_a_session<A>(
    s: OrchestratorView<A>,
    buffered_ms: u64,
    llm_start: Option<Timestamp>,
    now: Timestamp,
)
    ensures
        ({
            let step = s.tokenizer.flush(buffered_ms, llm_start, now);
            let after = s.with_cut(buffered_ms, llm_start, now);
            &&& after.tokenizer == s.tokenizer.after_flush(buffered_ms, llm_start, now)
            &&& after.cutting == (step is Piece)
            &&& step_segment(step) is None ==> after.pipeline == s.pipeline
            &&& step_segment(step) matches Some(segment) ==> {
                &&& after.pipeline.queue.jobs.len() == s.pipeline.queue.jobs.len() + 1
                &&& after.pipeline.queue.jobs.last().segment == segment
                &&& after.pipeline.queue.jobs.drop_last() == s.pipeline.queue.jobs
                &&& (after.pipeline.queue.jobs.last().state is Running) == (
                crate::pipeline::running(s.pipeline.queue.jobs) < s.pipeline.plan.max_inflight)
            }
        }),
{
    let step = s.tokenizer.flush(buffered_ms, llm_start, now);
    if let Some(segment) = step_segment(step) {
        assert(s.with_cut(buffered_ms, llm_start, now).pipeline.queue.jobs.drop_last()
            =~= s.pipeline.queue.jobs);
    }
}

/// A session starts with the thresholds, the configuration and the turn that it was built with,
/// and with a pipeline in which no more segments wait than its channel holds.
pub proof fn law_session_is_built_as_asked<A>(
    builder: StreamSessionBuilder,
    supports_queue: bool,
    session_start_ts: Timestamp,
)
    ensures
        ({
            let s = OrchestratorView::<A>::start(builder, supports_queue, session_start_ts);
            let config = builder.session_pipeline();
            &&& s.tokenizer.eager == builder.eager
            &&& s.tokenizer.normal == builder.normal
            &&& s.tokenizer.relax == builder.relax
            &&& s.tokenizer.config == builder.tokenizer
            &&& s.tokenizer.turn_id == builder.turn_id
            &&& s.tokenizer.session_start_ts == session_start_ts
            &&& s.tokenizer.text.len() == 0
            &&& !s.cutting
            &&& s.pipeline == PipelineView::<A>::start(config, supports_queue)
            &&& config.mode == builder.pipeline.mode
            &&& config.synth_inflight == builder.pipeline.synth_inflight
            &&& config.synth_timeout_ms == builder.pipeline.synth_timeout_ms
            &&& config.backlog_limit <= builder.pipeline.backlog_limit
            &&& builder.stream.segment_channel >= 1 ==> config.backlog_limit
                <= builder.stream.segment_channel
            &&& builder.pipeline.backlog_limit <= builder.stream.segment_channel
                ==> config.backlog_limit == builder.pipeline.backlog_limit
            &&& 1 <= builder.stream.segment_channel <= builder.pipeline.backlog_limit
                ==> config.backlog_limit == builder.stream.segment_channel
            &&& builder.stream.segment_channel == 0 && builder.pipeline.backlog_limit >= 1
                ==> config.backlog_limit == 1
        }),
{
}

/// What the environment does not set is room for 8192 deltas and 4096 segments; what it sets
/// counts where it lies in its range.
pub proof fn law_stream_settings_of_the_environment(vars: Map<Seq<char>, Seq<char>>, n: nat)
    ensures
        ({
            let c = StreamConfig::env_config(vars);
            let deltas = env::unsigned_var(vars, "STREAM_DELTA_CAPACITY"@, usize::MAX as nat);
            let segments = env::unsigned_var(vars, "STREAM_SEGMENT_CAPACITY"@, usize::MAX as nat);
            &&& 1 <= c.delta_channel <= 65_536
            &&& deltas is None ==> c.delta_channel == 8192
            &&& deltas == Some(n) && 1 <= n <= 65_536 ==> c.delta_channel == n
            &&& 1 <= c.segment_channel <= 65_536
            &&& segments is None ==> c.segment_channel == 4096
            &&& segments == Some(n) && 1 <= n <= 65_536 ==> c.segment_channel == n
        }),
{
}

/// The levels of a session are those that it was built with, each in its place.
pub proof fn law_levels_of_a_session(builder: StreamSessionBuilder)
    ensures
        builder.levels().eager == builder.eager,
        builder.levels().normal == builder.normal,
        builder.levels().relax == builder.relax,
{
}

/// Text is sent in the epoch at hand while the input is open; the input is finished once, and its
/// end is sent once, while there is someone to take it.
pub proof fn law_input_of_a_handle(handle: &StreamHandle, delta: String, r: Result<StreamMsg, StreamError>)
    requires
        call_ensures(StreamHandle::push_delta, (handle, delta), r),
    ensures
        !handle.input_finished ==> r == Ok::<StreamMsg, StreamError>(
            StreamMsg::Delta { text: delta, epoch: handle.epoch },
        ),
        handle.input_finished ==> r matches Err(StreamError::InputFinished),
        forall|h: &mut StreamHandle, closed: bool, m: Option<StreamMsg>|
            #[trigger] call_ensures(StreamHandle::finish_input, (h, closed), m) ==> {
                &&& (*final(h)).input_finished
                &&& (*final(h)).epoch == (*h).epoch && (*final(h)).llm_start == (*h).llm_start && (
                *final(h)).turn_id == (*h).turn_id
                &&& (*h).input_finished || closed ==> m is None
                &&& !(*h).input_finished && !closed ==> m == Some(
                    StreamMsg::Eof { epoch: (*h).epoch },
                )
            },
{
}

/// The start of the request is marked once, and told once.
pub proof fn law_start_is_marked_once()
    ensures
        forall|h: &mut StreamHandle, now: Timestamp, r: Option<MetricEvent>|
            #[trigger] call_ensures(StreamHandle::mark_llm_start, (h, now), r) ==> {
                &&& (*final(h)).llm_start is Some
                &&& (*h).llm_start is Some ==> r is None && (*final(h)).llm_start == (*h).llm_start
                &&& (*h).llm_start is None ==> (*final(h)).llm_start == Some(now) && r == Some(
                    MetricEvent {
                        turn_id: (*h).turn_id,
                        kind: MetricEventKind::LlmStart,
                        ts: now,
                    },
                )
                &&& (*final(h)).epoch == (*h).epoch && (*final(h)).input_finished
                    == (*h).input_finished
            },
{
}

/// Interrupting and cancelling open another epoch, so that what was sent before is dropped, and
/// stop the engine first. Stopping does so too, unless the input is finished: then it is left to
/// drain.
pub proof fn law_stopping_a_handle()
    ensures
        forall|h: &mut StreamHandle, r: Vec<CancelStep>|
            #[trigger] call_ensures(StreamHandle::interrupt, (h,), r) ==> (*final(h)).epoch
                != (*h).epoch && r@.len() == 3 && r@[0] == CancelStep::StopEngine && r@[1]
                == CancelStep::AbortOrchestrator && r@[2] == CancelStep::SignalTasks && (*final(h)).input_finished == (*h).input_finished,
        forall|h: &mut StreamHandle, r: Vec<CancelStep>|
            #[trigger] call_ensures(StreamHandle::cancel, (h,), r) ==> (*final(h)).epoch
                != (*h).epoch && r@.len() == 3 && r@[0] == CancelStep::StopEngine && r@[1]
                == CancelStep::SignalTasks && r@[2] == CancelStep::AbortOrchestrator && (*final(h)).input_finished == (*h).input_finished,
        forall|h: &mut StreamHandle, r: Vec<CancelStep>|
            #[trigger] call_ensures(StreamHandle::stop, (h,), r) ==> {
                &&& (*h).input_finished ==> r@.len() == 0 && *final(h) == *h
                &&& !(*h).input_finished ==> (*final(h)).epoch != (*h).epoch && r@.len() == 3
                    && r@[0] == CancelStep::StopEngine && r@[1] == CancelStep::AbortOrchestrator
                    && r@[2] == CancelStep::SignalTasks
            },
{
}

/// Whoever waits for a session to drain waits for it alone once it is cancelled, and no longer once
/// it is done; a cancelled one is stopped when that happens, and once more at its end.
pub proof fn law_waiting_for_the_end(f: &Finishing, step: FinishStep)
    requires
        call_ensures(Finishing::next, (f,), step),
    ensures
        step == FinishStep::Return <==> f.orchestrator_done,
        step == FinishStep::AwaitOrchestrator <==> !f.orchestrator_done && f.cancelled,
        step == FinishStep::AwaitEither <==> !f.orchestrator_done && !f.cancelled,
        forall|g: &mut Finishing, r: Vec<CancelStep>|
            #[trigger] call_ensures(Finishing::on_cancelled, (g,), r) ==> (*final(g)).cancelled && (
            *final(g)).orchestrator_done == (*g).orchestrator_done && r@.len() == 3 && r@[0]
                == CancelStep::StopEngine,
        forall|g: &mut Finishing, r: Vec<CancelStep>|
            #[trigger] call_ensures(Finishing::on_orchestrator_done, (g,), r) ==> (*final(g)).orchestrator_done && (*final(g)).cancelled == (*g).cancelled && ((*g).cancelled
                ==> r@.len() == 3 && r@[0] == CancelStep::StopEngine) && (!(*g).cancelled
                ==> r@.len() == 0),
{
}

} // verus!
