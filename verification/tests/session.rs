use rcat_voice::generator::TtsMetrics;
use rcat_voice::internal::env::EnvVars;
use rcat_voice::internal::metrics::{
    log_play_done, log_playback_metrics, log_segment_intro, TokenDelays,
};
use rcat_voice::metrics::MetricEventKind;
use rcat_voice::pipeline::{
    spoken, synthesized, Job, OutcomeKind, Pipeline, PipelineAction, PipelineConfig, PipelineMode,
    PipelineState, PlaybackDrain, Problem, RunPlan, RunnerKind, Scheduler, SynthReply,
};
use rcat_voice::streaming::{
    cancel_steps, interrupt_steps, CancelStep, FinishStep, Finishing, Intake, Orchestrator,
    SessionAction, StreamConfig, StreamError, StreamHandle, StreamMsg, StreamSessionBuilder,
};
use rcat_voice::time::Timestamp;
use rcat_voice::tokenizer::{TextSegment, TokenizerConfig};

fn at(nanos: u64) -> Timestamp {
    Timestamp { nanos }
}

fn segment(text: &str, first: bool) -> TextSegment {
    TextSegment {
        turn_id: 4,
        text: text.to_string(),
        llm_start_ts: at(1),
        first_token_ts: if first { Some(at(5)) } else { None },
        last_token_ts: Some(at(6)),
        segment_sent_ts: at(9),
    }
}

fn metrics(first_audio: Option<u64>, done: u64, reported: bool) -> TtsMetrics {
    TtsMetrics {
        start_ts: at(10),
        first_audio_ts: first_audio.map(at),
        gen_done_ts: at(12),
        play_done_ts: at(done),
        play_done_reported: reported,
    }
}

fn config(mode: PipelineMode, inflight: usize, backlog: usize) -> PipelineConfig {
    PipelineConfig { mode, synth_inflight: inflight, backlog_limit: backlog, synth_timeout_ms: 0 }
}

#[test]
fn pipeline_modes() {
    assert_eq!(PipelineMode::parse(" Auto "), Some(PipelineMode::Auto));
    assert_eq!(PipelineMode::parse("SYNC"), Some(PipelineMode::Serial));
    assert_eq!(PipelineMode::parse("serial"), Some(PipelineMode::Serial));
    for word in ["decoupled", "Parallel", "synth"] {
        assert_eq!(PipelineMode::parse(word), Some(PipelineMode::Decoupled));
    }
    assert_eq!(PipelineMode::parse("other"), None);
    let mut vars = EnvVars::new();
    assert_eq!(PipelineMode::from_env(&vars), PipelineMode::Auto);
    vars.set("TTS_PARALLEL_SYNTH", "0");
    assert_eq!(PipelineMode::from_env(&vars), PipelineMode::Serial);
    vars.set("TTS_PIPELINE_MODE", "decoupled");
    assert_eq!(PipelineMode::from_env(&vars), PipelineMode::Decoupled);
}

#[test]
fn pipeline_settings() {
    let mut vars = EnvVars::new();
    let defaults = PipelineConfig::from_env(&vars);
    assert_eq!(defaults.synth_inflight, 1);
    assert_eq!(defaults.backlog_limit, 32);
    assert_eq!(defaults.synth_timeout_ms, 30_000);
    assert_eq!(PipelineConfig::default().backlog_limit, 4096);
    vars.set("TTS_SYNTH_INFLIGHT", "99");
    vars.set("TTS_BACKLOG_LIMIT", "0");
    vars.set("TTS_SYNTH_TIMEOUT_MS", "9999999");
    let wild = PipelineConfig::from_env(&vars);
    assert_eq!((wild.synth_inflight, wild.backlog_limit, wild.synth_timeout_ms), (8, 1, 600_000));
}

#[test]
fn run_plans() {
    let mut c = config(PipelineMode::Decoupled, 3, 0);
    c.synth_timeout_ms = 50;
    let plan = RunPlan::new(c, true);
    assert_eq!(plan.runner, RunnerKind::Decoupled);
    assert_eq!((plan.max_inflight, plan.backlog_limit), (3, 1));
    assert_eq!(plan.synth_timeout_ms, Some(50));
    assert!(!plan.fell_back);
    let plan = RunPlan::new(c, false);
    assert_eq!(plan.runner, RunnerKind::Serial);
    assert_eq!((plan.max_inflight, plan.synth_timeout_ms), (1, None));
    assert!(plan.fell_back);
    c.mode = PipelineMode::Auto;
    assert!(!RunPlan::new(c, false).fell_back);
}

#[test]
fn outcomes_of_jobs() {
    assert!(matches!(
        spoken::<u8>(Ok(metrics(None, 1, false))),
        Ok(Some(OutcomeKind::Played(_)))
    ));
    assert_eq!(spoken::<u8>(Err("no".to_string())).unwrap_err(), "no");
    assert!(matches!(
        synthesized(SynthReply::Done(Ok(Some(3_u8)))),
        Ok(Some(OutcomeKind::NeedPlay(3)))
    ));
    assert!(matches!(synthesized::<u8>(SynthReply::Done(Ok(None))), Ok(None)));
    assert_eq!(
        synthesized::<u8>(SynthReply::TimedOut { timeout_ms: 30_000 }).unwrap_err(),
        "synthesize timed out after 30000ms"
    );
}

#[test]
fn outcomes_are_delivered_in_order() {
    let mut scheduler: Scheduler<u8> = Scheduler::new(2);
    let a = scheduler.submit(segment("a", true), true).unwrap();
    let b = scheduler.submit(segment("b", false), true).unwrap();
    assert!(scheduler.submit(segment("c", false), false).is_none());
    assert_eq!((a.seq, b.seq), (0, 1));
    assert_eq!(scheduler.running_jobs(), 2);
    assert!(scheduler.wants_input());
    assert!(scheduler.submit(segment("d", false), false).is_none());
    assert!(!scheduler.wants_input());
    assert!(scheduler.finish(b.seq, Ok(None)));
    assert!(!scheduler.finish(b.seq, Ok(None)));
    assert!(!scheduler.finish(77, Ok(None)));
    assert!(scheduler.next_outcome().is_none());
    assert!(scheduler.finish(a.seq, Err("x".to_string())));
    assert_eq!(scheduler.next_outcome().unwrap().text_segment.text, "a");
    assert_eq!(scheduler.next_outcome().unwrap().text_segment.text, "b");
    assert!(scheduler.next_outcome().is_none());
    let c = scheduler.start_next().unwrap();
    assert_eq!((c.seq, c.text_segment.text.as_str()), (2, "c"));
    scheduler.close_input();
    assert!(!scheduler.is_done());
    let d = scheduler.start_next().unwrap();
    assert!(scheduler.start_next().is_none());
    scheduler.finish(d.seq, Ok(None));
    scheduler.finish(c.seq, Ok(None));
    assert_eq!(scheduler.next_outcome().unwrap().seq, 2);
    assert_eq!(scheduler.next_outcome().unwrap().seq, 3);
    assert!(scheduler.is_done());
}

#[test]
fn first_segment_and_first_audio_are_events() {
    let mut state = PipelineState::new();
    let event = state.on_segment(&segment("a", true)).unwrap();
    assert_eq!((event.turn_id, event.kind), (4, MetricEventKind::TtsFirstSegmentSent));
    assert_eq!(event.ts, at(9));
    assert!(state.on_segment(&segment("b", false)).is_none());
    assert!(state.on_metrics(&segment("a", true), &metrics(None, 1, false)).is_none());
    let event = state.on_metrics(&segment("a", true), &metrics(Some(11), 1, false)).unwrap();
    assert_eq!((event.kind, event.ts), (MetricEventKind::TtsFirstAudio, at(11)));
    assert!(state.on_metrics(&segment("a", true), &metrics(Some(11), 1, false)).is_none());
}

#[test]
fn drain_waits_for_the_latest_end() {
    let mut drain = PlaybackDrain::new();
    assert_eq!(drain.wait_until(at(0)), None);
    assert!(!drain.track(&metrics(None, 30, false)));
    assert!(!drain.track(&metrics(None, 20, false)));
    assert!(drain.track(&metrics(None, 90, true)));
    assert_eq!(drain.wait_until(at(29)), Some(at(30)));
    assert_eq!(drain.wait_until(at(30)), None);
    drain.note_done(at(40));
    assert_eq!(drain.wait_until(at(30)), Some(at(40)));
}

/// The job that is to be run next.
fn run_of<A>(action: PipelineAction<A>) -> Job {
    match action {
        PipelineAction::Run(job) => job,
        _ => panic!("no job to run"),
    }
}

#[test]
fn no_more_jobs_run_than_planned() {
    let mut p: Pipeline<u8> = Pipeline::new(config(PipelineMode::Decoupled, 2, 2), true);
    let mut running = Vec::new();
    for text in ["a", "b", "c", "d"] {
        assert!(matches!(p.next_action(), PipelineAction::Await { input: true, .. }));
        let (_, job) = p.on_input(Some(segment(text, false)));
        running.extend(job);
    }
    assert_eq!(running.len(), 2);
    assert!(matches!(p.next_action(), PipelineAction::Await { input: false, jobs: true }));
    p.on_job_done(running[1].seq, Ok(Some(OutcomeKind::NeedPlay(7))));
    // The first one is still missing, so the second is held back; the third may start.
    assert_eq!(run_of(p.next_action()).text_segment.text, "c");
    assert!(matches!(p.next_action(), PipelineAction::Await { input: true, jobs: true }));
    p.on_job_done(running[0].seq, Ok(None));
    match p.next_action() {
        PipelineAction::Warn { turn_id: 4, problem: Problem::NothingSynthesized } => {}
        other => panic!("{:?}", other),
    }
    assert!(matches!(p.next_action(), PipelineAction::Play(7)));
    assert!(matches!(p.next_action(), PipelineAction::AwaitReply));
    match p.on_play_reply(Ok(Some(metrics(Some(11), 70, false)))) {
        PipelineAction::Played { event: None, report_pending: false } => {}
        other => panic!("{:?}", other),
    }
    assert_eq!(p.drain.wait_until(at(0)), Some(at(70)));
    let d = run_of(p.next_action());
    assert_eq!(d.seq, 3);
    assert!(matches!(p.next_action(), PipelineAction::Await { input: true, jobs: true }));
    p.on_input(None);
    assert!(matches!(p.next_action(), PipelineAction::Await { input: false, jobs: true }));
    p.on_job_done(3, Err("broken".to_string()));
    assert!(matches!(p.next_action(), PipelineAction::Await { input: false, jobs: true }));
    p.on_job_done(2, Ok(Some(OutcomeKind::NeedPlay(8))));
    assert!(matches!(p.next_action(), PipelineAction::Play(8)));
    match p.on_play_reply(Ok(None)) {
        PipelineAction::Warn { problem: Problem::NothingPlayed, .. } => {}
        other => panic!("{:?}", other),
    }
    match p.next_action() {
        PipelineAction::Warn { problem: Problem::Failed(e), .. } => assert_eq!(e, "broken"),
        other => panic!("{:?}", other),
    }
    assert!(matches!(p.next_action(), PipelineAction::Stop { drain: true }));
}

#[test]
fn a_cancelled_pipeline_stops_without_draining() {
    let mut p: Pipeline<u8> = Pipeline::new(config(PipelineMode::Serial, 1, 1), false);
    assert!(matches!(p.next_action(), PipelineAction::Await { input: true, jobs: false }));
    p.on_cancelled();
    assert!(matches!(p.next_action(), PipelineAction::Stop { drain: false }));
}

fn run_session(messages: Vec<StreamMsg>, epoch: u64) -> (Vec<String>, bool) {
    run_built(&StreamSessionBuilder::new().turn_id(4), messages, epoch)
}

/// Sends messages through a session whose engine speaks everything at once; returns what it spoke.
fn run_built(
    builder: &StreamSessionBuilder,
    messages: Vec<StreamMsg>,
    epoch: u64,
) -> (Vec<String>, bool) {
    let mut session: Orchestrator<u8> = Orchestrator::new(builder, false, at(0));
    let mut messages = messages.into_iter();
    let mut jobs: Vec<Job> = Vec::new();
    let mut spoken_texts = Vec::new();
    for _ in 0..10_000 {
        match session.next_action() {
            SessionAction::Cut => jobs.extend(session.cut(0, Some(at(1)), at(2)).job),
            SessionAction::Pipeline(PipelineAction::Run(job)) => jobs.push(job),
            SessionAction::Pipeline(PipelineAction::Await { input, jobs: running }) => {
                assert_eq!(running, !jobs.is_empty());
                if let Some(job) = jobs.pop() {
                    spoken_texts.push(job.text_segment.text.clone());
                    let result = spoken(Ok(metrics(Some(11), 12, false)));
                    session.pipeline.on_job_done(job.seq, result);
                } else if input {
                    session.on_msg(messages.next(), epoch, at(3));
                } else {
                    panic!("waits for nothing");
                }
            }
            SessionAction::Pipeline(PipelineAction::Stop { drain }) => {
                return (spoken_texts, drain);
            }
            SessionAction::Pipeline(_) => {}
        }
    }
    panic!("session does not end")
}

fn delta(text: &str, epoch: u64) -> StreamMsg {
    StreamMsg::Delta { text: text.to_string(), epoch }
}

#[test]
fn a_session_speaks_all_its_text() {
    let (texts, drain) = run_session(
        vec![delta("Hello,", 0), delta(" world!", 0), StreamMsg::Eof { epoch: 0 }],
        0,
    );
    assert_eq!(texts, vec!["Hello,", " world!"]);
    assert!(drain);
}

#[test]
fn an_explicit_session_ignores_the_environment() {
    let mut vars = EnvVars::new();
    vars.set("TOKENIZER_EAGER_MIN_CHARS", "5");
    let messages = || vec![delta("Hi!", 0), delta(" Yo!", 0), StreamMsg::Eof { epoch: 0 }];
    let (texts, _) = run_built(&StreamSessionBuilder::new(), messages(), 0);
    assert_eq!(texts[0], "Hi!");
    let (texts, _) = run_built(&StreamSessionBuilder::from_env(&vars), messages(), 0);
    assert_eq!(texts[0], "Hi! Yo!");
}

#[test]
fn a_session_without_text_left_ends() {
    let (texts, drain) = run_session(vec![delta("Hello!", 0), StreamMsg::Eof { epoch: 0 }], 0);
    assert_eq!(texts, vec!["Hello!"]);
    assert!(drain);
    assert_eq!(run_session(vec![], 0), (vec![], true));
}

#[test]
fn what_was_sent_before_an_interruption_is_dropped() {
    let (texts, _) = run_session(vec![delta("old text!", 0), delta("new text!", 1)], 1);
    assert_eq!(texts, vec!["new text!"]);
}

#[test]
fn intake_of_messages() {
    let builder = StreamSessionBuilder::new();
    let mut session: Orchestrator<u8> = Orchestrator::new(&builder, false, at(0));
    let _ = session.next_action();
    match session.on_msg(Some(delta("", 0)), 0, at(1)) {
        Intake::Taken { event: None } => {}
        other => panic!("{:?}", other),
    }
    assert!(session.cutting);
    let _ = session.cut(0, None, at(1));
    let _ = session.next_action();
    match session.on_msg(Some(delta("x", 0)), 0, at(7)) {
        Intake::Taken { event: Some(event) } => {
            assert_eq!((event.kind, event.ts), (MetricEventKind::LlmFirstToken, at(7)));
        }
        other => panic!("{:?}", other),
    }
    let _ = session.cut(0, None, at(1));
    let _ = session.next_action();
    assert_eq!(session.on_msg(Some(StreamMsg::Eof { epoch: 5 }), 0, at(8)), Intake::Stale);
    let _ = session.next_action();
    assert_eq!(
        session.on_msg(Some(StreamMsg::Eof { epoch: 0 }), 0, at(8)),
        Intake::Taken { event: None }
    );
    assert_eq!(session.cut(0, None, at(1)).job.unwrap().text_segment.text, "x");
}

#[test]
fn handle_of_a_session() {
    let mut handle = StreamHandle::new(3);
    match handle.push_delta("a".to_string()) {
        Ok(StreamMsg::Delta { text, epoch: 0 }) => assert_eq!(text, "a"),
        other => panic!("{:?}", other),
    }
    let event = handle.mark_llm_start(at(2)).unwrap();
    assert_eq!((event.turn_id, event.kind), (3, MetricEventKind::LlmStart));
    assert!(handle.mark_llm_start(at(3)).is_none());
    assert_eq!(handle.llm_start, Some(at(2)));
    assert_eq!(
        interrupt_steps(),
        vec![CancelStep::StopEngine, CancelStep::AbortOrchestrator, CancelStep::SignalTasks]
    );
    assert_eq!(
        cancel_steps(),
        vec![CancelStep::StopEngine, CancelStep::SignalTasks, CancelStep::AbortOrchestrator]
    );
    assert_eq!(handle.stop(), interrupt_steps());
    assert_eq!(handle.epoch, 1);
    assert_eq!(handle.interrupt(), interrupt_steps());
    assert_eq!(handle.cancel(), cancel_steps());
    assert_eq!(handle.epoch, 3);
    assert!(matches!(handle.finish_input(false), Some(StreamMsg::Eof { epoch: 3 })));
    assert!(handle.finish_input(false).is_none());
    assert!(handle.stop().is_empty());
    let refused = handle.push_delta("b".to_string()).unwrap_err();
    assert_eq!(refused.message(), "input already finished");
    assert_eq!(StreamError::ChannelClosed.message(), "stream channel closed");
    assert!(StreamHandle::new(1).finish_input(true).is_none());
}

#[test]
fn session_configuration() {
    let vars = EnvVars::new();
    let builder = StreamSessionBuilder::from_env(&vars)
        .stream_config(StreamConfig { delta_channel: 5, segment_channel: 0 })
        .tokenizer_config(TokenizerConfig::default())
        .pipeline_config(config(PipelineMode::Auto, 1, 9))
        .turn_id(2);
    assert_eq!(builder.effective_pipeline().backlog_limit, 1);
    assert_eq!(builder.turn_id, 2);
    let wide = builder.stream_config(StreamConfig { delta_channel: 5, segment_channel: 64 });
    assert_eq!(wide.effective_pipeline().backlog_limit, 9);
}

#[test]
fn finishing_a_session() {
    let mut waiting = Finishing::new(false);
    assert_eq!(waiting.next(), FinishStep::AwaitEither);
    assert_eq!(waiting.on_cancelled(), cancel_steps());
    assert_eq!(waiting.next(), FinishStep::AwaitOrchestrator);
    assert_eq!(waiting.on_orchestrator_done(), cancel_steps());
    assert_eq!(waiting.next(), FinishStep::Return);
    let mut quiet = Finishing::new(false);
    assert!(quiet.on_orchestrator_done().is_empty());
}

#[test]
fn timeline_of_a_segment() {
    let mut logged = false;
    let intro = log_segment_intro(&segment("a", true), &mut logged).unwrap();
    assert_eq!(intro.token, Some(TokenDelays { llm_delay: 4, chunker_delay: 4 }));
    assert!(log_segment_intro(&segment("a", true), &mut logged).is_none());
    let mut logged = false;
    assert_eq!(log_segment_intro(&segment("b", false), &mut logged).unwrap().token, None);

    let mut drain = PlaybackDrain::new();
    let log = log_playback_metrics(&segment("好b", true), &metrics(None, 31, false), &mut drain);
    assert_eq!((log.first_audio_delay, log.play_done, log.chars), (Some(1), Some(30), 2));
    assert_eq!(drain.last_done, Some(at(31)));
    let log =
        log_playback_metrics(&segment("b", false), &metrics(Some(40), 99, true), &mut drain);
    assert_eq!((log.first_audio_delay, log.play_done), (None, None));
    assert_eq!(log_play_done(&segment("b", false), at(50), &mut drain), 49);
    assert_eq!(drain.last_done, Some(at(50)));
}
