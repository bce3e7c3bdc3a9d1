use rcat_voice::internal::env::EnvVars;
use rcat_voice::metrics::{
    evict_if_needed, maybe_log_derived, LatencyBaseline, MetricEvent, MetricEventKind, MetricLog,
    MetricsSink, NoopMetricsSink, TracingMetricsSink, TurnMetricsState,
};
use rcat_voice::time::Timestamp;
use std::collections::BTreeMap;

fn ms(ms: u64) -> Timestamp {
    Timestamp { nanos: ms * 1_000_000 }
}

fn event(turn_id: u64, kind: MetricEventKind, at_ms: u64) -> MetricEvent {
    MetricEvent { turn_id, kind, ts: ms(at_ms) }
}

#[test]
fn times_between_points() {
    assert_eq!(ms(5).millis_since(ms(2)), 3);
    assert_eq!(ms(2).millis_since(ms(5)), 0);
    assert_eq!(Timestamp { nanos: 1_999_999 }.millis_since(ms(0)), 1);
    assert!(ms(2).is_after(ms(1)));
    assert!(!ms(1).is_after(ms(1)));
}

#[test]
fn latencies_are_logged_once() {
    let mut vars = EnvVars::new();
    vars.set("VOICE_TTS_METRICS", "1");
    let mut sink = TracingMetricsSink::from_env(&vars);
    assert!(sink.on_event(event(7, MetricEventKind::TurnEnd, 1)).is_empty());
    assert!(sink.on_event(event(7, MetricEventKind::LlmStart, 2)).is_empty());
    let logs = sink.on_event(event(7, MetricEventKind::LlmFirstToken, 12));
    assert!(logs.iter().any(|l| matches!(l, MetricLog::LlmTtft { turn_id: 7, llm_ttft_ms: 10 })));
    assert!(sink.on_event(event(7, MetricEventKind::LlmFirstToken, 14)).is_empty());
    assert!(sink.on_event(event(7, MetricEventKind::TtsFirstSegmentSent, 20)).is_empty());
    let logs = sink.on_event(event(7, MetricEventKind::TtsFirstAudio, 51));
    assert!(logs.iter().any(|l| matches!(l, MetricLog::TtsTtfa { turn_id: 7, tts_ttfa_ms: 31 })));
    assert!(logs.iter().any(|l| matches!(
        l,
        MetricLog::E2eTtfa {
            turn_id: 7,
            e2e_ttfa_ms: 50,
            e2e_baseline: LatencyBaseline::TurnEnd,
        }
    )));
    assert!(sink.on_event(event(7, MetricEventKind::TtsFirstAudio, 60)).is_empty());
}

#[test]
fn without_a_turn_end_the_request_is_the_base() {
    let mut state = TurnMetricsState::default();
    state.llm_start = Some(ms(3));
    state.tts_first_audio = Some(ms(10));
    let logs = maybe_log_derived(1, &mut state);
    assert!(logs.iter().any(|l| matches!(
        l,
        MetricLog::E2eTtfa { e2e_ttfa_ms: 7, e2e_baseline: LatencyBaseline::LlmStart, .. }
    )));
    assert!(maybe_log_derived(1, &mut state).is_empty());
}

#[test]
fn a_silent_sink_logs_nothing() {
    let mut quiet = TracingMetricsSink::from_env(&EnvVars::new());
    assert!(quiet.on_event(event(1, MetricEventKind::LlmStart, 1)).is_empty());
    let mut none = NoopMetricsSink;
    assert!(none.on_event(event(1, MetricEventKind::LlmStart, 1)).is_empty());
}

#[test]
fn inference_times_are_logged() {
    let mut vars = EnvVars::new();
    vars.set("ASR_INFER_LOG", "1");
    let mut sink = TracingMetricsSink::from_env(&vars);
    let logs = sink.on_event(event(2, MetricEventKind::AsrInference { infer_ms: 44 }, 1));
    assert_eq!(logs.len(), 1);
    assert!(matches!(logs[0], MetricLog::AsrInference { turn_id: 2, infer_ms: 44 }));
}

#[test]
fn old_turns_go_first() {
    let mut turns = BTreeMap::new();
    for id in 1..=5 {
        turns.insert(id, TurnMetricsState::default());
    }
    evict_if_needed(&mut turns, 3, 1);
    let left: Vec<u64> = turns.keys().copied().collect();
    assert_eq!(left, vec![1, 4, 5]);
    evict_if_needed(&mut turns, 3, 4);
    assert_eq!(turns.len(), 3);
}
