//! Latency metrics of a conversation turn.

use crate::internal::env::{self, EnvVars};
use crate::number::capped_sum;
use crate::time::Timestamp;
use std::collections::BTreeMap;
use vstd::prelude::*;
use vstd::string::*;

verus! {

/// How many turns are remembered unless `VOICE_METRICS_MAX_TURNS` says otherwise.
pub const DEFAULT_MAX_TURNS: usize = 1024;

/// Atomic metric event kinds (turn-scoped).
#[derive(Debug, Clone, Copy, PartialEq, Eq, Structural)]
pub enum MetricEventKind {
    /// End-of-turn boundary confirmed (SpeechEnd committed).
    TurnEnd,
    /// LLM request start timestamp (baseline).
    LlmStart,
    /// First token (first non-empty delta) received from LLM.
    LlmFirstToken,
    /// First text segment (first chunk) sent to the TTS pipeline.
    TtsFirstSegmentSent,
    /// First playable audio timestamp from TTS (play-domain estimate when available).
    TtsFirstAudio,
    /// ASR inference latency for a single segment.
    AsrInference { infer_ms: u64 },
}

/// A single metric event bound to a `turn_id`.
#[derive(Debug, Clone, Copy, PartialEq, Eq, Structural)]
pub struct MetricEvent {
    pub turn_id: u64,
    pub kind: MetricEventKind,
    pub ts: Timestamp,
}

/// What an end-to-end latency is counted from.
#[derive(Debug, Clone, Copy, PartialEq, Eq, Structural)]
pub enum LatencyBaseline {
    TurnEnd,
    LlmStart,
}

/// A line of the metrics log.
#[derive(Debug, Clone, Copy, PartialEq, Eq, Structural)]
pub enum MetricLog {
    /// How long one ASR inference took.
    AsrInference { turn_id: u64, infer_ms: u64 },
    /// From the LLM request to its first token.
    LlmTtft { turn_id: u64, llm_ttft_ms: u64 },
    /// From the first segment sent to TTS to the first audio.
    TtsTtfa { turn_id: u64, tts_ttfa_ms: u64 },
    /// From the baseline to the first audio.
    E2eTtfa { turn_id: u64, e2e_ttfa_ms: u64, e2e_baseline: LatencyBaseline },
}

/// Metric sink interface.
pub trait MetricsSink {
    /// Takes an event in and returns the lines to log for it.
    fn on_event(&mut self, event: MetricEvent) -> (r: Vec<MetricLog>);
}

/// A sink that drops every event.
#[derive(Debug)]
pub struct NoopMetricsSink;

impl Default for NoopMetricsSink {
    fn default() -> (r: Self)
        ensures
            r == NoopMetricsSink,
    {
        NoopMetricsSink
    }
}

impl MetricsSink for NoopMetricsSink {
    fn on_event(&mut self, _event: MetricEvent) -> (r: Vec<MetricLog>)
        ensures
            r@ == Seq::<MetricLog>::empty(),
            *final(self) == *old(self),
    {
        Vec::new()
    }
}

/// What is known of one turn.
#[derive(Debug, Clone, Copy)]
pub struct TurnMetricsState {
    pub turn_end: Option<Timestamp>,
    pub llm_start: Option<Timestamp>,
    pub llm_first_token: Option<Timestamp>,
    pub tts_first_segment_sent: Option<Timestamp>,
    pub tts_first_audio: Option<Timestamp>,
    pub logged_llm_ttft: bool,
    pub logged_tts_ttfa: bool,
    pub logged_llm_to_tts_first_audio: bool,
    pub logged_e2e_ttfa: bool,
    pub asr_infer_ms_total: u64,
    pub asr_infer_ms_max: u64,
    pub asr_infer_count: u64,
}

/// `kept` where it is there, else `new`.
pub open spec fn first_of(kept: Option<Timestamp>, new: Timestamp) -> Option<Timestamp> {
    if kept is Some {
        kept
    } else {
        Some(new)
    }
}

impl TurnMetricsState {
    /// A turn of which nothing is known.
    pub open spec fn blank() -> Self {
        TurnMetricsState {
            turn_end: None,
            llm_start: None,
            llm_first_token: None,
            tts_first_segment_sent: None,
            tts_first_audio: None,
            logged_llm_ttft: false,
            logged_tts_ttfa: false,
            logged_llm_to_tts_first_audio: false,
            logged_e2e_ttfa: false,
            asr_infer_ms_total: 0,
            asr_infer_ms_max: 0,
            asr_infer_count: 0,
        }
    }

    /// The turn once the event is taken in: the first time of each kind stays, the inference
    /// times add up.
    pub open spec fn recorded(self, kind: MetricEventKind, ts: Timestamp) -> Self {
        match kind {
            MetricEventKind::TurnEnd => TurnMetricsState {
                turn_end: first_of(self.turn_end, ts),
                ..self
            },
            MetricEventKind::LlmStart => TurnMetricsState {
                llm_start: first_of(self.llm_start, ts),
                ..self
            },
            MetricEventKind::LlmFirstToken => TurnMetricsState {
                llm_first_token: first_of(self.llm_first_token, ts),
                ..self
            },
            MetricEventKind::TtsFirstSegmentSent => TurnMetricsState {
                tts_first_segment_sent: first_of(self.tts_first_segment_sent, ts),
                ..self
            },
            MetricEventKind::TtsFirstAudio => TurnMetricsState {
                tts_first_audio: first_of(self.tts_first_audio, ts),
                ..self
            },
            MetricEventKind::AsrInference { infer_ms } => TurnMetricsState {
                asr_infer_count: capped_sum(self.asr_infer_count, 1),
                asr_infer_ms_total: capped_sum(self.asr_infer_ms_total, infer_ms),
                asr_infer_ms_max: if infer_ms > self.asr_infer_ms_max {
                    infer_ms
                } else {
                    self.asr_infer_ms_max
                },
                ..self
            },
        }
    }

    /// Whether the time to the first token is known and not logged yet.
    pub open spec fn ttft_due(self) -> bool {
        !self.logged_llm_ttft && self.llm_start is Some && self.llm_first_token is Some
    }

    /// Whether the time from text to audio is known and not logged yet.
    pub open spec fn ttfa_due(self) -> bool {
        !self.logged_tts_ttfa && self.tts_first_segment_sent is Some && self.tts_first_audio is Some
    }

    /// Whether the time from the turn's end to audio is known and not logged yet.
    pub open spec fn e2e_due(self) -> bool {
        !self.logged_e2e_ttfa && self.turn_end is Some && self.tts_first_audio is Some
    }

    /// Whether the time from the LLM request to audio is known and neither it nor the time from
    /// the turn's end has been logged or is due.
    pub open spec fn llm_to_audio_due(self) -> bool {
        !self.e2e_due() && !self.logged_llm_to_tts_first_audio && !self.logged_e2e_ttfa
            && self.llm_start is Some && self.tts_first_audio is Some
    }

    /// The turn once everything due is logged.
    pub open spec fn logged(self) -> Self {
        TurnMetricsState {
            logged_llm_ttft: self.logged_llm_ttft || self.ttft_due(),
            logged_tts_ttfa: self.logged_tts_ttfa || self.ttfa_due(),
            logged_e2e_ttfa: self.logged_e2e_ttfa || self.e2e_due(),
            logged_llm_to_tts_first_audio: self.logged_llm_to_tts_first_audio || self.e2e_due()
                || self.llm_to_audio_due(),
            ..self
        }
    }

    /// The lines that are due, in order.
    pub open spec fn due_logs(self, turn_id: u64) -> Seq<MetricLog> {
        let ttft = if self.ttft_due() {
            seq![
                MetricLog::LlmTtft {
                    turn_id,
                    llm_ttft_ms: self.llm_first_token->0.spec_millis_since(
                        self.llm_start->0,
                    ) as u64,
                },
            ]
        } else {
            Seq::empty()
        };
        let ttfa = if self.ttfa_due() {
            seq![
                MetricLog::TtsTtfa {
                    turn_id,
                    tts_ttfa_ms: self.tts_first_audio->0.spec_millis_since(
                        self.tts_first_segment_sent->0,
                    ) as u64,
                },
            ]
        } else {
            Seq::empty()
        };
        let e2e = if self.e2e_due() {
            seq![
                MetricLog::E2eTtfa {
                    turn_id,
                    e2e_ttfa_ms: self.tts_first_audio->0.spec_millis_since(
                        self.turn_end->0,
                    ) as u64,
                    e2e_baseline: LatencyBaseline::TurnEnd,
                },
            ]
        } else if self.llm_to_audio_due() {
            seq![
                MetricLog::E2eTtfa {
                    turn_id,
                    e2e_ttfa_ms: self.tts_first_audio->0.spec_millis_since(
                        self.llm_start->0,
                    ) as u64,
                    e2e_baseline: LatencyBaseline::LlmStart,
                },
            ]
        } else {
            Seq::empty()
        };
        ttft + ttfa + e2e
    }

    /// Takes an event in.
    fn record(&mut self, kind: MetricEventKind, ts: Timestamp)
        ensures
            *final(self) == old(self).recorded(kind, ts),
    {
        match kind {
            MetricEventKind::TurnEnd => {
                if self.turn_end.is_none() {
                    self.turn_end = Some(ts);
                }
            },
            MetricEventKind::LlmStart => {
                if self.llm_start.is_none() {
                    self.llm_start = Some(ts);
                }
            },
            MetricEventKind::LlmFirstToken => {
                if self.llm_first_token.is_none() {
                    self.llm_first_token = Some(ts);
                }
            },
            MetricEventKind::TtsFirstSegmentSent => {
                if self.tts_first_segment_sent.is_none() {
                    self.tts_first_segment_sent = Some(ts);
                }
            },
            MetricEventKind::TtsFirstAudio => {
                if self.tts_first_audio.is_none() {
                    self.tts_first_audio = Some(ts);
                }
            },
            MetricEventKind::AsrInference { infer_ms } => {
                self.asr_infer_count = self.asr_infer_count.saturating_add(1);
                self.asr_infer_ms_total = self.asr_infer_ms_total.saturating_add(infer_ms);
                if infer_ms > self.asr_infer_ms_max {
                    self.asr_infer_ms_max = infer_ms;
                }
            },
        }
    }
}

impl Default for TurnMetricsState {
    fn default() -> (r: Self)
        ensures
            r == TurnMetricsState::blank(),
    {
        TurnMetricsState {
            turn_end: None,
            llm_start: None,
            llm_first_token: None,
            tts_first_segment_sent: None,
            tts_first_audio: None,
            logged_llm_ttft: false,
            logged_tts_ttfa: false,
            logged_llm_to_tts_first_audio: false,
            logged_e2e_ttfa: false,
            asr_infer_ms_total: 0,
            asr_infer_ms_max: 0,
            asr_infer_count: 0,
        }
    }
}

/// Logs what has become known of a turn, each latency once.
pub fn maybe_log_derived(turn_id: u64, state: &mut TurnMetricsState) -> (r: Vec<MetricLog>)
    ensures
        r@ == old(state).due_logs(turn_id),
        *final(state) == old(state).logged(),
{
    let mut logs: Vec<MetricLog> = Vec::new();
    if !state.logged_llm_ttft {
        if let (Some(start), Some(first_token)) = (state.llm_start, state.llm_first_token) {
            let llm_ttft_ms: u64 = first_token.millis_since(start);
            logs.push(MetricLog::LlmTtft { turn_id, llm_ttft_ms });
            state.logged_llm_ttft = true;
        }
    }
    if !state.logged_tts_ttfa {
        if let (Some(sent), Some(first_audio)) = (
            state.tts_first_segment_sent,
            state.tts_first_audio,
        ) {
            let tts_ttfa_ms: u64 = first_audio.millis_since(sent);
            logs.push(MetricLog::TtsTtfa { turn_id, tts_ttfa_ms });
            state.logged_tts_ttfa = true;
        }
    }
    if !state.logged_e2e_ttfa {
        if let (Some(turn_end), Some(first_audio)) = (state.turn_end, state.tts_first_audio) {
            let e2e_ttfa_ms: u64 = first_audio.millis_since(turn_end);
            logs.push(
                MetricLog::E2eTtfa { turn_id, e2e_ttfa_ms, e2e_baseline: LatencyBaseline::TurnEnd },
            );
            state.logged_e2e_ttfa = true;
            // The latency from the turn's end stands for the one from the LLM request.
            state.logged_llm_to_tts_first_audio = true;
        }
    }
    if !state.logged_llm_to_tts_first_audio && !state.logged_e2e_ttfa {
        if let (Some(llm_start), Some(first_audio)) = (state.llm_start, state.tts_first_audio) {
            let e2e_ttfa_ms: u64 = first_audio.millis_since(llm_start);
            logs.push(
                MetricLog::E2eTtfa {
                    turn_id,
                    e2e_ttfa_ms,
                    e2e_baseline: LatencyBaseline::LlmStart,
                },
            );
            state.logged_llm_to_tts_first_audio = true;
        }
    }
    proof {
        assert(logs@ =~= old(state).due_logs(turn_id));
    }
    logs
}

/// The turns that may be forgotten: neither the unbound turn nor the one at hand.
pub open spec fn evictable<V>(turns: Map<u64, V>, keep: u64) -> Set<u64> {
    turns.dom().filter(|k: u64| k != 0 && k != keep)
}

/// Whether `k` is the least of `s`.
pub open spec fn is_least(s: Set<u64>, k: u64) -> bool {
    s.contains(k) && forall|j: u64| #[trigger] s.contains(j) ==> k <= j
}

/// The turns left when the `n` oldest that may be forgotten are.
pub open spec fn evicted<V>(turns: Map<u64, V>, n: nat, keep: u64) -> Map<u64, V>
    decreases n,
{
    if n == 0 || evictable(turns, keep) =~= Set::empty() {
        turns
    } else {
        let oldest = choose|k: u64| is_least(evictable(turns, keep), k);
        evicted(turns.remove(oldest), (n - 1) as nat, keep)
    }
}

/// How many of `len` turns are over the limit.
pub open spec fn overflow(len: nat, max_turns: nat) -> nat {
    if max_turns == 0 || len <= max_turns {
        0
    } else {
        (len - max_turns) as nat
    }
}

/// The least key that may be forgotten.
fn oldest_evictable(turns: &BTreeMap<u64, TurnMetricsState>, keep: u64) -> (r: Option<u64>)
    ensures
        match r {
            Some(k) => is_least(evictable(turns@, keep), k),
            None => evictable(turns@, keep) =~= Set::<u64>::empty(),
        },
{
    broadcast use vstd::std_specs::btree::group_btree_axioms;

    let mut oldest: Option<u64> = None;
    let keys = turns.keys();
    for k in iter: keys
        invariant
            iter.seq().unref().to_set() == turns@.dom(),
            match oldest {
                Some(o) => {
                    &&& o != 0 && o != keep && turns@.dom().contains(o)
                    &&& forall|i: int|
                        0 <= i < iter.index() && *(#[trigger] iter.seq()[i]) != 0
                            && *iter.seq()[i] != keep ==> o <= *iter.seq()[i]
                },
                None => forall|i: int|
                    0 <= i < iter.index() ==> *(#[trigger] iter.seq()[i]) == 0 || *iter.seq()[i]
                        == keep,
            },
    {
        let key: u64 = *k;
        proof {
            assert(iter.seq().unref()[iter.index()] == key);
            assert(iter.seq().unref().to_set().contains(key));
        }
        if key != 0 && key != keep {
            match oldest {
                Some(o) => {
                    if key < o {
                        oldest = Some(key);
                    }
                },
                None => {
                    oldest = Some(key);
                },
            }
        }
    }
    oldest
}

/// Forgets the oldest turns until at most `max_turns` are left, but neither the unbound turn nor
/// `keep_turn_id`; a limit of 0 is none.
pub fn evict_if_needed(
    map: &mut BTreeMap<u64, TurnMetricsState>,
    max_turns: usize,
    keep_turn_id: u64,
)
    ensures
        final(map)@ == evicted(
            old(map)@,
            overflow(old(map)@.len(), max_turns as nat),
            keep_turn_id,
        ),
{
    broadcast use vstd::std_specs::btree::group_btree_axioms;

    let ghost before = map@;
    if max_turns == 0 || map.len() <= max_turns {
        return;
    }
    let mut left: usize = map.len() - max_turns;
    let ghost total = left as nat;
    while left > 0
        invariant
            before == old(map)@,
            total == overflow(before.len(), max_turns as nat),
            evicted(before, total, keep_turn_id) == evicted(map@, left as nat, keep_turn_id),
        decreases left,
    {
        match oldest_evictable(map, keep_turn_id) {
            Some(oldest) => {
                proof {
                    let chosen = choose|k: u64| is_least(evictable(map@, keep_turn_id), k);
                    assert(is_least(evictable(map@, keep_turn_id), oldest));
                    assert(evictable(map@, keep_turn_id).contains(chosen));
                    assert(chosen == oldest);
                }
                map.remove(&oldest);
                left -= 1;
            },
            None => {
                return;
            },
        }
    }
}

/// Default metrics sink: logs derived timings when enabled via env vars.
///
/// Enable with one of:
/// - `VOICE_TTS_METRICS=1`
/// - `VOICE_STREAM_METRICS=1`
/// - `STREAM_METRICS=1`
/// - `ASR_INFER_LOG=1` (ASR-only)
#[derive(Debug)]
pub struct TracingMetricsSink {
    enabled: bool,
    asr_infer_log: bool,
    max_turns: usize,
    state: BTreeMap<u64, TurnMetricsState>,
}

/// What a `TracingMetricsSink` holds.
pub struct SinkView {
    /// Whether every event is taken in.
    pub enabled: bool,
    /// Whether inference times are logged.
    pub asr_infer_log: bool,
    /// How many turns are remembered.
    pub max_turns: nat,
    /// The turns that are remembered.
    pub turns: Map<u64, TurnMetricsState>,
}

impl SinkView {
    /// Whether the sink takes such an event in.
    pub open spec fn takes(self, kind: MetricEventKind) -> bool {
        self.enabled || (kind is AsrInference && self.asr_infer_log)
    }

    /// What is known of the event's turn once the event is taken in.
    pub open spec fn recorded(self, event: MetricEvent) -> TurnMetricsState {
        let known = if self.turns.dom().contains(event.turn_id) {
            self.turns[event.turn_id]
        } else {
            TurnMetricsState::blank()
        };
        known.recorded(event.kind, event.ts)
    }

    /// The lines to log for the event.
    pub open spec fn logs(self, event: MetricEvent) -> Seq<MetricLog> {
        if !self.takes(event.kind) {
            Seq::empty()
        } else {
            let inference = match event.kind {
                MetricEventKind::AsrInference { infer_ms } if self.asr_infer_log => seq![
                    MetricLog::AsrInference { turn_id: event.turn_id, infer_ms },
                ],
                _ => Seq::empty(),
            };
            if self.enabled {
                inference + self.recorded(event).due_logs(event.turn_id)
            } else {
                inference
            }
        }
    }

    /// The sink after the event.
    pub open spec fn after(self, event: MetricEvent) -> SinkView {
        if !self.takes(event.kind) {
            self
        } else {
            let entry = if self.enabled {
                self.recorded(event).logged()
            } else {
                self.recorded(event)
            };
            let turns = self.turns.insert(event.turn_id, entry);
            SinkView {
                turns: evicted(turns, overflow(turns.len(), self.max_turns), event.turn_id),
                ..self
            }
        }
    }

    /// The invariant of a sink read from the environment: no more turns than the limit.
    pub open spec fn bounded(self) -> bool {
        self.turns.dom().finite() && self.turns.len() <= self.max_turns && self.max_turns >= 3
    }
}

impl View for TracingMetricsSink {
    type V = SinkView;

    closed spec fn view(&self) -> SinkView {
        SinkView {
            enabled: self.enabled,
            asr_infer_log: self.asr_infer_log,
            max_turns: self.max_turns as nat,
            turns: self.state@,
        }
    }
}

impl TracingMetricsSink {
    /// An empty sink, switched by the environment.
    pub fn from_env(vars: &EnvVars) -> (r: Self)
        ensures
            r@.enabled == (env::switch_setting(vars@, "VOICE_TTS_METRICS"@, false)
                || env::switch_setting(vars@, "VOICE_STREAM_METRICS"@, false)
                || env::switch_setting(vars@, "STREAM_METRICS"@, false)),
            r@.asr_infer_log == (env::switch_setting(vars@, "ASR_INFER_LOG"@, false)
                || r@.enabled),
            r@.max_turns == env::unsigned_setting(
                vars@,
                "VOICE_METRICS_MAX_TURNS"@,
                usize::MAX as nat,
                DEFAULT_MAX_TURNS as nat,
                16,
                1_000_000,
            ),
            r@.turns == Map::<u64, TurnMetricsState>::empty(),
            r@.bounded(),
    {
        let enabled = env::bool01(vars, "VOICE_TTS_METRICS", false) || env::bool01(
            vars,
            "VOICE_STREAM_METRICS",
            false,
        ) || env::bool01(vars, "STREAM_METRICS", false);
        let asr_infer_log = env::bool01(vars, "ASR_INFER_LOG", false) || enabled;
        let max_turns: usize = env::usize_clamped(
            vars,
            "VOICE_METRICS_MAX_TURNS",
            DEFAULT_MAX_TURNS,
            16,
            1_000_000,
        );
        TracingMetricsSink { enabled, asr_infer_log, max_turns, state: BTreeMap::new() }
    }
}

impl MetricsSink for TracingMetricsSink {
    fn on_event(&mut self, event: MetricEvent) -> (r: Vec<MetricLog>)
        ensures
            r@ == old(self)@.logs(event),
            final(self)@ == old(self)@.after(event),
    {
        broadcast use vstd::std_specs::btree::group_btree_axioms;

        let mut logs: Vec<MetricLog> = Vec::new();
        if !self.enabled {
            match event.kind {
                MetricEventKind::AsrInference { infer_ms: _ } => {
                    if !self.asr_infer_log {
                        return logs;
                    }
                },
                _ => {
                    return logs;
                },
            }
        }
        let mut entry = match self.state.get(&event.turn_id) {
            Some(known) => *known,
            None => TurnMetricsState::default(),
        };
        entry.record(event.kind, event.ts);
        if let MetricEventKind::AsrInference { infer_ms } = event.kind {
            if self.asr_infer_log {
                logs.push(MetricLog::AsrInference { turn_id: event.turn_id, infer_ms });
            }
        }
        if self.enabled {
            let mut derived = maybe_log_derived(event.turn_id, &mut entry);
            logs.append(&mut derived);
        }
        self.state.insert(event.turn_id, entry);
        evict_if_needed(&mut self.state, self.max_turns, event.turn_id);
        proof {
            assert(logs@ =~= old(self)@.logs(event));
        }
        logs
    }
}

/// A finite set that is not empty has a least element.
proof fn lemma_least_exists(s: Set<u64>) -> (least: u64)
    requires
        s.finite(),
        !(s =~= Set::empty()),
    ensures
        is_least(s, least),
    decreases s.len(),
{
    let a = s.choose();
    let rest = s.remove(a);
    if rest =~= Set::empty() {
        assert forall|j: u64| #[trigger] s.contains(j) implies a <= j by {
            if j != a {
                assert(rest.contains(j));
            }
        }
        a
    } else {
        let b = lemma_least_exists(rest);
        let least = if a <= b {
            a
        } else {
            b
        };
        assert forall|j: u64| #[trigger] s.contains(j) implies least <= j by {
            if j != a {
                assert(rest.contains(j));
            }
        }
        least
    }
}

/// Forgetting turns changes no entry that stays, keeps the unbound turn and the turn at hand,
/// forgets as many as asked where so many may be forgotten, and forgets the oldest first.
pub proof fn law_eviction<V>(turns: Map<u64, V>, n: nat, keep: u64)
    requires
        turns.dom().finite(),
    ensures
        ({
            let left = evicted(turns, n, keep);
            let free = evictable(turns, keep);
            &&& left.submap_of(turns)
            &&& left.dom().finite()
            &&& turns.dom().contains(0) ==> left.dom().contains(0)
            &&& turns.dom().contains(keep) ==> left.dom().contains(keep)
            &&& left.len() == turns.len() - if free.len() < n {
                free.len()
            } else {
                n
            }
            &&& forall|gone: u64, stays: u64|
                turns.dom().contains(gone) && !(#[trigger] left.dom().contains(gone))
                    && #[trigger] left.dom().contains(stays) && free.contains(stays) ==> gone
                    < stays
        }),
    decreases n,
{
    let free = evictable(turns, keep);
    vstd::set_lib::lemma_len_subset(free, turns.dom());
    if n > 0 && !(free =~= Set::empty()) {
        let witness = lemma_least_exists(free);
        let oldest = choose|k: u64| is_least(free, k);
        let fewer = turns.remove(oldest);
        assert(evictable(fewer, keep) =~= free.remove(oldest));
        law_eviction(fewer, (n - 1) as nat, keep);
        let left = evicted(turns, n, keep);
        assert forall|gone: u64, stays: u64|
            turns.dom().contains(gone) && !(#[trigger] left.dom().contains(gone))
                && #[trigger] left.dom().contains(stays) && free.contains(stays) implies gone
            < stays by {
            if gone != oldest {
                assert(fewer.dom().contains(gone));
                assert(evictable(fewer, keep).contains(stays));
            } else {
                assert(fewer.dom().contains(stays));
            }
        }
    } else if n > 0 {
        assert(free.len() == 0);
    }
}

/// A sink never remembers more turns than its limit.
pub proof fn law_turns_stay_bounded(sink: SinkView, event: MetricEvent)
    requires
        sink.bounded(),
    ensures
        sink.after(event).bounded(),
{
    if sink.takes(event.kind) {
        let entry = if sink.enabled {
            sink.recorded(event).logged()
        } else {
            sink.recorded(event)
        };
        let turns = sink.turns.insert(event.turn_id, entry);
        let free = evictable(turns, event.turn_id);
        law_eviction(turns, overflow(turns.len(), sink.max_turns), event.turn_id);
        let bound = turns.dom().remove(0).remove(event.turn_id);
        assert(free =~= bound);
    }
}

/// Each latency of a turn is logged at most once: what one event has logged, no later one logs.
pub proof fn law_latency_logged_once(
    state: TurnMetricsState,
    turn_id: u64,
    kind: MetricEventKind,
    ts: Timestamp,
)
    ensures
        ({
            let later = state.logged().recorded(kind, ts);
            &&& state.ttft_due() ==> !later.ttft_due()
            &&& state.ttfa_due() ==> !later.ttfa_due()
            &&& state.e2e_due() ==> !later.e2e_due() && !later.llm_to_audio_due()
            &&& state.llm_to_audio_due() ==> !later.llm_to_audio_due()
            &&& state.logged().due_logs(turn_id) == Seq::<MetricLog>::empty()
        }),
{
    assert(state.logged().due_logs(turn_id) =~= Seq::<MetricLog>::empty());
}

/// The milliseconds between two times.
pub open spec fn ms_between(from: Timestamp, to: Timestamp) -> int {
    if to.nanos >= from.nanos {
        (to.nanos - from.nanos) / 1_000_000
    } else {
        0
    }
}

/// Of each kind of event the first time stays, whatever comes later; inferences are counted,
/// added up, and the longest is kept. Events of one kind do not touch what is known of another.
pub proof fn law_first_times_stay(
    state: TurnMetricsState,
    ts: Timestamp,
    later: Timestamp,
    infer_ms: u64,
)
    ensures
        ({
            let s = state.recorded(MetricEventKind::TurnEnd, ts);
            &&& s.turn_end == if state.turn_end is Some { state.turn_end } else { Some(ts) }
            &&& s.recorded(MetricEventKind::TurnEnd, later) == s
            &&& (TurnMetricsState { turn_end: state.turn_end, ..s }) == state
        }),
        ({
            let s = state.recorded(MetricEventKind::LlmStart, ts);
            &&& s.llm_start == if state.llm_start is Some { state.llm_start } else { Some(ts) }
            &&& s.recorded(MetricEventKind::LlmStart, later) == s
            &&& (TurnMetricsState { llm_start: state.llm_start, ..s }) == state
        }),
        ({
            let s = state.recorded(MetricEventKind::LlmFirstToken, ts);
            &&& s.llm_first_token == if state.llm_first_token is Some {
                state.llm_first_token
            } else {
                Some(ts)
            }
            &&& s.recorded(MetricEventKind::LlmFirstToken, later) == s
            &&& (TurnMetricsState { llm_first_token: state.llm_first_token, ..s }) == state
        }),
        ({
            let s = state.recorded(MetricEventKind::TtsFirstSegmentSent, ts);
            &&& s.tts_first_segment_sent == if state.tts_first_segment_sent is Some {
                state.tts_first_segment_sent
            } else {
                Some(ts)
            }
            &&& s.recorded(MetricEventKind::TtsFirstSegmentSent, later) == s
            &&& (TurnMetricsState {
                tts_first_segment_sent: state.tts_first_segment_sent,
                ..s
            }) == state
        }),
        ({
            let s = state.recorded(MetricEventKind::TtsFirstAudio, ts);
            &&& s.tts_first_audio == if state.tts_first_audio is Some {
                state.tts_first_audio
            } else {
                Some(ts)
            }
            &&& s.recorded(MetricEventKind::TtsFirstAudio, later) == s
            &&& (TurnMetricsState { tts_first_audio: state.tts_first_audio, ..s }) == state
        }),
        ({
            let s = state.recorded(MetricEventKind::AsrInference { infer_ms }, ts);
            &&& state.asr_infer_count < u64::MAX ==> s.asr_infer_count == state.asr_infer_count + 1
            &&& state.asr_infer_ms_total + infer_ms <= u64::MAX ==> s.asr_infer_ms_total
                == state.asr_infer_ms_total + infer_ms
            &&& s.asr_infer_ms_max >= infer_ms && s.asr_infer_ms_max >= state.asr_infer_ms_max
            &&& s.asr_infer_ms_max == infer_ms || s.asr_infer_ms_max == state.asr_infer_ms_max
            &&& (TurnMetricsState {
                asr_infer_count: state.asr_infer_count,
                asr_infer_ms_total: state.asr_infer_ms_total,
                asr_infer_ms_max: state.asr_infer_ms_max,
                ..s
            }) == state
        }),
{
}

/// A latency is due exactly where both its times are known and it was not logged, and it is the
/// time between them: from the request to the first token, from the first text sent to the first
/// audio, and from the end of the turn to the first audio. Where the turn's end is not known, the
/// latter counts from the request, unless it was logged already. Nothing else is due.
pub proof fn law_latencies_that_are_due(state: TurnMetricsState, turn_id: u64, log: MetricLog)
    ensures
        state.due_logs(turn_id).contains(log) <==> {
            ||| log matches MetricLog::LlmTtft { turn_id: t, llm_ttft_ms } && t == turn_id
                && !state.logged_llm_ttft && state.llm_start is Some && state.llm_first_token is Some
                && llm_ttft_ms == ms_between(state.llm_start->0, state.llm_first_token->0)
            ||| log matches MetricLog::TtsTtfa { turn_id: t, tts_ttfa_ms } && t == turn_id
                && !state.logged_tts_ttfa && state.tts_first_segment_sent is Some
                && state.tts_first_audio is Some && tts_ttfa_ms == ms_between(
                state.tts_first_segment_sent->0,
                state.tts_first_audio->0,
            )
            ||| log matches MetricLog::E2eTtfa { turn_id: t, e2e_ttfa_ms, e2e_baseline } && t
                == turn_id && e2e_baseline == LatencyBaseline::TurnEnd && !state.logged_e2e_ttfa
                && state.turn_end is Some && state.tts_first_audio is Some && e2e_ttfa_ms
                == ms_between(state.turn_end->0, state.tts_first_audio->0)
            ||| log matches MetricLog::E2eTtfa { turn_id: t, e2e_ttfa_ms, e2e_baseline } && t
                == turn_id && e2e_baseline == LatencyBaseline::LlmStart && !state.logged_e2e_ttfa
                && !state.logged_llm_to_tts_first_audio && state.turn_end is None && state.llm_start
                is Some && state.tts_first_audio is Some && e2e_ttfa_ms == ms_between(
                state.llm_start->0,
                state.tts_first_audio->0,
            )
        },
        state.due_logs(turn_id).len() <= 3,
{
    let logs = state.due_logs(turn_id);
    let n0: int = if state.ttft_due() { 1 } else { 0 };
    let n1: int = if state.ttfa_due() { 1 } else { 0 };
    if state.ttft_due() {
        assert(logs[0] is LlmTtft);
    }
    if state.ttfa_due() {
        assert(logs[n0] is TtsTtfa);
    }
    if state.e2e_due() || state.llm_to_audio_due() {
        assert(logs[n0 + n1] is E2eTtfa);
    }
}

/// What was due is not due again once it is logged, and logging changes nothing that is known.
pub proof fn law_logged_is_not_due(state: TurnMetricsState, turn_id: u64)
    ensures
        state.logged().due_logs(turn_id).len() == 0,
        state.logged().turn_end == state.turn_end,
        state.logged().llm_start == state.llm_start,
        state.logged().llm_first_token == state.llm_first_token,
        state.logged().tts_first_segment_sent == state.tts_first_segment_sent,
        state.logged().tts_first_audio == state.tts_first_audio,
        state.logged().logged_llm_ttft ==> state.logged_llm_ttft || (state.llm_start is Some
            && state.llm_first_token is Some),
        state.logged().logged_tts_ttfa ==> state.logged_tts_ttfa || (state.tts_first_segment_sent
            is Some && state.tts_first_audio is Some),
        state.logged().logged_e2e_ttfa ==> state.logged_e2e_ttfa || (state.turn_end is Some
            && state.tts_first_audio is Some),
{
}

/// A sink that is switched on takes every event in, and logs what is due; one that is switched on
/// for inference alone takes in those events, and logs each; one that is off does nothing.
pub proof fn law_what_a_sink_logs(sink: SinkView, event: MetricEvent)
    ensures
        !sink.enabled && !sink.asr_infer_log ==> sink.logs(event).len() == 0 && sink.after(event)
            == sink,
        !sink.enabled && !(event.kind is AsrInference) ==> sink.logs(event).len() == 0
            && sink.after(event) == sink,
        sink.asr_infer_log ==> (event.kind matches MetricEventKind::AsrInference { infer_ms }
            ==> sink.logs(event).len() > 0 && sink.logs(event)[0] == (MetricLog::AsrInference {
            turn_id: event.turn_id,
            infer_ms,
        })),
        sink.enabled && !(event.kind is AsrInference) ==> sink.logs(event) == sink.recorded(
            event,
        ).due_logs(event.turn_id),
        sink.turns.dom().contains(event.turn_id) ==> sink.recorded(event)
            == sink.turns[event.turn_id].recorded(event.kind, event.ts),
        !sink.turns.dom().contains(event.turn_id) ==> sink.recorded(event)
            == TurnMetricsState::blank().recorded(event.kind, event.ts),
{
    if sink.enabled && !(event.kind is AsrInference) {
        assert(sink.logs(event) =~= sink.recorded(event).due_logs(event.turn_id));
    }
}

/// Nothing is known of a turn at first.
pub proof fn law_blank_turn()
    ensures
        ({
            let s = TurnMetricsState::blank();
            &&& s.turn_end is None && s.llm_start is None && s.llm_first_token is None
            &&& s.tts_first_segment_sent is None && s.tts_first_audio is None
            &&& !s.logged_llm_ttft && !s.logged_tts_ttfa && !s.logged_e2e_ttfa
                && !s.logged_llm_to_tts_first_audio
            &&& s.asr_infer_count == 0 && s.asr_infer_ms_total == 0 && s.asr_infer_ms_max == 0
        }),
{
}

/// As many turns are over the limit as there are more than it; a limit of 0 is none.
pub proof fn law_turns_over_the_limit(len: nat, max_turns: nat)
    ensures
        max_turns == 0 ==> overflow(len, max_turns) == 0,
        max_turns > 0 && len <= max_turns ==> overflow(len, max_turns) == 0,
        max_turns > 0 && len > max_turns ==> len - overflow(len, max_turns) == max_turns,
{
}

/// How many turns a sink remembers where nothing else is set.
pub proof fn law_turns_that_are_remembered()
    ensures
        DEFAULT_MAX_TURNS == 1024,
{
}

/// A sink is switched on by any of three variables, and logs inferences where it is on or where it
/// is told to; it remembers as many turns as are set, and none at first.
pub proof fn law_sink_of_the_environment(vars: &EnvVars, r: TracingMetricsSink, n: nat)
    requires
        call_ensures(TracingMetricsSink::from_env, (vars,), r),
    ensures
        ({
            let on = |key: Seq<char>| env::switch_setting(vars@, key, false);
            let turns = env::unsigned_var(vars@, "VOICE_METRICS_MAX_TURNS"@, usize::MAX as nat);
            &&& r@.enabled <==> on("VOICE_TTS_METRICS"@) || on("VOICE_STREAM_METRICS"@) || on(
                "STREAM_METRICS"@,
            )
            &&& r@.asr_infer_log <==> r@.enabled || on("ASR_INFER_LOG"@)
            &&& turns is None ==> r@.max_turns == 1024
            &&& turns == Some(n) && 16 <= n <= 1_000_000 ==> r@.max_turns == n
            &&& 16 <= r@.max_turns <= 1_000_000
            &&& r@.turns == Map::<u64, TurnMetricsState>::empty()
        }),
{
}

} // verus!
