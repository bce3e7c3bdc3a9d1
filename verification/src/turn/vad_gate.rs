//! Turn detection by silence alone.

use super::types::{
    AudioFrameRef, TurnBoundaryDetector, TurnDetectorConfig, TurnEvent, TurnEventKind, TurnEvents,
};
use crate::asr::VadEvent;
use crate::internal::env::{self, EnvVars};
use crate::number::capped_sum;
use crate::time::Timestamp;
use vstd::prelude::*;
use vstd::string::*;

verus! {

/// Ends a turn once speech was followed by enough silence.
#[derive(Debug, Clone, Copy, PartialEq, Eq, Structural)]
pub struct VadGateTurnDetector {
    pub config: TurnDetectorConfig,
    /// Whether someone speaks.
    pub speaking: bool,
    /// When speech last started.
    pub speech_start_ts: Option<Timestamp>,
    /// Since when it is silent.
    pub silence_start_ts: Option<Timestamp>,
    /// Whether the turn was committed; it is once at most.
    pub committed: bool,
}

/// The number under one of two keys, the first one first, or `default` without one, brought
/// into `min..=max`.
pub open spec fn either_setting(
    vars: Map<Seq<char>, Seq<char>>,
    key: Seq<char>,
    legacy_key: Seq<char>,
    largest: nat,
    default: nat,
    min: nat,
    max: nat,
) -> nat {
    let v = match (
        env::unsigned_var(vars, key, largest),
        env::unsigned_var(vars, legacy_key, largest),
    ) {
        (Some(v), _) => v,
        (None, Some(v)) => v,
        (None, None) => default,
    };
    env::clamped(v as int, min as int, max as int) as nat
}

/// The `u64` under one of two keys, brought into `min..=max`.
fn either_u64(
    vars: &EnvVars,
    key: &str,
    legacy_key: &str,
    default: u64,
    min: u64,
    max: u64,
) -> (r: u64)
    requires
        min <= max,
    ensures
        r == either_setting(
            vars@,
            key@,
            legacy_key@,
            u64::MAX as nat,
            default as nat,
            min as nat,
            max as nat,
        ),
        min <= r <= max,
{
    let v: u64 = match env::get_u64(vars, key) {
        Some(v) => v,
        None => match env::get_u64(vars, legacy_key) {
            Some(v) => v,
            None => default,
        },
    };
    env::clamp_u64(v, min, max)
}

/// The configuration that the environment sets.
pub open spec fn env_config(vars: Map<Seq<char>, Seq<char>>) -> TurnDetectorConfig {
    let largest = u64::MAX as nat;
    let min_silence = either_setting(
        vars,
        "TURN_MIN_SILENCE_MS"@,
        "SMART_TURN_MIN_SILENCE_MS"@,
        largest,
        250,
        50,
        2000,
    );
    let commit = either_setting(
        vars,
        "TURN_COMMIT_MS"@,
        "SMART_TURN_COMMIT_MS"@,
        largest,
        100,
        0,
        1000,
    );
    TurnDetectorConfig {
        min_silence_ms: min_silence as u64,
        commit_ms: commit as u64,
        force_end_ms: either_setting(
            vars,
            "TURN_FORCE_END_MS"@,
            "SMART_TURN_FORCE_END_MS"@,
            largest,
            2000,
            min_silence + commit,
            60_000,
        ) as u64,
        eval_interval_ms: either_setting(
            vars,
            "TURN_EVAL_INTERVAL_MS"@,
            "SMART_TURN_EVAL_INTERVAL_MS"@,
            largest,
            80,
            10,
            500,
        ) as u64,
        silence_threshold: either_setting(
            vars,
            "TURN_SILENCE_THRESHOLD"@,
            "SMART_TURN_SILENCE_ABS"@,
            u16::MAX as nat,
            200,
            0,
            20_000,
        ) as u16,
    }
}

impl VadGateTurnDetector {
    /// A detector at the start of a turn.
    pub fn new(config: TurnDetectorConfig) -> (r: Self)
        ensures
            r == Self::start(config),
    {
        VadGateTurnDetector {
            config,
            speaking: false,
            speech_start_ts: None,
            silence_start_ts: None,
            committed: false,
        }
    }

    /// A detector at the start of a turn.
    pub open spec fn start(config: TurnDetectorConfig) -> Self {
        VadGateTurnDetector {
            config,
            speaking: false,
            speech_start_ts: None,
            silence_start_ts: None,
            committed: false,
        }
    }

    /// A detector that the environment configures, by `TURN_*` or the older `SMART_TURN_*`.
    pub fn from_env(vars: &EnvVars) -> (r: Self)
        ensures
            r == Self::start(env_config(vars@)),
            r.config.force_end_ms >= r.config.min_silence_ms + r.config.commit_ms,
    {
        let min_silence_ms: u64 = either_u64(
            vars,
            "TURN_MIN_SILENCE_MS",
            "SMART_TURN_MIN_SILENCE_MS",
            250,
            50,
            2000,
        );
        let commit_ms: u64 = either_u64(
            vars,
            "TURN_COMMIT_MS",
            "SMART_TURN_COMMIT_MS",
            100,
            0,
            1000,
        );
        let min_force_end_ms: u64 = min_silence_ms.saturating_add(commit_ms);
        let force_end_ms: u64 = either_u64(
            vars,
            "TURN_FORCE_END_MS",
            "SMART_TURN_FORCE_END_MS",
            2000,
            min_force_end_ms,
            60_000,
        );
        let eval_interval_ms: u64 = either_u64(
            vars,
            "TURN_EVAL_INTERVAL_MS",
            "SMART_TURN_EVAL_INTERVAL_MS",
            80,
            10,
            500,
        );
        let threshold: u16 = match env::get_u16(vars, "TURN_SILENCE_THRESHOLD") {
            Some(v) => v,
            None => match env::get_u16(vars, "SMART_TURN_SILENCE_ABS") {
                Some(v) => v,
                None => 200,
            },
        };
        let silence_threshold: u16 = env::clamp_u64(threshold as u64, 0, 20_000) as u16;
        Self::new(
            TurnDetectorConfig {
                min_silence_ms,
                commit_ms,
                force_end_ms,
                eval_interval_ms,
                silence_threshold,
            },
        )
    }

    /// How long it has been silent.
    pub open spec fn silence_ms(self, now: Timestamp) -> nat {
        match self.silence_start_ts {
            Some(start) => now.spec_millis_since(start),
            None => 0,
        }
    }

    /// How long it has been silent.
    pub fn trailing_silence_ms(&self, now: Timestamp) -> (r: u64)
        ensures
            r == self.silence_ms(now),
    {
        match self.silence_start_ts {
            Some(start) => now.millis_since(start),
            None => 0,
        }
    }

    /// Whether the turn ends now: it has not yet, there was speech, there is none now, and it has
    /// been silent for long enough.
    pub open spec fn commits(self, now: Timestamp) -> bool {
        &&& !self.committed
        &&& self.speech_start_ts is Some
        &&& !self.speaking
        &&& self.silence_start_ts is Some
        &&& (self.silence_ms(now) >= self.config.force_end_ms || self.silence_ms(now)
            >= capped_sum(self.config.min_silence_ms, self.config.commit_ms))
    }

    /// The detector after an edge of voice activity; a committed turn is not changed.
    pub open spec fn after_vad(self, event: VadEvent) -> Self {
        if self.committed {
            self
        } else {
            match event {
                VadEvent::SpeechStart { ts } => VadGateTurnDetector {
                    speaking: true,
                    speech_start_ts: Some(ts),
                    silence_start_ts: None,
                    ..self
                },
                VadEvent::SpeechEnd { ts, .. } => VadGateTurnDetector {
                    speaking: false,
                    silence_start_ts: Some(ts),
                    ..self
                },
            }
        }
    }

    /// The event that an edge of voice activity is.
    pub open spec fn vad_event(self, event: VadEvent) -> Option<TurnEvent> {
        if self.committed {
            None
        } else {
            match event {
                VadEvent::SpeechStart { ts } => Some(
                    TurnEvent { kind: TurnEventKind::SpeechStart, ts },
                ),
                VadEvent::SpeechEnd { ts, .. } => Some(
                    TurnEvent { kind: TurnEventKind::SpeechEnd, ts },
                ),
            }
        }
    }
}

impl TurnBoundaryDetector for VadGateTurnDetector {
    fn push_audio(&mut self, _frame: AudioFrameRef<'_>, _out: &mut TurnEvents)
        ensures
            *final(self) == *old(self),
            *final(_out) == *old(_out),
    {
    }

    fn push_vad(&mut self, event: VadEvent, out: &mut TurnEvents)
        ensures
            *final(self) == old(self).after_vad(event),
            final(out)@ == match old(self).vad_event(event) {
                Some(e) => old(out)@.push(e),
                None => old(out)@,
            },
            !old(self).committed ==> match event {
                VadEvent::SpeechStart { ts } => final(self).speaking && final(self).speech_start_ts
                    == Some(ts) && final(self).silence_start_ts is None,
                VadEvent::SpeechEnd { ts, .. } => !final(self).speaking
                    && final(self).silence_start_ts == Some(ts),
            },
    {
        if self.committed {
            return;
        }
        match event {
            VadEvent::SpeechStart { ts } => {
                self.speaking = true;
                self.speech_start_ts = Some(ts);
                self.silence_start_ts = None;
                out.push(TurnEvent::speech_start(ts));
            },
            VadEvent::SpeechEnd { ts, duration_ms: _ } => {
                self.speaking = false;
                self.silence_start_ts = Some(ts);
                out.push(TurnEvent::speech_end(ts));
            },
        }
    }

    fn tick(&mut self, now: Timestamp, out: &mut TurnEvents)
        ensures
            *final(self) == (VadGateTurnDetector {
                committed: old(self).committed || old(self).commits(now),
                ..*old(self)
            }),
            final(out)@ == if old(self).commits(now) {
                old(out)@.push(TurnEvent { kind: TurnEventKind::TurnCommitted, ts: now })
            } else {
                old(out)@
            },
    {
        if self.committed {
            return;
        }
        if self.speech_start_ts.is_none() || self.speaking || self.silence_start_ts.is_none() {
            return;
        }
        let silence_ms: u64 = self.trailing_silence_ms(now);
        if silence_ms >= self.config.force_end_ms {
            out.push(TurnEvent::turn_committed(now));
            self.committed = true;
            return;
        }
        let commit_threshold: u64 = self.config.min_silence_ms.saturating_add(
            self.config.commit_ms,
        );
        if silence_ms >= commit_threshold {
            out.push(TurnEvent::turn_committed(now));
            self.committed = true;
        }
    }

    fn reset(&mut self)
        ensures
            *final(self) == Self::start(old(self).config),
    {
        self.speaking = false;
        self.speech_start_ts = None;
        self.silence_start_ts = None;
        self.committed = false;
    }
}

/// A committed turn gives no more events until the detector is reset.
pub proof fn law_commits_once(detector: VadGateTurnDetector, event: VadEvent, now: Timestamp)
    requires
        detector.committed,
    ensures
        !detector.commits(now),
        detector.vad_event(event) is None,
        detector.after_vad(event) == detector,
{
}

/// A turn does not end before there was speech, nor while there is.
pub proof fn law_no_commit_without_speech(detector: VadGateTurnDetector, now: Timestamp)
    requires
        detector.speech_start_ts is None || detector.speaking,
    ensures
        !detector.commits(now),
{
}

/// Speech followed by silence for the force-end time ends the turn, and speech in between starts
/// the wait anew.
pub proof fn law_silence_ends_the_turn(
    config: TurnDetectorConfig,
    start: Timestamp,
    end: Timestamp,
    duration_ms: u32,
    now: Timestamp,
)
    ensures
        ({
            let spoke = VadGateTurnDetector::start(config).after_vad(
                VadEvent::SpeechStart { ts: start },
            );
            let silent = spoke.after_vad(VadEvent::SpeechEnd { ts: end, duration_ms });
            &&& !spoke.commits(now)
            &&& now.spec_millis_since(end) >= config.force_end_ms ==> silent.commits(now)
            &&& !silent.after_vad(VadEvent::SpeechStart { ts: now }).commits(now)
        }),
{
}

/// A detector after edges of voice activity, one behind the other.
pub open spec fn after_edges(detector: VadGateTurnDetector, edges: Seq<VadEvent>) ->
    VadGateTurnDetector
    decreases edges.len(),
{
    if edges.len() == 0 {
        detector
    } else {
        after_edges(detector, edges.drop_last()).after_vad(edges.last())
    }
}

/// Edges do not change the configuration, and do not end a turn.
proof fn lemma_after_edges(detector: VadGateTurnDetector, edges: Seq<VadEvent>)
    requires
        !detector.committed,
    ensures
        after_edges(detector, edges).config == detector.config,
        !after_edges(detector, edges).committed,
        detector.speech_start_ts is Some ==> after_edges(detector, edges).speech_start_ts is Some,
        (exists|i: int| 0 <= i < edges.len() && (#[trigger] edges[i]) is SpeechStart)
            ==> after_edges(detector, edges).speech_start_ts is Some,
        detector.speech_start_ts is None && (forall|i: int|
            0 <= i < edges.len() ==> (#[trigger] edges[i]) is SpeechEnd) ==> after_edges(
            detector,
            edges,
        ).speech_start_ts is None,
    decreases edges.len(),
{
    if edges.len() > 0 {
        let before = edges.drop_last();
        lemma_after_edges(detector, before);
        if exists|i: int| 0 <= i < edges.len() && (#[trigger] edges[i]) is SpeechStart {
            let i = choose|i: int| 0 <= i < edges.len() && (#[trigger] edges[i]) is SpeechStart;
            if i < before.len() {
                assert(before[i] is SpeechStart);
            } else {
                assert(edges.last() is SpeechStart);
            }
        }
        if forall|i: int| 0 <= i < edges.len() ==> (#[trigger] edges[i]) is SpeechEnd {
            assert forall|i: int| 0 <= i < before.len() implies (#[trigger] before[i])
                is SpeechEnd by {
                assert(before[i] == edges[i]);
            }
            assert(edges[edges.len() - 1] is SpeechEnd);
        }
    }
}

/// After any edges of voice activity the last of which ends speech, it has been silent since that
/// one alone, whatever pauses there were before; and the turn ends exactly once there was speech
/// and that silence has lasted for the force-end time, or for the minimal silence and the time to
/// commit together.
pub proof fn law_silence_counts_from_the_last_edge(
    detector: VadGateTurnDetector,
    edges: Seq<VadEvent>,
    end: Timestamp,
    duration_ms: u32,
    now: Timestamp,
)
    requires
        !detector.committed,
        edges.len() > 0,
        edges.last() == (VadEvent::SpeechEnd { ts: end, duration_ms }),
    ensures
        ({
            let d = after_edges(detector, edges);
            let silent_ms = if now.nanos >= end.nanos {
                (now.nanos - end.nanos) / 1_000_000
            } else {
                0
            };
            let spoke = detector.speech_start_ts is Some || exists|i: int|
                0 <= i < edges.len() && (#[trigger] edges[i]) is SpeechStart;
            let enough = silent_ms >= detector.config.force_end_ms || silent_ms
                >= detector.config.min_silence_ms + detector.config.commit_ms;
            &&& d.silence_ms(now) == silent_ms
            &&& d.commits(now) == (spoke && enough)
        }),
{
    lemma_after_edges(detector, edges);
    if !(exists|i: int| 0 <= i < edges.len() && (#[trigger] edges[i]) is SpeechStart) {
        assert forall|i: int| 0 <= i < edges.len() implies (#[trigger] edges[i]) is SpeechEnd by {
            assert(!(edges[i] is SpeechStart));
        }
    }
}

/// After any edges of voice activity the last of which starts speech, it is not silent, and the
/// turn does not end, however much time passes.
pub proof fn law_speech_holds_the_turn(
    detector: VadGateTurnDetector,
    edges: Seq<VadEvent>,
    start: Timestamp,
    now: Timestamp,
)
    requires
        !detector.committed,
        edges.len() > 0,
        edges.last() == (VadEvent::SpeechStart { ts: start }),
    ensures
        after_edges(detector, edges).silence_ms(now) == 0,
        !after_edges(detector, edges).commits(now),
        after_edges(detector, edges).speech_start_ts == Some(start),
{
    lemma_after_edges(detector, edges);
}

/// Until a turn is committed, each edge is told as it is, with its time.
pub proof fn law_edges_are_told(detector: VadGateTurnDetector, ts: Timestamp, duration_ms: u32)
    requires
        !detector.committed,
    ensures
        detector.vad_event(VadEvent::SpeechStart { ts }) == Some(
            TurnEvent { kind: TurnEventKind::SpeechStart, ts },
        ),
        detector.vad_event(VadEvent::SpeechEnd { ts, duration_ms }) == Some(
            TurnEvent { kind: TurnEventKind::SpeechEnd, ts },
        ),
{
}

/// A detector starts silent, without speech and uncommitted, and keeps its configuration.
pub proof fn law_turn_starts_anew(config: TurnDetectorConfig, now: Timestamp)
    ensures
        ({
            let d = VadGateTurnDetector::start(config);
            &&& d.config == config
            &&& !d.committed
            &&& !d.speaking
            &&& d.speech_start_ts is None
            &&& d.silence_start_ts is None
            &&& !d.commits(now)
        }),
{
}

/// The newer key counts before the older one, either before the default; and the number lies in
/// its range.
pub proof fn law_either_setting(
    vars: Map<Seq<char>, Seq<char>>,
    key: Seq<char>,
    legacy_key: Seq<char>,
    largest: nat,
    default: nat,
    min: nat,
    max: nat,
)
    requires
        min <= max,
    ensures
        ({
            let r = either_setting(vars, key, legacy_key, largest, default, min, max);
            let newer = env::unsigned_var(vars, key, largest);
            let older = env::unsigned_var(vars, legacy_key, largest);
            let v = if newer is Some {
                newer->0
            } else if older is Some {
                older->0
            } else {
                default
            };
            &&& min <= r <= max
            &&& min <= v <= max ==> r == v
            &&& v < min ==> r == min
            &&& v > max ==> r == max
        }),
{
}

/// What the environment does not set is the default: a turn ends after 350 milliseconds of
/// silence, and after two seconds in any case.
pub proof fn law_turn_defaults(vars: Map<Seq<char>, Seq<char>>)
    ensures
        ({
            let c = env_config(vars);
            let unset = |key: Seq<char>| env::unsigned_var(vars, key, u64::MAX as nat) is None;
            &&& unset("TURN_MIN_SILENCE_MS"@) && unset("SMART_TURN_MIN_SILENCE_MS"@)
                ==> c.min_silence_ms == 250
            &&& unset("TURN_COMMIT_MS"@) && unset("SMART_TURN_COMMIT_MS"@) ==> c.commit_ms == 100
            &&& unset("TURN_MIN_SILENCE_MS"@) && unset("SMART_TURN_MIN_SILENCE_MS"@) && unset(
                "TURN_COMMIT_MS"@,
            ) && unset("SMART_TURN_COMMIT_MS"@) && unset("TURN_FORCE_END_MS"@) && unset(
                "SMART_TURN_FORCE_END_MS"@,
            ) ==> c.force_end_ms == 2000
            &&& unset("TURN_EVAL_INTERVAL_MS"@) && unset("SMART_TURN_EVAL_INTERVAL_MS"@)
                ==> c.eval_interval_ms == 80
            &&& 50 <= c.min_silence_ms <= 2000
            &&& c.commit_ms <= 1000
            &&& c.min_silence_ms + c.commit_ms <= c.force_end_ms <= 60_000
            &&& 10 <= c.eval_interval_ms <= 500
            &&& c.silence_threshold <= 20_000
        }),
{
}

/// Each setting of a turn counts where it lies in its range, under its name or, without that,
/// under the older one; a turn never ends in any case before it may end in its usual way.
pub proof fn law_turn_settings_of_the_environment(vars: Map<Seq<char>, Seq<char>>, n: nat)
    ensures
        ({
            let c = env_config(vars);
            let number = |key: Seq<char>| env::unsigned_var(vars, key, u64::MAX as nat);
            let level = |key: Seq<char>| env::unsigned_var(vars, key, u16::MAX as nat);
            let counts = |key: Seq<char>, older: Seq<char>|
                number(key) == Some(n) || (number(key) is None && number(older) == Some(n));
            &&& 50 <= c.min_silence_ms && c.force_end_ms >= c.min_silence_ms + c.commit_ms
            &&& counts("TURN_MIN_SILENCE_MS"@, "SMART_TURN_MIN_SILENCE_MS"@) && 50 <= n <= 1000
                ==> c.min_silence_ms == n
            &&& counts("TURN_COMMIT_MS"@, "SMART_TURN_COMMIT_MS"@) && n <= 1000 ==> c.commit_ms == n
            &&& counts("TURN_FORCE_END_MS"@, "SMART_TURN_FORCE_END_MS"@) && c.min_silence_ms
                + c.commit_ms <= n <= 60_000 ==> c.force_end_ms == n
            &&& counts("TURN_EVAL_INTERVAL_MS"@, "SMART_TURN_EVAL_INTERVAL_MS"@) && 10 <= n <= 500
                ==> c.eval_interval_ms == n
            &&& (level("TURN_SILENCE_THRESHOLD"@) == Some(n) || (level("TURN_SILENCE_THRESHOLD"@)
                is None && level("SMART_TURN_SILENCE_ABS"@) == Some(n))) && n <= 20_000
                ==> c.silence_threshold == n
        }),
{
}

/// Where speech ends silence starts, and where speech starts it is over: the last edge counts, and
/// each is told, until the turn is committed.
pub proof fn law_edge_sets_the_silence()
    ensures
        forall|d: &mut VadGateTurnDetector, event: VadEvent, out: &mut TurnEvents, r: ()|
            #[trigger] call_ensures(
                <VadGateTurnDetector as TurnBoundaryDetector>::push_vad,
                (d, event, out),
                r,
            ) ==> {
                &&& (*d).committed ==> *final(d) == *d && (*final(out))@ == (*out)@
                &&& !(*d).committed ==> {
                    &&& !(*final(d)).committed
                    &&& (*final(d)).config == (*d).config
                    &&& event matches VadEvent::SpeechEnd { ts, .. } ==> (*final(d)).silence_start_ts == Some(ts) && !(*final(d)).speaking && (*final(out))@
                        == (*out)@.push(TurnEvent { kind: TurnEventKind::SpeechEnd, ts })
                        && (*final(d)).speech_start_ts == (*d).speech_start_ts
                    &&& event matches VadEvent::SpeechStart { ts } ==> (*final(d)).silence_start_ts is None && (*final(d)).speaking && (*final(out))@
                        == (*out)@.push(TurnEvent { kind: TurnEventKind::SpeechStart, ts })
                        && (*final(d)).speech_start_ts == Some(ts)
                }
            },
{
}

/// A turn is committed, once, when there was speech and there is enough silence behind it, counted
/// from the last edge; nothing else changes with the time.
pub proof fn law_time_commits_the_turn()
    ensures
        forall|d: &mut VadGateTurnDetector, now: Timestamp, out: &mut TurnEvents, r: ()|
            #[trigger] call_ensures(
                <VadGateTurnDetector as TurnBoundaryDetector>::tick,
                (d, now, out),
                r,
            ) ==> {
                let waits = !(*d).committed && !(*d).speaking && (*d).speech_start_ts is Some
                    && (*d).silence_start_ts is Some;
                let silence = if (*d).silence_start_ts is Some && now.nanos
                    >= (*d).silence_start_ts->0.nanos {
                    (now.nanos - (*d).silence_start_ts->0.nanos) / 1_000_000
                } else {
                    0
                };
                let enough = silence >= (*d).config.force_end_ms || silence
                    >= (*d).config.min_silence_ms + (*d).config.commit_ms;
                &&& waits && enough ==> (*final(d)).committed && (*final(out))@ == (*out)@.push(
                    TurnEvent { kind: TurnEventKind::TurnCommitted, ts: now },
                )
                &&& !waits || !enough ==> (*final(d)).committed == (*d).committed && (*final(out))@
                    == (*out)@
                &&& (*final(d)).silence_start_ts == (*d).silence_start_ts && (*final(d)).speech_start_ts == (*d).speech_start_ts && (*final(d)).speaking == (*d).speaking
                    && (*final(d)).config == (*d).config
            },
{
}

} // verus!
