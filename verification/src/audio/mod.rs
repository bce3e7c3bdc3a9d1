//! Audio output and input.

use crate::internal::env::{self, EnvVars};
use crate::text::{lowercase, lowercased, same, trim, trimmed};
use crate::time::Timestamp;
use vstd::prelude::*;
use vstd::string::*;

pub mod mic;
pub mod queue;
pub mod rodio;
pub mod system;
pub mod wasapi;

verus! {

/// A cancellation token for synthesis and playback: each cancellation opens a new epoch. There is
/// no copy of a token, which would not see later cancellations: all who watch it share the one.
#[derive(Debug, PartialEq, Eq, Structural)]
pub struct CancelToken {
    pub epoch: u64,
}

/// A token as one operation found it.
#[derive(Debug, Clone, Copy, PartialEq, Eq, Structural)]
pub struct CancelScope {
    pub epoch: u64,
}

impl CancelToken {
    /// A token that was never cancelled.
    pub fn new() -> (r: Self)
        ensures
            r.epoch == 0,
    {
        CancelToken { epoch: 0 }
    }

    /// The token after a cancellation.
    pub open spec fn cancelled(self) -> Self {
        CancelToken {
            epoch: if self.epoch == u64::MAX {
                0
            } else {
                (self.epoch + 1) as u64
            },
        }
    }

    /// Cancels every operation under way.
    pub fn cancel(&mut self)
        ensures
            *final(self) == old(self).cancelled(),
    {
        self.epoch = self.epoch.wrapping_add(1);
    }

    /// The epoch under way.
    pub fn current_epoch(&self) -> (r: u64)
        ensures
            r == self.epoch,
    {
        self.epoch
    }

    /// The scope of an operation that started in an epoch.
    pub fn scope_at(&self, epoch: u64) -> (r: CancelScope)
        ensures
            r.epoch == epoch,
    {
        CancelScope { epoch }
    }

    /// The scope of an operation that starts now.
    pub fn scope(&self) -> (r: CancelScope)
        ensures
            r.epoch == self.epoch,
    {
        CancelScope { epoch: self.epoch }
    }
}

impl CancelScope {
    /// Whether the token was cancelled since.
    pub open spec fn is_void(self, token: CancelToken) -> bool {
        token.epoch != self.epoch
    }

    /// Whether the token was cancelled since.
    pub fn is_cancelled(&self, token: &CancelToken) -> (r: bool)
        ensures
            r == self.is_void(*token),
    {
        token.epoch != self.epoch
    }
}

/// The token after `n` cancellations.
pub open spec fn cancelled_times(token: CancelToken, n: nat) -> CancelToken
    decreases n,
{
    if n == 0 {
        token
    } else {
        cancelled_times(token, (n - 1) as nat).cancelled()
    }
}

/// A scope is valid until the token is cancelled, and void from then on, however often it is
/// cancelled again before the epochs repeat.
pub proof fn law_cancellation_voids_scopes(token: CancelToken, n: nat)
    requires
        n < 0x1_0000_0000_0000_0000,
    ensures
        (CancelScope { epoch: token.epoch }).is_void(cancelled_times(token, n)) == (n > 0),
{
    lemma_cancelled_times(token, n);
}

/// Each cancellation moves the epoch on by one.
proof fn lemma_cancelled_times(token: CancelToken, n: nat)
    requires
        n < 0x1_0000_0000_0000_0000,
    ensures
        cancelled_times(token, n).epoch == (token.epoch + n) % 0x1_0000_0000_0000_0000,
    decreases n,
{
    if n > 0 {
        lemma_cancelled_times(token, (n - 1) as nat);
    }
}

/// What has become of audio settings.
#[derive(Debug)]
pub enum AudioError {
    /// There is no such backend.
    UnknownBackend { backend: String },
    /// The backend is not implemented.
    WasapiSelected,
    SystemSelected,
    WasapiMissing,
    SystemMissing,
    /// The backend was left out of this build.
    RodioMissing,
}

impl AudioError {
    /// The error in words.
    pub open spec fn spec_message(&self) -> Seq<char> {
        match self {
            AudioError::UnknownBackend { backend } => "Unknown AUDIO_BACKEND: "@ + backend@,
            AudioError::WasapiSelected => "AUDIO_BACKEND=wasapi is not implemented yet"@,
            AudioError::SystemSelected => "AUDIO_BACKEND=system is not implemented yet"@,
            AudioError::WasapiMissing => "WASAPI backend is not implemented yet"@,
            AudioError::SystemMissing => "System audio backend is not implemented yet"@,
            AudioError::RodioMissing =>
                "AUDIO_BACKEND=rodio requires the `audio-rodio` feature (use `--features audio-rodio` or `--all-features`)"@,
        }
    }

    /// The error in words.
    pub fn message(&self) -> (r: String)
        ensures
            r@ == self.spec_message(),
    {
        match self {
            AudioError::UnknownBackend { backend } => {
                let mut out = "Unknown AUDIO_BACKEND: ".to_string();
                out.append(backend.as_str());
                out
            },
            AudioError::WasapiSelected => "AUDIO_BACKEND=wasapi is not implemented yet".to_string(),
            AudioError::SystemSelected => "AUDIO_BACKEND=system is not implemented yet".to_string(),
            AudioError::WasapiMissing => "WASAPI backend is not implemented yet".to_string(),
            AudioError::SystemMissing => "System audio backend is not implemented yet".to_string(),
            AudioError::RodioMissing =>
                "AUDIO_BACKEND=rodio requires the `audio-rodio` feature (use `--features audio-rodio` or `--all-features`)".to_string(),
        }
    }
}

/// Rodio playback configuration.
#[derive(Debug, Clone, Copy, PartialEq, Eq, Structural)]
pub struct RodioConfig {
    /// Samples per second and channel.
    pub sample_rate: u32,
    pub channels: u16,
    /// How much audio fits the ring buffer.
    pub ring_seconds: u64,
    /// How much audio is buffered before playback starts.
    pub prefill_ms: u64,
}

impl Default for RodioConfig {
    fn default() -> (r: Self)
        ensures
            r == (RodioConfig { sample_rate: 32_000, channels: 1, ring_seconds: 60, prefill_ms: 50 }),
    {
        RodioConfig { sample_rate: 32_000, channels: 1, ring_seconds: 60, prefill_ms: 50 }
    }
}

impl RodioConfig {
    /// Whether the numbers lie in their ranges.
    pub open spec fn in_range(self) -> bool {
        &&& 8_000 <= self.sample_rate <= 96_000
        &&& 1 <= self.channels <= 2
        &&& 1 <= self.ring_seconds <= 60
        &&& self.prefill_ms <= 2_000
    }

    /// The configuration that the environment sets.
    pub open spec fn env_config(vars: Map<Seq<char>, Seq<char>>) -> Self {
        RodioConfig {
            sample_rate: env::unsigned_setting(
                vars,
                "AUDIO_SAMPLE_RATE"@,
                u32::MAX as nat,
                32_000,
                8_000,
                96_000,
            ) as u32,
            channels: env::unsigned_setting(
                vars,
                "AUDIO_CHANNELS"@,
                u16::MAX as nat,
                1,
                1,
                2,
            ) as u16,
            ring_seconds: env::unsigned_setting(
                vars,
                "AUDIO_RING_SECONDS"@,
                u64::MAX as nat,
                60,
                1,
                60,
            ) as u64,
            prefill_ms: env::unsigned_setting(
                vars,
                "AUDIO_PREFILL_MS"@,
                u64::MAX as nat,
                50,
                0,
                2_000,
            ) as u64,
        }
    }

    /// Reads the configuration from the environment.
    pub fn from_env(vars: &EnvVars) -> (r: Self)
        ensures
            r == Self::env_config(vars@),
            r.in_range(),
    {
        RodioConfig {
            sample_rate: env::u32_clamped(vars, "AUDIO_SAMPLE_RATE", 32_000, 8_000, 96_000),
            channels: env::u16_clamped(vars, "AUDIO_CHANNELS", 1, 1, 2),
            ring_seconds: env::u64_clamped(vars, "AUDIO_RING_SECONDS", 60, 1, 60),
            prefill_ms: env::u64_clamped(vars, "AUDIO_PREFILL_MS", 50, 0, 2_000),
        }
    }

    /// The configuration with its numbers brought into their ranges.
    pub open spec fn normalized(self) -> Self {
        RodioConfig {
            sample_rate: env::clamped(self.sample_rate as int, 8_000, 96_000) as u32,
            channels: env::clamped(self.channels as int, 1, 2) as u16,
            ring_seconds: env::clamped(self.ring_seconds as int, 1, 60) as u64,
            prefill_ms: env::clamped(self.prefill_ms as int, 0, 2_000) as u64,
        }
    }

    /// Brings the numbers into their ranges.
    pub fn normalize(self) -> (r: Self)
        ensures
            r == self.normalized(),
            r.in_range(),
            self.in_range() ==> r == self,
    {
        RodioConfig {
            sample_rate: env::clamp_u64(self.sample_rate as u64, 8_000, 96_000) as u32,
            channels: env::clamp_u64(self.channels as u64, 1, 2) as u16,
            ring_seconds: env::clamp_u64(self.ring_seconds, 1, 60),
            prefill_ms: env::clamp_u64(self.prefill_ms, 0, 2_000),
        }
    }
}

/// Audio backend variants.
#[derive(Debug, Clone, Copy, PartialEq, Eq, Structural)]
pub enum AudioBackendKind {
    Rodio(RodioConfig),
    Wasapi,
    System,
}

/// Audio backend selection and parameters.
#[derive(Debug, Clone, Copy, PartialEq, Eq, Structural)]
pub struct AudioConfig {
    pub backend: AudioBackendKind,
}

impl Default for AudioConfig {
    fn default() -> (r: Self)
        ensures
            r.backend == AudioBackendKind::Rodio(
                RodioConfig { sample_rate: 32_000, channels: 1, ring_seconds: 60, prefill_ms: 50 },
            ),
    {
        AudioConfig { backend: AudioBackendKind::Rodio(RodioConfig::default()) }
    }
}

impl AudioConfig {
    /// The backend of a lower-case word, set up by the environment.
    pub open spec fn of_key(vars: Map<Seq<char>, Seq<char>>, key: Seq<char>) -> Option<
        AudioBackendKind,
    > {
        if key == "rodio"@ {
            Some(AudioBackendKind::Rodio(RodioConfig::env_config(vars)))
        } else if key == "wasapi"@ {
            Some(AudioBackendKind::Wasapi)
        } else if key == "system"@ {
            Some(AudioBackendKind::System)
        } else {
            None
        }
    }

    /// The backend of a lower-case word, set up by the environment.
    pub fn from_key(vars: &EnvVars, key: &str) -> (r: Option<AudioBackendKind>)
        ensures
            r == Self::of_key(vars@, key@),
    {
        if same(key, "rodio") {
            Some(AudioBackendKind::Rodio(RodioConfig::from_env(vars)))
        } else if same(key, "wasapi") {
            Some(AudioBackendKind::Wasapi)
        } else if same(key, "system") {
            Some(AudioBackendKind::System)
        } else {
            None
        }
    }

    /// Reads the backend from `AUDIO_BACKEND`, rodio where it is not set.
    pub fn from_env(vars: &EnvVars) -> (r: Result<Self, AudioError>)
        ensures
            ({
                match env::text_var(vars@, "AUDIO_BACKEND"@) {
                    None => r == Ok::<_, AudioError>(
                        AudioConfig {
                            backend: AudioBackendKind::Rodio(RodioConfig::env_config(vars@)),
                        },
                    ),
                    Some(name) => match Self::of_key(vars@, lowercased(trimmed(name))) {
                        Some(backend) => r == Ok::<_, AudioError>(AudioConfig { backend }),
                        None => r matches Err(AudioError::UnknownBackend { backend }) && backend@
                            == name,
                    },
                }
            }),
    {
        let name = match env::string(vars, "AUDIO_BACKEND") {
            Some(name) => name,
            None => {
                return Ok(
                    AudioConfig { backend: AudioBackendKind::Rodio(RodioConfig::from_env(vars)) },
                );
            },
        };
        let key = lowercase(trim(name.as_str()).as_str());
        match Self::from_key(vars, key.as_str()) {
            Some(backend) => Ok(AudioConfig { backend }),
            None => Err(AudioError::UnknownBackend { backend: name }),
        }
    }
}

/// Decides which backend is opened: only rodio is implemented, where this build holds it.
pub fn build(config: &AudioConfig, rodio_built_in: bool) -> (r: Result<RodioConfig, AudioError>)
    ensures
        r == match config.backend {
            AudioBackendKind::Rodio(cfg) => if rodio_built_in {
                Ok(cfg)
            } else {
                Err(AudioError::RodioMissing)
            },
            AudioBackendKind::Wasapi => Err(AudioError::WasapiSelected),
            AudioBackendKind::System => Err(AudioError::SystemSelected),
        },
{
    match config.backend {
        AudioBackendKind::Rodio(cfg) => if rodio_built_in {
            Ok(cfg)
        } else {
            Err(AudioError::RodioMissing)
        },
        AudioBackendKind::Wasapi => Err(AudioError::WasapiSelected),
        AudioBackendKind::System => Err(AudioError::SystemSelected),
    }
}

/// Decides which backend the environment asks for.
pub fn build_from_env(vars: &EnvVars, rodio_built_in: bool) -> (r: Result<RodioConfig, AudioError>)
    ensures
        ({
            let name = env::text_setting(vars@, "AUDIO_BACKEND"@, "rodio"@);
            let kind = match env::text_var(vars@, "AUDIO_BACKEND"@) {
                None => Some(AudioBackendKind::Rodio(RodioConfig::env_config(vars@))),
                Some(name) => AudioConfig::of_key(vars@, lowercased(trimmed(name))),
            };
            match kind {
                Some(AudioBackendKind::Rodio(cfg)) => r == if rodio_built_in {
                    Ok(cfg)
                } else {
                    Err(AudioError::RodioMissing)
                },
                Some(AudioBackendKind::Wasapi) => r == Err::<RodioConfig, _>(
                    AudioError::WasapiSelected,
                ),
                Some(AudioBackendKind::System) => r == Err::<RodioConfig, _>(
                    AudioError::SystemSelected,
                ),
                None => r matches Err(AudioError::UnknownBackend { backend }) && backend@ == name,
            }
        }),
{
    match AudioConfig::from_env(vars) {
        Ok(config) => build(&config, rodio_built_in),
        Err(e) => Err(e),
    }
}

/// How long `samples` samples play, in whole milliseconds; nothing where no sample plays.
pub open spec fn playing_ms(samples: nat, sample_rate: nat, channels: nat) -> nat {
    if sample_rate * channels == 0 {
        0
    } else {
        let scaled = if samples * 1000 > u64::MAX {
            u64::MAX as nat
        } else {
            samples * 1000
        };
        scaled / (sample_rate * channels)
    }
}

/// `a * b`, or the largest `u64` where that is less.
pub(crate) fn capped_product(a: u64, b: u64) -> (r: u64)
    ensures
        r == if a * b > u64::MAX {
            u64::MAX as int
        } else {
            a * b
        },
{
    match a.checked_mul(b) {
        Some(p) => p,
        None => u64::MAX,
    }
}

/// How long `samples` samples play, in whole milliseconds; nothing where no sample plays.
pub fn samples_to_ms(samples: u64, sample_rate: u32, channels: u16) -> (r: u64)
    ensures
        r == playing_ms(samples as nat, sample_rate as nat, channels as nat),
{
    proof {
        assert(0 <= sample_rate * channels <= 0xffff_ffff * 0xffff) by (nonlinear_arith)
            requires
                0 <= sample_rate <= 0xffff_ffff,
                0 <= channels <= 0xffff,
        ;
    }
    let denom: u64 = sample_rate as u64 * channels as u64;
    if denom == 0 {
        0
    } else {
        capped_product(samples, 1000) / denom
    }
}

/// The sequence number and the time of one report on a segment's loudness.
#[derive(Debug, Clone, Copy, PartialEq, Eq, Structural)]
pub struct RmsMark {
    /// Grows with each report, so that no two of them are equal.
    pub seq: u64,
    /// How long it takes until the reported samples play.
    pub buffered_ms: u64,
}

/// Numbers the loudness reports of one segment.
#[derive(Debug, Clone, Copy, PartialEq, Eq, Structural)]
pub struct RmsCounter {
    pub seq: u64,
}

impl RmsCounter {
    /// No report yet.
    pub fn new() -> (r: Self)
        ensures
            r.seq == 0,
    {
        RmsCounter { seq: 0 }
    }

    /// The next report, on samples just written; none where there are none. The audio buffered
    /// by now holds these samples, so their own length does not count.
    pub fn mark(
        &mut self,
        samples: u64,
        buffered_ms_after: u64,
        sample_rate: u32,
        channels: u16,
    ) -> (r: Option<RmsMark>)
        ensures
            if samples == 0 {
                r is None && *final(self) == *old(self)
            } else {
                let own = playing_ms(samples as nat, sample_rate as nat, channels as nat);
                &&& r is Some
                &&& r->0.seq == final(self).seq
                &&& final(self).seq == if old(self).seq == u64::MAX {
                    0
                } else {
                    (old(self).seq + 1) as u64
                }
                &&& r->0.buffered_ms == if buffered_ms_after < own {
                    0
                } else {
                    buffered_ms_after - own
                }
            },
    {
        if samples == 0 {
            return None;
        }
        let own: u64 = samples_to_ms(samples, sample_rate, channels);
        self.seq = self.seq.wrapping_add(1);
        Some(RmsMark { seq: self.seq, buffered_ms: buffered_ms_after.saturating_sub(own) })
    }
}

/// How many samples are written at once: 50 ms at 32 kHz, so that loudness is reported often.
pub const RMS_CHUNK_SAMPLES: usize = 1600;

/// What to do with the samples of a segment.
#[derive(Debug, Clone, Copy, PartialEq, Eq, Structural)]
pub enum ChunkStep {
    /// Write the samples `from..to`.
    Write { from: usize, to: usize },
    /// All samples are written.
    Done,
    /// Playback stops.
    Stop,
}

/// Writes the samples of a segment piece by piece.
#[derive(Debug, Clone, Copy, PartialEq, Eq, Structural)]
pub struct AudioStreamSegment {
    /// When the first sample plays, as far as known.
    pub first_audio_ts: Option<Timestamp>,
    /// How many samples of the chunk at hand are written.
    pub offset: usize,
    /// How many samples the chunk at hand has.
    pub len: usize,
    /// Whether playback stops.
    pub stopped: bool,
}

impl AudioStreamSegment {
    /// A segment without samples.
    pub fn new() -> (r: Self)
        ensures
            r == (AudioStreamSegment { first_audio_ts: None, offset: 0, len: 0, stopped: false }),
    {
        AudioStreamSegment { first_audio_ts: None, offset: 0, len: 0, stopped: false }
    }

    /// Starts on a chunk of `len` samples.
    pub fn push(&mut self, len: usize)
        ensures
            *final(self) == (AudioStreamSegment {
                offset: 0,
                len,
                stopped: false,
                ..*old(self)
            }),
    {
        self.offset = 0;
        self.len = len;
        self.stopped = false;
    }

    /// What to do next. A cancelled segment stops; this is looked at before each piece.
    pub open spec fn spec_next_step(self, cancelled: bool) -> ChunkStep {
        if self.stopped || (cancelled && (self.offset < self.len || self.len == 0)) {
            ChunkStep::Stop
        } else if self.offset >= self.len {
            ChunkStep::Done
        } else if self.len - self.offset > RMS_CHUNK_SAMPLES {
            ChunkStep::Write {
                from: self.offset,
                to: (self.offset + RMS_CHUNK_SAMPLES) as usize,
            }
        } else {
            ChunkStep::Write { from: self.offset, to: self.len }
        }
    }

    /// What to do next.
    pub fn next_step(&self, cancelled: bool) -> (r: ChunkStep)
        ensures
            r == self.spec_next_step(cancelled),
    {
        if self.stopped || (cancelled && (self.offset < self.len || self.len == 0)) {
            ChunkStep::Stop
        } else if self.offset >= self.len {
            ChunkStep::Done
        } else if self.len - self.offset > RMS_CHUNK_SAMPLES {
            ChunkStep::Write { from: self.offset, to: self.offset + RMS_CHUNK_SAMPLES }
        } else {
            ChunkStep::Write { from: self.offset, to: self.len }
        }
    }

    /// Notes that `written` samples of the piece were written; none of them means that playback
    /// stops. The time of the first sample is kept once it is known.
    pub fn on_written(&mut self, written: usize, first_audio_ts: Option<Timestamp>)
        ensures
            *final(self) == if written == 0 {
                AudioStreamSegment { stopped: true, ..*old(self) }
            } else {
                AudioStreamSegment {
                    offset: if old(self).offset + written > usize::MAX {
                        usize::MAX
                    } else {
                        (old(self).offset + written) as usize
                    },
                    first_audio_ts: if old(self).first_audio_ts is Some {
                        old(self).first_audio_ts
                    } else {
                        first_audio_ts
                    },
                    ..*old(self)
                }
            },
    {
        if written == 0 {
            self.stopped = true;
            return;
        }
        if self.first_audio_ts.is_none() {
            self.first_audio_ts = first_audio_ts;
        }
        self.offset = self.offset.saturating_add(written);
    }

    /// When the first sample plays: as seen while writing, else as known at the end.
    pub fn finish(self, playback_first_audio_ts: Option<Timestamp>) -> (r: Option<Timestamp>)
        ensures
            r == if self.first_audio_ts is Some {
                self.first_audio_ts
            } else {
                playback_first_audio_ts
            },
    {
        match self.first_audio_ts {
            Some(ts) => Some(ts),
            None => playback_first_audio_ts,
        }
    }
}

/// A segment is written from start to end: each piece starts where the written samples end, is
/// neither empty nor longer than a report's worth, and once the pieces are written in full, the
/// whole chunk is.
pub proof fn law_pieces_cover_the_chunk(segment: AudioStreamSegment, cancelled: bool)
    requires
        segment.offset <= segment.len,
    ensures
        match segment.spec_next_step(cancelled) {
            ChunkStep::Write { from, to } => from == segment.offset && from < to <= segment.len
                && to - from <= RMS_CHUNK_SAMPLES,
            ChunkStep::Done => segment.offset == segment.len,
            ChunkStep::Stop => segment.stopped || cancelled,
        },
{
}

/// A configuration is brought into its ranges by changing nothing that lies in them, and doing so
/// again changes nothing.
pub proof fn law_configuration_in_its_ranges(c: RodioConfig)
    ensures
        ({
            let n = c.normalized();
            &&& 8_000 <= n.sample_rate <= 96_000
            &&& 1 <= n.channels <= 2
            &&& 1 <= n.ring_seconds <= 60
            &&& n.prefill_ms <= 2_000
            &&& 8_000 <= c.sample_rate <= 96_000 ==> n.sample_rate == c.sample_rate
            &&& c.sample_rate < 8_000 ==> n.sample_rate == 8_000
            &&& c.sample_rate > 96_000 ==> n.sample_rate == 96_000
            &&& c.channels == 1 || c.channels == 2 ==> n.channels == c.channels
            &&& c.channels == 0 ==> n.channels == 1
            &&& c.channels > 2 ==> n.channels == 2
            &&& 1 <= c.ring_seconds <= 60 ==> n.ring_seconds == c.ring_seconds
            &&& c.ring_seconds == 0 ==> n.ring_seconds == 1
            &&& c.ring_seconds > 60 ==> n.ring_seconds == 60
            &&& c.prefill_ms <= 2_000 ==> n.prefill_ms == c.prefill_ms
            &&& c.prefill_ms > 2_000 ==> n.prefill_ms == 2_000
            &&& n.normalized() == n
            &&& n.in_range()
            &&& c.in_range() <==> n == c
        }),
{
}

/// What the environment does not set is 32 kHz, one channel, a minute of audio and 50 milliseconds
/// before playback; what it sets counts where it lies in its range.
pub proof fn law_audio_settings_of_the_environment(vars: Map<Seq<char>, Seq<char>>, n: nat)
    ensures
        ({
            let c = RodioConfig::env_config(vars);
            let number = |key: Seq<char>, largest: nat| env::unsigned_var(vars, key, largest);
            &&& c.in_range()
            &&& number("AUDIO_SAMPLE_RATE"@, u32::MAX as nat) is None ==> c.sample_rate == 32_000
            &&& number("AUDIO_SAMPLE_RATE"@, u32::MAX as nat) == Some(n) && 8_000 <= n <= 96_000
                ==> c.sample_rate == n
            &&& number("AUDIO_CHANNELS"@, u16::MAX as nat) is None ==> c.channels == 1
            &&& number("AUDIO_CHANNELS"@, u16::MAX as nat) == Some(n) && 1 <= n <= 2
                ==> c.channels == n
            &&& number("AUDIO_RING_SECONDS"@, u64::MAX as nat) is None ==> c.ring_seconds == 60
            &&& number("AUDIO_RING_SECONDS"@, u64::MAX as nat) == Some(n) && 1 <= n <= 60
                ==> c.ring_seconds == n
            &&& number("AUDIO_PREFILL_MS"@, u64::MAX as nat) is None ==> c.prefill_ms == 50
            &&& number("AUDIO_PREFILL_MS"@, u64::MAX as nat) == Some(n) && n <= 2_000
                ==> c.prefill_ms == n
        }),
{
}

/// Each backend has its word, and no other word names one.
pub proof fn law_backends_by_word(vars: Map<Seq<char>, Seq<char>>, word: Seq<char>)
    ensures
        AudioConfig::of_key(vars, word) matches Some(AudioBackendKind::Rodio(_)) <==> word
            == "rodio"@,
        AudioConfig::of_key(vars, word) matches Some(AudioBackendKind::Rodio(c)) ==> c
            == RodioConfig::env_config(vars),
        AudioConfig::of_key(vars, word) == Some(AudioBackendKind::Wasapi) <==> word == "wasapi"@,
        AudioConfig::of_key(vars, word) == Some(AudioBackendKind::System) <==> word == "system"@,
{
    reveal_strlit("rodio");
    reveal_strlit("wasapi");
    reveal_strlit("system");
    assert("rodio"@[0] == 'r' && "wasapi"@[0] == 'w' && "system"@[0] == 's');
}

/// The playing time of samples is whole milliseconds: as many of them have passed, and not one
/// more. Nothing plays without a rate or a channel.
pub proof fn law_playing_time(samples: nat, sample_rate: nat, channels: nat)
    ensures
        sample_rate == 0 || channels == 0 ==> playing_ms(samples, sample_rate, channels) == 0,
        sample_rate > 0 && channels > 0 && samples * 1000 <= u64::MAX ==> {
            let ms = playing_ms(samples, sample_rate, channels);
            let per_second = sample_rate * channels;
            ms * per_second <= samples * 1000 < (ms + 1) * per_second
        },
{
    let d = sample_rate * channels;
    if sample_rate > 0 && channels > 0 {
        assert(d > 0) by (nonlinear_arith)
            requires
                d == sample_rate * channels,
                sample_rate > 0,
                channels > 0,
        ;
        let x = (samples * 1000) as int;
        vstd::arithmetic::div_mod::lemma_fundamental_div_mod(x, d as int);
        vstd::arithmetic::div_mod::lemma_mod_bound(x, d as int);
        assert((x / (d as int)) * d == d * (x / (d as int))) by (nonlinear_arith);
        assert((x / (d as int) + 1) * d == d * (x / (d as int)) + d) by (nonlinear_arith);
    } else {
        assert(d == 0) by (nonlinear_arith)
            requires
                d == sample_rate * channels,
                sample_rate == 0 || channels == 0,
        ;
    }
}

/// While nothing stops a segment, each piece is of 1600 samples, or of all that are left where
/// fewer are; it is done once all are written. A cancelled segment writes nothing more, unless all
/// of it was written already.
pub proof fn law_pieces_are_as_long_as_can_be(segment: AudioStreamSegment)
    requires
        segment.offset <= segment.len,
    ensures
        ({
            let left = segment.len - segment.offset;
            let to = if left < 1600 {
                segment.len as int
            } else {
                segment.offset + 1600
            };
            &&& segment.stopped ==> segment.spec_next_step(false) == ChunkStep::Stop
                && segment.spec_next_step(true) == ChunkStep::Stop
            &&& !segment.stopped && left > 0 ==> segment.spec_next_step(false) == (
            ChunkStep::Write { from: segment.offset, to: to as usize }) && segment.spec_next_step(
                true,
            ) == ChunkStep::Stop
            &&& !segment.stopped && left == 0 ==> segment.spec_next_step(false) == ChunkStep::Done
            &&& !segment.stopped && left == 0 && segment.len > 0 ==> segment.spec_next_step(true)
                == ChunkStep::Done
            &&& !segment.stopped && segment.len == 0 ==> segment.spec_next_step(true)
                == ChunkStep::Stop
        }),
{
}

/// Each cancellation opens another epoch, and only the same epoch keeps a scope valid.
pub proof fn law_scopes_and_epochs(token: CancelToken, scope: CancelScope)
    ensures
        scope.is_void(token) <==> scope.epoch != token.epoch,
        token.cancelled().epoch != token.epoch,
        token.epoch < u64::MAX ==> token.cancelled().epoch == token.epoch + 1,
        token.epoch == u64::MAX ==> token.cancelled().epoch == 0,
{
}

/// What is wrong with an audio backend is said in these words.
pub proof fn law_audio_errors_in_words(text: String)
    ensures
        (AudioError::UnknownBackend { backend: text }).spec_message() == "Unknown AUDIO_BACKEND: "@
            + text@,
        AudioError::WasapiSelected.spec_message() == "AUDIO_BACKEND=wasapi is not implemented yet"@,
        AudioError::SystemSelected.spec_message() == "AUDIO_BACKEND=system is not implemented yet"@,
        AudioError::WasapiMissing.spec_message() == "WASAPI backend is not implemented yet"@,
        AudioError::SystemMissing.spec_message() == "System audio backend is not implemented yet"@,
        AudioError::RodioMissing.spec_message()
            == "AUDIO_BACKEND=rodio requires the `audio-rodio` feature (use `--features audio-rodio` or `--all-features`)"@,
{
}

/// Written samples are passed over, and none written means that playback stops; the time of the
/// first sample stays once it is known.
pub proof fn law_written_samples_are_passed()
    ensures
        forall|s: &mut AudioStreamSegment, n: usize, ts: Option<Timestamp>, r: ()|
            #[trigger] call_ensures(AudioStreamSegment::on_written, (s, n, ts), r) ==> {
                &&& n == 0 ==> (*final(s)).stopped && (*final(s)).offset == (*s).offset && (*final(s)).first_audio_ts == (*s).first_audio_ts
                &&& n > 0 && (*s).offset + n <= usize::MAX ==> (*final(s)).offset == (*s).offset + n
                &&& n > 0 ==> (*final(s)).stopped == (*s).stopped
                &&& (*s).first_audio_ts is Some ==> (*final(s)).first_audio_ts
                    == (*s).first_audio_ts
                &&& n > 0 && (*s).first_audio_ts is None ==> (*final(s)).first_audio_ts == ts
                &&& (*final(s)).len == (*s).len
            },
        forall|s: &mut AudioStreamSegment, len: usize, r: ()|
            #[trigger] call_ensures(AudioStreamSegment::push, (s, len), r) ==> (*final(s)).offset
                == 0 && (*final(s)).len == len && !(*final(s)).stopped && (*final(s)).first_audio_ts == (*s).first_audio_ts,
{
}

/// Reports are numbered one after the other, one for each write; a report's time is that of the
/// samples before its own.
pub proof fn law_reports_of_loudness()
    ensures
        forall|c: &mut RmsCounter, n: u64, after: u64, rate: u32, channels: u16, r: Option<RmsMark>|
            #[trigger] call_ensures(RmsCounter::mark, (c, n, after, rate, channels), r) ==> {
                let own = playing_ms(n as nat, rate as nat, channels as nat);
                &&& r is Some <==> n > 0
                &&& n == 0 ==> *final(c) == *c
                &&& n > 0 && (*c).seq < u64::MAX ==> (*final(c)).seq == (*c).seq + 1
                &&& r matches Some(mark) ==> mark.seq == (*final(c)).seq && (after >= own
                    ==> mark.buffered_ms + own == after) && (after < own ==> mark.buffered_ms == 0)
            },
{
}

/// Only rodio is opened, where the build holds it; the errors tell the backends apart.
pub proof fn law_backend_that_is_opened(
    config: &AudioConfig,
    built_in: bool,
    r: Result<RodioConfig, AudioError>,
)
    requires
        call_ensures(build, (config, built_in), r),
    ensures
        r is Ok <==> config.backend is Rodio && built_in,
        r matches Ok(c) ==> config.backend == AudioBackendKind::Rodio(c),
        (r matches Err(AudioError::RodioMissing)) <==> config.backend is Rodio && !built_in,
        (r matches Err(AudioError::WasapiSelected)) <==> config.backend is Wasapi,
        (r matches Err(AudioError::SystemSelected)) <==> config.backend is System,
{
}

} // verus!
