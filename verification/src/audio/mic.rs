//! Microphone input.

use super::queue::SampleQueue;
use crate::internal::env::{self, EnvVars};
use crate::number::{append_number, decimal};
use crate::text::{
    contains_text, holds_part, lowercase, spelled, trim, trimmed, lowercased,
};
use vstd::prelude::*;
use vstd::string::*;

verus! {

/// Microphone settings.
#[derive(Debug)]
pub struct MicConfig {
    /// Preferred ASR feed size (ms). Used by consumers to chunk samples.
    pub feed_ms: u64,
    /// Ring buffer capacity in seconds.
    pub ring_seconds: u64,
    /// Optional input device name substring match.
    pub device_hint: Option<String>,
    /// Optional fixed buffer size for the platform audio backend (frames).
    pub buffer_frames: Option<u32>,
}

impl Default for MicConfig {
    fn default() -> (r: Self)
        ensures
            r.feed_ms == 20,
            r.ring_seconds == 30,
            r.device_hint is None,
            r.buffer_frames is None,
    {
        MicConfig { feed_ms: 20, ring_seconds: 30, device_hint: None, buffer_frames: None }
    }
}

impl MicConfig {
    /// Reads the settings from the environment.
    pub fn from_env(vars: &EnvVars) -> (r: Self)
        ensures
            r.feed_ms == env::unsigned_setting(
                vars@,
                "ASR_FEED_MS"@,
                u64::MAX as nat,
                20,
                5,
                200,
            ),
            r.ring_seconds == env::unsigned_setting(
                vars@,
                "ASR_MIC_RING_SECONDS"@,
                u64::MAX as nat,
                30,
                1,
                120,
            ),
            match r.device_hint {
                Some(hint) => env::text_var(vars@, "ASR_MIC_DEVICE"@) == Some(hint@),
                None => env::text_var(vars@, "ASR_MIC_DEVICE"@) is None,
            },
            r.buffer_frames == match env::unsigned_var(
                vars@,
                "ASR_MIC_BUFFER_FRAMES"@,
                u32::MAX as nat,
            ) {
                Some(frames) if frames > 0 => Some(frames as u32),
                _ => None,
            },
    {
        let defaults = MicConfig::default();
        MicConfig {
            feed_ms: env::u64_clamped(vars, "ASR_FEED_MS", defaults.feed_ms, 5, 200),
            ring_seconds: env::u64_clamped(
                vars,
                "ASR_MIC_RING_SECONDS",
                defaults.ring_seconds,
                1,
                120,
            ),
            device_hint: env::string(vars, "ASR_MIC_DEVICE"),
            buffer_frames: positive(env::get_u32(vars, "ASR_MIC_BUFFER_FRAMES")),
        }
    }

    /// The buffer size to ask for, where one is set.
    pub fn fixed_buffer(&self) -> (r: Option<u32>)
        ensures
            r == match self.buffer_frames {
                Some(frames) if frames > 0 => Some(frames),
                _ => None,
            },
    {
        positive(self.buffer_frames)
    }
}

/// The number, unless it is 0.
fn positive(n: Option<u32>) -> (r: Option<u32>)
    ensures
        r == match n {
            Some(v) if v > 0 => Some(v),
            _ => None,
        },
{
    match n {
        Some(v) => if v > 0 {
            Some(v)
        } else {
            None
        },
        None => None,
    }
}

/// Why there is no microphone.
#[derive(Debug)]
pub enum MicError {
    /// No device has such a name.
    NoMatch { hint: String, available: Vec<String> },
    /// The device has no sample rate or no channels.
    InvalidFormat { sample_rate: u32, channels: u16 },
}

/// One line for each name.
pub open spec fn listed(names: Seq<String>) -> Seq<char>
    decreases names.len(),
{
    if names.len() == 0 {
        Seq::empty()
    } else if names.len() == 1 {
        "- "@ + names[0]@
    } else {
        listed(names.drop_last()) + "\n- "@ + names.last()@
    }
}

impl MicError {
    /// The error in words.
    pub open spec fn spec_message(&self) -> Seq<char> {
        match self {
            MicError::NoMatch { hint, available } => "ASR_MIC_DEVICE="@ + hint@
                + " did not match any input device. Available:\n"@ + listed(available@),
            MicError::InvalidFormat { sample_rate, channels } => "Invalid input audio format: "@
                + decimal(*sample_rate as nat) + "Hz/"@ + decimal(*channels as nat) + "ch"@,
        }
    }

    /// The error in words.
    pub fn message(&self) -> (r: String)
        ensures
            r@ == self.spec_message(),
    {
        match self {
            MicError::NoMatch { hint, available } => {
                let mut out = "ASR_MIC_DEVICE=".to_string();
                out.append(hint.as_str());
                out.append(" did not match any input device. Available:\n");
                let ghost head = out@;
                let mut i: usize = 0;
                proof {
                    assert(available@.take(0) =~= Seq::<String>::empty());
                    assert(head + listed(available@.take(0)) =~= head);
                }
                while i < available.len()
                    invariant
                        i <= available@.len(),
                        out@ == head + listed(available@.take(i as int)),
                    decreases available@.len() - i,
                {
                    proof {
                        assert(available@.take(i + 1).drop_last() =~= available@.take(i as int));
                        reveal_strlit("\n- ");
                        reveal_strlit("- ");
                    }
                    if i > 0 {
                        out.append("\n- ");
                    } else {
                        out.append("- ");
                    }
                    out.append(available[i].as_str());
                    i += 1;
                    proof {
                        assert(out@ =~= head + listed(available@.take(i as int)));
                    }
                }
                proof {
                    assert(available@.take(i as int) =~= available@);
                }
                out
            },
            MicError::InvalidFormat { sample_rate, channels } => {
                let mut out = "Invalid input audio format: ".to_string();
                append_number(&mut out, *sample_rate as u64);
                out.append("Hz/");
                append_number(&mut out, *channels as u64);
                out.append("ch");
                out
            },
        }
    }
}

/// Which input device is opened.
#[derive(Debug)]
pub enum DeviceChoice {
    /// The default device.
    Default,
    /// The device at this place of the list.
    Listed(usize),
}

/// The place of the first name that holds `needle`; the number of names where none does.
pub open spec fn first_holding(names: Seq<Seq<char>>, needle: Seq<char>) -> int
    decreases names.len(),
{
    if names.len() == 0 || holds_part(names[0], needle) {
        0
    } else {
        1 + first_holding(names.skip(1), needle)
    }
}

/// The names in lower case.
pub open spec fn lowered(names: Seq<String>) -> Seq<Seq<char>> {
    names.map_values(|name: String| lowercased(name@))
}

/// The place of the first name that holds `needle`, if one does.
pub fn find_holding(names: &Vec<String>, needle: &str) -> (r: Option<usize>)
    ensures
        match r {
            Some(i) => i == first_holding(spelled(names@), needle@) && i < names@.len(),
            None => first_holding(spelled(names@), needle@) == names@.len(),
        },
{
    let mut i: usize = 0;
    let ghost all = spelled(names@);
    proof {
        assert(all.skip(0) =~= all);
    }
    while i < names.len()
        invariant
            all == spelled(names@),
            i <= names@.len(),
            first_holding(all, needle@) == i + first_holding(all.skip(i as int), needle@),
        decreases names@.len() - i,
    {
        proof {
            assert(all.skip(i as int).skip(1) =~= all.skip(i + 1));
            assert(all.skip(i as int)[0] == names@[i as int]@);
        }
        if contains_text(names[i].as_str(), needle) {
            return Some(i);
        }
        i += 1;
    }
    None
}

/// The names in lower case.
fn lower_all(names: &Vec<String>) -> (r: Vec<String>)
    ensures
        spelled(r@) == lowered(names@),
{
    let mut out: Vec<String> = Vec::new();
    let mut i: usize = 0;
    while i < names.len()
        invariant
            i <= names@.len(),
            spelled(out@) =~= lowered(names@.take(i as int)),
        decreases names@.len() - i,
    {
        let ghost had = out@;
        out.push(lowercase(names[i].as_str()));
        proof {
            assert(spelled(out@) =~= spelled(had).push(out@.last()@));
            assert(lowered(names@.take(i + 1)) =~= lowered(names@.take(i as int)).push(
                lowercased(names@[i as int]@),
            ));
        }
        i += 1;
    }
    proof {
        assert(names@.take(i as int) =~= names@);
    }
    out
}

/// Decides which of the named input devices is opened: the first whose name holds the hint,
/// whatever the case, or the default device without a hint.
pub fn select_input_device(names: Vec<String>, hint: Option<String>) -> (r: Result<
    DeviceChoice,
    MicError,
>)
    ensures
        ({
            let wanted = match hint {
                Some(h) => trimmed(h@),
                None => Seq::empty(),
            };
            let place = first_holding(lowered(names@), lowercased(wanted));
            if wanted.len() == 0 {
                r == Ok::<_, MicError>(DeviceChoice::Default)
            } else if place < names@.len() {
                r == Ok::<_, MicError>(DeviceChoice::Listed(place as usize))
            } else {
                r matches Err(MicError::NoMatch { hint: h, available }) && h@ == wanted
                    && available == names
            }
        }),
{
    let hint = match hint {
        Some(h) => trim(h.as_str()),
        None => String::new(),
    };
    if hint.as_str().is_empty() {
        return Ok(DeviceChoice::Default);
    }
    let needle = lowercase(hint.as_str());
    let lower = lower_all(&names);
    proof {
        assert(spelled(lower@).len() == lower@.len());
        assert(lowered(names@).len() == names@.len());
    }
    match find_holding(&lower, needle.as_str()) {
        Some(i) => Ok(DeviceChoice::Listed(i)),
        None => Err(MicError::NoMatch { hint, available: names }),
    }
}

/// Whether audio with this format can be taken in.
pub fn check_input_format(sample_rate: u32, channels: u16) -> (r: Result<(), MicError>)
    ensures
        r == if sample_rate == 0 || channels == 0 {
            Err(MicError::InvalidFormat { sample_rate, channels })
        } else {
            Ok(())
        },
{
    if sample_rate == 0 || channels == 0 {
        return Err(MicError::InvalidFormat { sample_rate, channels });
    }
    Ok(())
}

/// `a * b`, or the largest `usize` where that is less.
pub open spec fn usize_product(a: nat, b: nat) -> nat {
    if a * b > usize::MAX {
        usize::MAX as nat
    } else {
        a * b
    }
}

/// How many samples the microphone's queue holds: the seconds asked for, and at least 1024.
pub open spec fn mic_capacity_of(sample_rate: u32, channels: u16, ring_seconds: usize) -> nat {
    let samples = usize_product(
        usize_product(sample_rate as nat, channels as nat),
        ring_seconds as nat,
    );
    if samples < 1024 {
        1024
    } else {
        samples
    }
}

/// How many samples the microphone's queue holds: the seconds asked for, and at least 1024.
pub fn mic_capacity(sample_rate: u32, channels: u16, ring_seconds: usize) -> (r: usize)
    ensures
        r == mic_capacity_of(sample_rate, channels, ring_seconds),
{
    let frame: usize = match (sample_rate as usize).checked_mul(channels as usize) {
        Some(n) => n,
        None => usize::MAX,
    };
    let samples: usize = match frame.checked_mul(ring_seconds) {
        Some(n) => n,
        None => usize::MAX,
    };
    if samples < 1024 {
        1024
    } else {
        samples
    }
}

/// An unsigned sample, whose middle is silence, as a signed one.
pub fn sample_from_u16(sample: u16) -> (r: i16)
    ensures
        r == sample - 32768,
{
    (sample as i32 - 32768) as i16
}

/// Samples on their way from the microphone.
pub struct MicHandle {
    queue: SampleQueue,
    dropped: u64,
    sample_rate: u32,
    channels: u16,
    feed_ms: u64,
}

/// What a `MicHandle` holds.
pub struct MicView {
    /// The samples taken in and not out, the oldest first.
    pub samples: Seq<i16>,
    /// How many samples fit.
    pub capacity: nat,
    /// How many samples did not fit since that was last asked.
    pub dropped: u64,
    pub sample_rate: u32,
    pub channels: u16,
    pub feed_ms: u64,
}

impl View for MicHandle {
    type V = MicView;

    closed spec fn view(&self) -> MicView {
        MicView {
            samples: self.queue@.map_values(|v: i64| v as i16),
            capacity: self.queue.capacity(),
            dropped: self.dropped,
            sample_rate: self.sample_rate,
            channels: self.channels,
            feed_ms: self.feed_ms,
        }
    }
}

impl MicView {
    /// After a sample: it is queued where there is room, and counted where there is none.
    pub open spec fn with_sample(self, sample: i16) -> Self {
        if self.samples.len() < self.capacity {
            MicView { samples: self.samples.push(sample), ..self }
        } else {
            MicView {
                dropped: if self.dropped == u64::MAX {
                    0
                } else {
                    (self.dropped + 1) as u64
                },
                ..self
            }
        }
    }

    /// After several samples.
    pub open spec fn with_samples(self, samples: Seq<i16>) -> Self
        decreases samples.len(),
    {
        if samples.len() == 0 {
            self
        } else {
            self.with_samples(samples.drop_last()).with_sample(samples.last())
        }
    }
}

impl MicHandle {
    /// Whether every queued number is a sample.
    pub closed spec fn valid(&self) -> bool {
        forall|i: int|
            0 <= i < self.queue@.len() ==> i16::MIN <= #[trigger] self.queue@[i] <= i16::MAX
    }

    /// A handle without samples.
    pub fn new(capacity: usize, sample_rate: u32, channels: u16, feed_ms: u64) -> (r: Self)
        requires
            0 < capacity <= isize::MAX / 16,
        ensures
            r.valid(),
            r@ == (MicView {
                samples: Seq::empty(),
                capacity: capacity as nat,
                dropped: 0,
                sample_rate,
                channels,
                feed_ms,
            }),
    {
        let r = MicHandle {
            queue: SampleQueue::new(capacity),
            dropped: 0,
            sample_rate,
            channels,
            feed_ms,
        };
        proof {
            assert(r@.samples =~= Seq::<i16>::empty());
        }
        r
    }

    /// Samples per second and channel.
    pub fn sample_rate(&self) -> (r: u32)
        ensures
            r == self@.sample_rate,
    {
        self.sample_rate
    }

    /// How many channels there are.
    pub fn channels(&self) -> (r: u16)
        ensures
            r == self@.channels,
    {
        self.channels
    }

    /// How much audio is handed on at once, in milliseconds.
    pub fn feed_ms(&self) -> (r: u64)
        ensures
            r == self@.feed_ms,
    {
        self.feed_ms
    }

    /// Takes a sample in.
    pub fn push_sample(&mut self, sample: i16)
        requires
            old(self).valid(),
        ensures
            final(self).valid(),
            final(self)@ == old(self)@.with_sample(sample),
    {
        let ghost before = self.queue@;
        if self.queue.push(sample as i64) {
            proof {
                assert(self@.samples =~= old(self)@.samples.push(sample));
            }
        } else {
            self.dropped = self.dropped.wrapping_add(1);
        }
    }

    /// Takes samples in.
    pub fn push_samples(&mut self, samples: &Vec<i16>)
        requires
            old(self).valid(),
        ensures
            final(self).valid(),
            final(self)@ == old(self)@.with_samples(samples@),
    {
        let ghost before = self@;
        let mut i: usize = 0;
        proof {
            assert(samples@.take(0) =~= Seq::<i16>::empty());
        }
        while i < samples.len()
            invariant
                i <= samples@.len(),
                self.valid(),
                self@ == before.with_samples(samples@.take(i as int)),
            decreases samples@.len() - i,
        {
            proof {
                assert(samples@.take(i + 1).drop_last() =~= samples@.take(i as int));
            }
            self.push_sample(samples[i]);
            i += 1;
        }
        proof {
            assert(samples@.take(i as int) =~= samples@);
        }
    }

    /// How many samples did not fit since this was last asked.
    pub fn take_dropped_samples(&mut self) -> (r: u64)
        requires
            old(self).valid(),
        ensures
            final(self).valid(),
            r == old(self)@.dropped,
            final(self)@ == (MicView { dropped: 0, ..old(self)@ }),
    {
        let dropped: u64 = self.dropped;
        self.dropped = 0;
        dropped
    }

    /// Takes the oldest sample out.
    pub fn try_pop_sample(&mut self) -> (r: Option<i16>)
        requires
            old(self).valid(),
        ensures
            final(self).valid(),
            match r {
                Some(sample) => old(self)@.samples.len() > 0 && sample == old(self)@.samples[0]
                    && final(self)@ == (MicView {
                    samples: old(self)@.samples.skip(1),
                    ..old(self)@
                }),
                None => old(self)@.samples.len() == 0 && final(self)@ == old(self)@,
            },
    {
        let ghost before = self.queue@;
        match self.queue.pop() {
            Some(v) => {
                proof {
                    assert(before[0] == v);
                    assert(self@.samples =~= old(self)@.samples.skip(1));
                }
                Some(v as i16)
            },
            None => None,
        }
    }
}

/// No sample is lost in silence: of the samples that come while nothing is taken out, the first
/// that fit are queued in order, and the others are counted.
pub proof fn law_samples_are_queued_or_counted(mic: MicView, samples: Seq<i16>)
    requires
        mic.samples.len() <= mic.capacity,
        mic.dropped + samples.len() <= u64::MAX,
    ensures
        ({
            let after = mic.with_samples(samples);
            let fit = if samples.len() < mic.capacity - mic.samples.len() {
                samples.len() as int
            } else {
                mic.capacity - mic.samples.len()
            };
            &&& after.samples == mic.samples + samples.take(fit)
            &&& after.dropped == mic.dropped + (samples.len() - fit)
            &&& after.capacity == mic.capacity
        }),
    decreases samples.len(),
{
    if samples.len() == 0 {
        assert(mic.samples + samples.take(0) =~= mic.samples);
    } else {
        let fewer = samples.drop_last();
        law_samples_are_queued_or_counted(mic, fewer);
        let room = mic.capacity - mic.samples.len();
        if fewer.len() < room {
            assert(fewer.take(fewer.len() as int) =~= fewer);
            assert(samples.take(samples.len() as int) =~= samples);
            assert((mic.samples + fewer).push(samples.last()) =~= mic.samples + samples);
        } else {
            assert(samples.take(room) =~= fewer.take(room));
        }
    }
}

/// The place found is that of the first name that holds the text: it does, and none before it
/// does. Where it is behind the last, no name holds the text.
pub proof fn law_first_name_that_holds(names: Seq<Seq<char>>, needle: Seq<char>)
    ensures
        ({
            let place = first_holding(names, needle);
            &&& 0 <= place <= names.len()
            &&& place < names.len() ==> holds_part(names[place], needle)
            &&& forall|i: int| 0 <= i < place ==> !holds_part(#[trigger] names[i], needle)
        }),
    decreases names.len(),
{
    if names.len() > 0 && !holds_part(names[0], needle) {
        let rest = names.skip(1);
        law_first_name_that_holds(rest, needle);
        let place = first_holding(names, needle);
        assert forall|i: int| 0 <= i < place implies !holds_part(#[trigger] names[i], needle) by {
            if i > 0 {
                assert(rest[i - 1] == names[i]);
            }
        }
        if place < names.len() {
            assert(rest[place - 1] == names[place]);
        }
    }
}

/// Every name is looked at in lower case, at its place.
pub proof fn law_names_in_lower_case(names: Seq<String>, i: int)
    ensures
        lowered(names).len() == names.len(),
        0 <= i < names.len() ==> lowered(names)[i] == lowercased(names[i]@),
{
}

/// The queue holds as many samples as come in the seconds asked for, and at least 1024, as far as
/// a number goes.
pub proof fn law_queue_holds_its_seconds(sample_rate: u32, channels: u16, ring_seconds: usize)
    ensures
        ({
            let samples = sample_rate * channels * ring_seconds;
            let n = mic_capacity_of(sample_rate, channels, ring_seconds);
            &&& 1024 <= n <= usize::MAX
            &&& 1024 <= samples <= usize::MAX && sample_rate * channels <= usize::MAX ==> n
                == samples
            &&& samples < 1024 && sample_rate * channels <= usize::MAX ==> n == 1024
        }),
{
}

/// A product is that of its factors as far as a number goes, and the largest number beyond.
pub proof fn law_products(a: nat, b: nat)
    ensures
        a * b <= usize::MAX ==> usize_product(a, b) == a * b,
        a * b > usize::MAX ==> usize_product(a, b) == usize::MAX,
{
}

/// Samples go through the queue in their order, and one that does not fit is counted.
pub proof fn law_one_sample(mic: MicView, sample: i16)
    ensures
        ({
            let after = mic.with_sample(sample);
            &&& mic.samples.len() < mic.capacity ==> after.samples == mic.samples.push(sample)
                && after.dropped == mic.dropped
            &&& mic.samples.len() >= mic.capacity ==> after.samples == mic.samples
            &&& mic.samples.len() >= mic.capacity && mic.dropped < u64::MAX ==> after.dropped
                == mic.dropped + 1
            &&& after.capacity == mic.capacity && after.sample_rate == mic.sample_rate
                && after.channels == mic.channels && after.feed_ms == mic.feed_ms
        }),
{
}

/// A name more is a line more.
pub proof fn law_lines_of_names(names: Seq<String>, name: String)
    ensures
        listed(Seq::empty()).len() == 0,
        listed(seq![name]) == seq!['-', ' '] + name@,
        names.len() > 0 ==> listed(names.push(name)) == listed(names) + seq!['\n', '-', ' '] + name@,
{
    reveal_strlit("- ");
    reveal_strlit("\n- ");
    assert("- "@ =~= seq!['-', ' ']);
    assert("\n- "@ =~= seq!['\n', '-', ' ']);
    assert(names.push(name).drop_last() =~= names);
    assert(seq![name][0] == name);
}

/// Without a hint the default device is opened; with one the first whose name holds it, whatever
/// the case; where none does, all that are there are told.
pub proof fn law_device_that_is_opened(
    names: Vec<String>,
    hint: Option<String>,
    r: Result<DeviceChoice, MicError>,
)
    requires
        call_ensures(select_input_device, (names, hint), r),
    ensures
        hint is None || trimmed(hint->0@).len() == 0 ==> r matches Ok(DeviceChoice::Default),
        hint is Some && trimmed(hint->0@).len() > 0 ==> {
            let needle = lowercased(trimmed(hint->0@));
            match r {
                Ok(DeviceChoice::Listed(i)) => i < names@.len() && holds_part(
                    lowercased(names@[i as int]@),
                    needle,
                ) && forall|k: int|
                    0 <= k < i ==> !holds_part(lowercased((#[trigger] names@[k])@), needle),
                Ok(DeviceChoice::Default) => false,
                Err(MicError::NoMatch { hint: h, available }) => h@ == trimmed(hint->0@)
                    && available == names && forall|k: int|
                    0 <= k < names@.len() ==> !holds_part(
                        lowercased((#[trigger] names@[k])@),
                        needle,
                    ),
                Err(_) => false,
            }
        },
{
    if hint is Some && trimmed(hint->0@).len() > 0 {
        let needle = lowercased(trimmed(hint->0@));
        let low = lowered(names@);
        law_first_name_that_holds(low, needle);
        let place = first_holding(low, needle);
        assert forall|k: int| 0 <= k < place implies !holds_part(
            lowercased((#[trigger] names@[k])@),
            needle,
        ) by {
            assert(!holds_part(low[k], needle));
        }
        assert(names.len() == names@.len());
        if place < names@.len() {
            assert(place as usize == place);
            assert(low[place] == lowercased(names@[place]@));
        }
    }
}

/// Audio without a rate or a channel is not taken in.
pub proof fn law_format_that_is_taken(sample_rate: u32, channels: u16, r: Result<(), MicError>)
    requires
        call_ensures(check_input_format, (sample_rate, channels), r),
    ensures
        r is Ok <==> sample_rate > 0 && channels > 0,
{
}

/// The middle of an unsigned sample is silence.
pub proof fn law_unsigned_samples(sample: u16, r: i16)
    requires
        call_ensures(sample_from_u16, (sample,), r),
    ensures
        r + 32768 == sample,
{
}

/// What the environment does not set is 20 milliseconds at once and half a minute of audio; what it
/// sets counts where it lies in its range, and a buffer of no frames is none.
pub proof fn law_microphone_settings_of_the_environment(vars: &EnvVars, r: MicConfig, n: nat)
    requires
        call_ensures(MicConfig::from_env, (vars,), r),
    ensures
        ({
            let feed = env::unsigned_var(vars@, "ASR_FEED_MS"@, u64::MAX as nat);
            let ring = env::unsigned_var(vars@, "ASR_MIC_RING_SECONDS"@, u64::MAX as nat);
            let frames = env::unsigned_var(vars@, "ASR_MIC_BUFFER_FRAMES"@, u32::MAX as nat);
            &&& 5 <= r.feed_ms <= 200
            &&& feed is None ==> r.feed_ms == 20
            &&& feed == Some(n) && 5 <= n <= 200 ==> r.feed_ms == n
            &&& 1 <= r.ring_seconds <= 120
            &&& ring is None ==> r.ring_seconds == 30
            &&& ring == Some(n) && 1 <= n <= 120 ==> r.ring_seconds == n
            &&& r.buffer_frames is Some <==> frames is Some && frames->0 > 0
            &&& frames == Some(n) && n > 0 ==> (r.buffer_frames matches Some(f) && f == n)
            &&& r.device_hint is Some <==> env::text_var(vars@, "ASR_MIC_DEVICE"@) is Some
        }),
{
}

/// Samples leave in the order in which they came, and what did not fit is told once.
pub proof fn law_samples_leave_in_order()
    ensures
        forall|m: &mut MicHandle, r: Option<i16>|
            #[trigger] call_ensures(MicHandle::try_pop_sample, (m,), r) ==> {
                &&& r is Some <==> (*m)@.samples.len() > 0
                &&& r matches Some(sample) ==> (*m)@.samples == seq![sample] + (
                *final(m))@.samples
                &&& r is None ==> (*final(m))@.samples == (*m)@.samples
                &&& (*final(m))@.dropped == (*m)@.dropped
            },
        forall|m: &mut MicHandle, r: u64|
            #[trigger] call_ensures(MicHandle::take_dropped_samples, (m,), r) ==> r
                == (*m)@.dropped && (*final(m))@.dropped == 0 && (*final(m))@.samples
                == (*m)@.samples,
{
    assert forall|m: &mut MicHandle, r: Option<i16>|
        #[trigger] call_ensures(MicHandle::try_pop_sample, (m,), r) && r is Some implies (
    *m)@.samples == seq![r->0] + (*final(m))@.samples by {
        assert((*m)@.samples =~= seq![r->0] + (*final(m))@.samples);
    }
}

} // verus!
