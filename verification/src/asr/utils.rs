//! PCM samples.

use crate::number::{append_number, decimal};
use vstd::prelude::*;
use vstd::slice::*;
use vstd::string::*;

verus! {

/// Why PCM data is not understood.
#[derive(Debug, Clone, Copy, PartialEq, Eq, Structural)]
pub enum PcmError {
    /// A sample has two bytes, and one is left over.
    OddLength,
    NoChannels,
    UnsupportedChannels { channels: u16 },
}

impl PcmError {
    /// The error in words.
    pub open spec fn spec_message(self) -> Seq<char> {
        match self {
            PcmError::OddLength => "pcm bytes length must be even (i16 LE)"@,
            PcmError::NoChannels => "channels must be >= 1"@,
            PcmError::UnsupportedChannels { channels } => "unsupported channels: "@ + decimal(
                channels as nat,
            ),
        }
    }

    /// The error in words.
    pub fn message(self) -> (r: String)
        ensures
            r@ == self.spec_message(),
    {
        match self {
            PcmError::OddLength => "pcm bytes length must be even (i16 LE)".to_string(),
            PcmError::NoChannels => "channels must be >= 1".to_string(),
            PcmError::UnsupportedChannels { channels } => {
                let mut out = "unsupported channels: ".to_string();
                append_number(&mut out, channels as u64);
                out
            },
        }
    }
}

/// The sample of two bytes, the low one first, in two's complement.
pub open spec fn sample_of(low: u8, high: u8) -> i16 {
    let v = low + 256 * high;
    if v < 32768 {
        v as i16
    } else {
        (v - 65536) as i16
    }
}

/// The sample of two bytes, the low one first, in two's complement.
pub fn sample_from_le(low: u8, high: u8) -> (r: i16)
    ensures
        r == sample_of(low, high),
{
    let v: i32 = low as i32 + 256 * (high as i32);
    if v < 32768 {
        v as i16
    } else {
        (v - 65536) as i16
    }
}

/// The samples of bytes; an odd last byte is left out.
pub open spec fn samples_of(bytes: Seq<u8>) -> Seq<i16> {
    Seq::new((bytes.len() / 2) as nat, |i: int| sample_of(bytes[2 * i], bytes[2 * i + 1]))
}

/// The samples of bytes, which must be pairs.
pub fn pcm_i16_le_bytes_to_vec(pcm: &[u8]) -> (r: Result<Vec<i16>, PcmError>)
    ensures
        if pcm@.len() % 2 != 0 {
            r == Err::<Vec<i16>, _>(PcmError::OddLength)
        } else {
            r matches Ok(out) && out@ == samples_of(pcm@)
        },
{
    let len: usize = pcm.len();
    if len % 2 != 0 {
        return Err(PcmError::OddLength);
    }
    let mut out: Vec<i16> = Vec::new();
    let mut i: usize = 0;
    while i < len
        invariant
            len == pcm@.len(),
            len % 2 == 0,
            i % 2 == 0,
            i <= len,
            out@.len() == i / 2,
            forall|k: int| 0 <= k < out@.len() ==> #[trigger] out@[k] == sample_of(
                pcm@[2 * k],
                pcm@[2 * k + 1],
            ),
        decreases len - i,
    {
        out.push(sample_from_le(pcm[i], pcm[i + 1]));
        i += 2;
    }
    proof {
        assert(out@ =~= samples_of(pcm@));
    }
    Ok(out)
}

/// The two bytes of a sample, the low one first.
pub open spec fn bytes_of_sample(sample: i16) -> (u8, u8) {
    let v = if sample < 0 {
        sample + 65536
    } else {
        sample as int
    };
    ((v % 256) as u8, (v / 256) as u8)
}

/// The bytes of samples, one after the other.
pub open spec fn bytes_of(samples: Seq<i16>) -> Seq<u8> {
    Seq::new(
        samples.len() * 2,
        |i: int|
            if i % 2 == 0 {
                bytes_of_sample(samples[i / 2]).0
            } else {
                bytes_of_sample(samples[i / 2]).1
            },
    )
}

/// The bytes of samples, one after the other.
pub fn pcm_i16_to_le_bytes(samples: &Vec<i16>) -> (r: Vec<u8>)
    ensures
        r@ == bytes_of(samples@),
{
    let mut out: Vec<u8> = Vec::new();
    let mut i: usize = 0;
    while i < samples.len()
        invariant
            i <= samples@.len(),
            out@ =~= bytes_of(samples@.take(i as int)),
        decreases samples@.len() - i,
    {
        let sample: i16 = samples[i];
        let v: i32 = if sample < 0 {
            sample as i32 + 65536
        } else {
            sample as i32
        };
        let ghost had = out@;
        out.push((v % 256) as u8);
        out.push((v / 256) as u8);
        proof {
            let more = bytes_of(samples@.take(i + 1));
            assert forall|k: int| 0 <= k < more.len() implies out@[k] == #[trigger] more[k] by {
                if k < 2 * i {
                    assert(had[k] == bytes_of(samples@.take(i as int))[k]);
                }
            }
            assert(out@ =~= more);
        }
        i += 1;
    }
    proof {
        assert(samples@.take(i as int) =~= samples@);
    }
    out
}

/// Samples written as bytes are read back as they were.
pub proof fn law_samples_read_back(samples: Seq<i16>)
    ensures
        bytes_of(samples).len() % 2 == 0,
        samples_of(bytes_of(samples)) == samples,
{
    let bytes = bytes_of(samples);
    assert forall|i: int| 0 <= i < samples.len() implies #[trigger] samples_of(bytes)[i]
        == samples[i] by {
        let s = samples[i];
        assert(bytes[2 * i] == bytes_of_sample(samples[(2 * i) / 2]).0);
        assert(bytes[2 * i + 1] == bytes_of_sample(samples[(2 * i + 1) / 2]).1);
        assert((2 * i) / 2 == i);
        assert((2 * i + 1) / 2 == i);
    }
    assert(samples_of(bytes) =~= samples);
}

/// Bytes read as samples are written as they were.
pub proof fn law_bytes_write_back(bytes: Seq<u8>)
    requires
        bytes.len() % 2 == 0,
    ensures
        bytes_of(samples_of(bytes)) == bytes,
{
    let samples = samples_of(bytes);
    assert forall|i: int| 0 <= i < bytes.len() implies #[trigger] bytes_of(samples)[i]
        == bytes[i] by {
        let k = i / 2;
        assert(samples[k] == sample_of(bytes[2 * k], bytes[2 * k + 1]));
        if i % 2 == 0 {
            assert(i == 2 * k);
        } else {
            assert(i == 2 * k + 1);
        }
    }
    assert(bytes_of(samples) =~= bytes);
}

/// One channel made of one or two, in units of 1/65536 of full scale: twice the sample, or the
/// sum of the two.
pub open spec fn mono_of(pcm: Seq<i16>, channels: nat) -> Seq<int> {
    if channels == 1 {
        pcm.map_values(|s: i16| 2 * s)
    } else {
        Seq::new((pcm.len() / 2) as nat, |i: int| pcm[2 * i] + pcm[2 * i + 1])
    }
}

/// One channel made of one or two, in units of 1/65536 of full scale; a sample without its
/// partner is left out.
pub fn pcm_i16_to_mono(pcm: &Vec<i16>, channels: u16) -> (r: Result<Vec<i32>, PcmError>)
    ensures
        if channels == 0 {
            r == Err::<Vec<i32>, _>(PcmError::NoChannels)
        } else if channels > 2 {
            r == Err::<Vec<i32>, _>(PcmError::UnsupportedChannels { channels })
        } else {
            r matches Ok(out) && out@.map_values(|v: i32| v as int) == mono_of(
                pcm@,
                channels as nat,
            )
        },
{
    if channels == 0 {
        return Err(PcmError::NoChannels);
    }
    if channels > 2 {
        return Err(PcmError::UnsupportedChannels { channels });
    }
    let mut out: Vec<i32> = Vec::new();
    if channels == 1 {
        let mut i: usize = 0;
        while i < pcm.len()
            invariant
                i <= pcm@.len(),
                out@.len() == i,
                forall|k: int| 0 <= k < i ==> #[trigger] out@[k] == 2 * pcm@[k],
            decreases pcm@.len() - i,
        {
            out.push(2 * (pcm[i] as i32));
            i += 1;
        }
        proof {
            assert(out@.map_values(|v: i32| v as int) =~= mono_of(pcm@, 1));
        }
    } else {
        let end: usize = pcm.len();
        let frames: usize = end / 2;
        let mut i: usize = 0;
        while i < frames
            invariant
                end == pcm@.len(),
                frames == end / 2,
                i <= frames,
                out@.len() == i,
                forall|k: int| 0 <= k < i ==> #[trigger] out@[k] == pcm@[2 * k] + pcm@[2 * k + 1],
            decreases frames - i,
        {
            out.push(pcm[2 * i] as i32 + pcm[2 * i + 1] as i32);
            i += 1;
        }
        proof {
            assert(out@.map_values(|v: i32| v as int) =~= mono_of(pcm@, 2));
        }
    }
    Ok(out)
}

/// Two bytes are a number of 16 bits, the low one first; the upper half of these numbers stands
/// for the negative samples, in their order.
pub proof fn law_sample_of_two_bytes(low: u8, high: u8)
    ensures
        high < 128 ==> sample_of(low, high) == low + 256 * high,
        high >= 128 ==> sample_of(low, high) + 65536 == low + 256 * high,
        sample_of(low, high) >= 0 <==> high < 128,
{
}

/// A sample's bytes: what is left by 256, and the rest, in two's complement.
pub proof fn law_bytes_of_one_sample(sample: i16)
    ensures
        ({
            let (low, high) = bytes_of_sample(sample);
            &&& sample >= 0 ==> low + 256 * high == sample
            &&& sample < 0 ==> low + 256 * high == sample + 65536
        }),
{
}

/// One channel of samples is as long as the frames, and each of its samples is the sum of a
/// frame's channels, a single channel counting twice.
pub proof fn law_one_channel(pcm: Seq<i16>, i: int)
    ensures
        mono_of(pcm, 1).len() == pcm.len(),
        0 <= i < pcm.len() ==> mono_of(pcm, 1)[i] == pcm[i] + pcm[i],
        mono_of(pcm, 2).len() == pcm.len() / 2,
        0 <= i < pcm.len() / 2 ==> mono_of(pcm, 2)[i] == pcm[2 * i] + pcm[2 * i + 1],
{
}

/// Every pair of bytes is a sample, at its place.
pub proof fn law_samples_of_pairs(bytes: Seq<u8>, i: int)
    ensures
        samples_of(bytes).len() == bytes.len() / 2,
        0 <= i < bytes.len() / 2 ==> samples_of(bytes)[i] == sample_of(
            bytes[2 * i],
            bytes[2 * i + 1],
        ),
{
}

} // verus!
