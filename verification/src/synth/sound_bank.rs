//! The percussion sounds and what the engine knows of their waveforms.
use vstd::prelude::*;

verus! {

/// Number of percussion sounds.
pub const NUM_SAMPLES: usize = 5;

/// A percussion sound.
#[derive(Clone, Copy, PartialEq, Eq, Structural, Debug)]
pub enum Sample {
    HihatClosed,
    HihatOpen,
    Snare,
    Cowbell,
    Kick,
}

impl Sample {
    /// The place of the sound among the sounds, from 0.
    pub open spec fn ordinal(self) -> int {
        match self {
            Sample::HihatClosed => 0,
            Sample::HihatOpen => 1,
            Sample::Snare => 2,
            Sample::Cowbell => 3,
            Sample::Kick => 4,
        }
    }

    /// The place of the sound among the sounds, from 0.
    pub fn index(self) -> (index: usize)
        ensures
            index == self.ordinal(),
            index < NUM_SAMPLES,
    {
        match self {
            Sample::HihatClosed => 0,
            Sample::HihatOpen => 1,
            Sample::Snare => 2,
            Sample::Cowbell => 3,
            Sample::Kick => 4,
        }
    }

    /// The sound at place `index`, if there is one.
    pub fn from_index(index: usize) -> (sample: Option<Sample>)
        ensures
            match sample {
                Some(s) => s.ordinal() == index,
                None => index >= NUM_SAMPLES,
            },
    {
        match index {
            0 => Some(Sample::HihatClosed),
            1 => Some(Sample::HihatOpen),
            2 => Some(Sample::Snare),
            3 => Some(Sample::Cowbell),
            4 => Some(Sample::Kick),
            _ => None,
        }
    }
}

/// What the engine knows of the waveforms: the rate at which they were
/// prepared and how many frames each of them lasts.
#[derive(Clone, Copy, Debug)]
pub struct Bank {
    lengths: [usize; NUM_SAMPLES],
    sample_rate: u32,
}

impl Bank {
    /// The rate, in frames per second, at which the waveforms were prepared.
    pub closed spec fn rate(self) -> u32 {
        self.sample_rate
    }

    /// The number of frames that each sound lasts, by the sound's place.
    pub closed spec fn lengths(self) -> Seq<usize> {
        self.lengths@
    }

    /// The number of frames that `sample` lasts.
    pub open spec fn length_of(self, sample: Sample) -> usize {
        self.lengths()[sample.ordinal()]
    }

    /// A bank of waveforms prepared at `sample_rate`, the sound at place `i`
    /// lasting `lengths[i]` frames.
    pub fn new(sample_rate: u32, lengths: [usize; NUM_SAMPLES]) -> (bank: Bank)
        ensures
            bank.rate() == sample_rate,
            bank.lengths() == lengths@,
    {
        Bank { lengths, sample_rate }
    }

    /// The number of frames that `sample` lasts.
    pub fn sound_len(&self, sample: Sample) -> (len: usize)
        ensures
            len == self.length_of(sample),
    {
        self.lengths[sample.index()]
    }

    /// The rate, in frames per second, at which the waveforms were prepared.
    pub fn get_sample_rate(&self) -> (rate: u32)
        ensures
            rate == self.rate(),
    {
        self.sample_rate
    }
}

/// A waveform as its file holds it: interleaved 16-bit samples.
#[derive(Clone, Debug, PartialEq, Eq)]
pub struct Pcm {
    /// Frames per second.
    pub sample_rate: u32,
    /// Samples per frame.
    pub channels: u16,
    pub samples: Vec<i16>,
}

/// Why a waveform could not be taken from its file.
#[derive(Clone, Copy, PartialEq, Eq, Structural, Debug)]
pub enum DecodeError {
    /// The bytes are no WAVE file whose samples are integers of at most 16
    /// bits, or the file is cut short.
    Malformed,
    /// The file holds more than one channel.
    NotMono,
}

/// What `hound` reads from the bytes of a WAVE file as 16-bit samples: the
/// sample rate, the number of channels and the samples, or nothing where it
/// reports an error.
pub uninterp spec fn wav_contents(data: Seq<u8>) -> Option<(u32, u16, Seq<i16>)>;

/// Reads `data` with `hound::WavReader::new`, takes the rate and the number
/// of channels from its `spec` and the samples from `into_samples::<i16>`.
/// Claims that what is read, or that an error is reported, depends on the
/// bytes alone.
#[verifier::external_body]
fn read_wav(data: &[u8]) -> (wav: Option<Pcm>)
    ensures
        match wav {
            Some(pcm) => wav_contents(data@) == Some(
                (pcm.sample_rate, pcm.channels, pcm.samples@),
            ),
            None => wav_contents(data@) is None,
        },
{
    let reader = hound::WavReader::new(data).ok()?;
    let spec = reader.spec();
    let samples = reader.into_samples::<i16>().collect::<Result<Vec<i16>, hound::Error>>().ok()?;
    Some(Pcm { sample_rate: spec.sample_rate, channels: spec.channels, samples })
}

/// The waveform that was read, if one was read and it has one channel.
pub fn mono_waveform(wav: Option<Pcm>) -> (waveform: Result<Pcm, DecodeError>)
    ensures
        match wav {
            Some(pcm) => if pcm.channels == 1 {
                waveform == Ok::<Pcm, DecodeError>(pcm)
            } else {
                waveform == Err::<Pcm, DecodeError>(DecodeError::NotMono)
            },
            None => waveform == Err::<Pcm, DecodeError>(DecodeError::Malformed),
        },
{
    match wav {
        Some(pcm) => if pcm.channels == 1 {
            Ok(pcm)
        } else {
            Err(DecodeError::NotMono)
        },
        None => Err(DecodeError::Malformed),
    }
}

/// The waveform of a WAVE file with one channel of integer samples of at
/// most 16 bits.
pub fn decode_mono(data: &[u8]) -> (waveform: Result<Pcm, DecodeError>)
    ensures
        match wav_contents(data@) {
            Some((sample_rate, channels, samples)) => if channels == 1 {
                waveform matches Ok(pcm) && pcm.sample_rate == sample_rate && pcm.channels == 1
                    && pcm.samples@ == samples
            } else {
                waveform == Err::<Pcm, DecodeError>(DecodeError::NotMono)
            },
            None => waveform == Err::<Pcm, DecodeError>(DecodeError::Malformed),
        },
{
    mono_waveform(read_wav(data))
}

} // verus!
