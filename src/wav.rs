use vstd::prelude::*;

use crate::audio::{full_scale, full_scale_for_bits, AudioFileLoader, DecodedAudio};
use crate::error::{DecodeError, PlayerError};

verus! {

/// The ways hound can refuse a WAVE file, one for each variant of
/// `hound::Error`.
#[derive(Debug, Clone, Copy, PartialEq, Eq)]
pub enum WavReadError {
    /// An I/O error: reading from memory, the bytes ran out.
    Io,
    /// Ill-formed WAVE data.
    Format,
    /// A sample is wider than 32 bits.
    TooWide,
    UnfinishedSample,
    /// A format tag hound does not read.
    Unsupported,
    /// Float samples, read as integers.
    InvalidSampleFormat,
}

/// The fields of a WAVE header that decoding reads.
#[derive(Debug, Clone, Copy, PartialEq, Eq)]
pub struct WavHeader {
    pub channels: u16,
    pub sample_rate: u32,
    /// The number of significant bits in each sample.
    pub bits_per_sample: u16,
}

/// What hound reads from the bytes of a WAVE file: channel count, sample
/// rate, bits per sample and the integer samples in file order; or the kind
/// of error with which it refuses the file.
pub uninterp spec fn hound_wav_contents(bytes: Seq<u8>) -> Result<(u16, u32, u16, Seq<i32>), WavReadError>;

/// Relies on hound's `WavReader::new`, `WavReader::spec` and
/// `WavReader::into_samples::<i32>`: the header and every sample of an
/// integer WAVE file, read from memory, or the variant of hound's error.
#[verifier::external_body]
fn read_wav(bytes: &[u8]) -> (r: Result<(WavHeader, Vec<i32>), WavReadError>)
    ensures
        match r {
            Ok((h, s)) => hound_wav_contents(bytes@) == Ok::<(u16, u32, u16, Seq<i32>), WavReadError>(
                (h.channels, h.sample_rate, h.bits_per_sample, s@),
            ),
            Err(e) => hound_wav_contents(bytes@) == Err::<(u16, u32, u16, Seq<i32>), WavReadError>(e),
        },
{
    hound::WavReader::new(bytes).and_then(|reader| {
        let spec = reader.spec();
        let samples = reader.into_samples::<i32>().collect::<Result<Vec<i32>, hound::Error>>()?;
        Ok((WavHeader { channels: spec.channels, sample_rate: spec.sample_rate, bits_per_sample: spec.bits_per_sample }, samples))
    }).map_err(|e| match e {
        hound::Error::IoError(_) => WavReadError::Io,
        hound::Error::FormatError(_) => WavReadError::Format,
        hound::Error::TooWide => WavReadError::TooWide,
        hound::Error::UnfinishedSample => WavReadError::UnfinishedSample,
        hound::Error::Unsupported => WavReadError::Unsupported,
        hound::Error::InvalidSampleFormat => WavReadError::InvalidSampleFormat,
    })
}

/// The decoding error reported for each way hound refuses a file.
pub open spec fn wav_failure(e: WavReadError) -> DecodeError {
    match e {
        WavReadError::Io => DecodeError::Truncated,
        WavReadError::Format => DecodeError::Malformed,
        WavReadError::UnfinishedSample => DecodeError::Malformed,
        _ => DecodeError::UnsupportedEncoding,
    }
}

fn wav_error_kind(e: WavReadError) -> (r: DecodeError)
    ensures
        r == wav_failure(e),
{
    match e {
        WavReadError::Io => DecodeError::Truncated,
        WavReadError::Format => DecodeError::Malformed,
        WavReadError::UnfinishedSample => DecodeError::Malformed,
        WavReadError::TooWide => DecodeError::UnsupportedEncoding,
        WavReadError::Unsupported => DecodeError::UnsupportedEncoding,
        WavReadError::InvalidSampleFormat => DecodeError::UnsupportedEncoding,
    }
}

/// A header and samples that make a well-formed integer PCM buffer.
pub open spec fn pcm_accepted(header: WavHeader, samples: Seq<i32>) -> bool {
    &&& header.channels >= 1
    &&& header.sample_rate >= 1
    &&& 2 <= header.bits_per_sample <= 32
    &&& (samples.len() as int) % (header.channels as int) == 0
}

/// `a` holds `samples` unchanged, with the header's rate and channel count
/// and the full scale of its bit depth.
pub open spec fn pcm_buffer(header: WavHeader, samples: Seq<i32>, a: DecodedAudio) -> bool {
    &&& a.samples@ == samples
    &&& a.full_scale == full_scale_for_bits(header.bits_per_sample as nat)
    &&& a.sample_rate == header.sample_rate
    &&& a.channels == header.channels
}

/// Silence stays silence: a valid header with `n` frames of zero samples is
/// accepted, and the buffer built from it holds exactly `n` frames, every
/// sample of which is zero.
pub proof fn lemma_silence_decodes_to_silence(
    header: WavHeader,
    samples: Seq<i32>,
    n: nat,
    a: DecodedAudio,
)
    requires
        header.channels >= 1,
        header.sample_rate >= 1,
        2 <= header.bits_per_sample <= 32,
        samples.len() == n * header.channels,
        forall|i: int| 0 <= i < samples.len() ==> samples[i] == 0,
        pcm_buffer(header, samples, a),
    ensures
        pcm_accepted(header, samples),
        a.frame_count() == n,
        forall|i: int| 0 <= i < a.samples.len() ==> a.samples[i] == 0,
{
    let c = header.channels as int;
    assert((n * c) % c == 0 && (n * c) / c == n) by (nonlinear_arith)
        requires
            c >= 1,
    {
        vstd::arithmetic::div_mod::lemma_mod_multiples_basic(n as int, c);
        vstd::arithmetic::div_mod::lemma_div_multiples_vanish(n as int, c);
    }
}

/// Decodes raw PCM in a RIFF/WAVE container.
///
/// A file cut short is refused as `Truncated`: no partial buffer is
/// returned. A header with no channel, a sample rate of 0 or an unusable bit
/// depth is refused as `Malformed`.
pub struct WavLoader;

impl WavLoader {
    /// Builds the buffer from a header and the samples read after it; the
    /// samples are kept as they are, with the full scale of their bit depth.
    pub fn from_pcm(header: WavHeader, samples: Vec<i32>) -> (r: Result<DecodedAudio, PlayerError>)
        ensures
            pcm_accepted(header, samples@) <==> r is Ok,
            r matches Ok(a) ==> a.wf() && pcm_buffer(header, samples@, a),
            r matches Err(e) ==> e == PlayerError::Decode(DecodeError::Malformed),
    {
        if header.channels == 0 || header.sample_rate == 0 || header.bits_per_sample < 2 || header.bits_per_sample > 32
            || samples.len() % header.channels as usize != 0 {
            return Err(PlayerError::Decode(DecodeError::Malformed));
        }
        let scale = full_scale(header.bits_per_sample);
        Ok(
            DecodedAudio {
                samples,
                full_scale: scale,
                sample_rate: header.sample_rate,
                channels: header.channels,
            },
        )
    }
}

impl AudioFileLoader for WavLoader {
    /// Reads the WAVE file with hound; what it reads goes through
    /// [`WavLoader::from_pcm`].
    fn load_samples(&self, bytes: &Vec<u8>) -> (r: Result<DecodedAudio, PlayerError>)
        ensures
            match hound_wav_contents(bytes@) {
                Ok((channels, rate, bits, samples)) => {
                    let header = WavHeader { channels, sample_rate: rate, bits_per_sample: bits };
                    &&& pcm_accepted(header, samples) <==> r is Ok
                    &&& r matches Ok(a) ==> pcm_buffer(header, samples, a)
                    &&& r matches Err(e) ==> e == PlayerError::Decode(DecodeError::Malformed)
                },
                Err(e) => r == Err::<DecodedAudio, PlayerError>(PlayerError::Decode(wav_failure(e))),
            },
    {
        match read_wav(bytes.as_slice()) {
            Ok((header, samples)) => WavLoader::from_pcm(header, samples),
            Err(e) => Err(PlayerError::Decode(wav_error_kind(e))),
        }
    }
}

} // verus!
