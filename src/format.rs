use vstd::prelude::*;

verus! {

/// Rate of the canonical stream, in samples per second.
pub const CANONICAL_RATE: u32 = 16000;

/// How the endpoint's mix format stores one sample.
#[derive(Clone, Copy, Debug, PartialEq, Eq, Structural)]
pub enum SampleKind {
    Float32,
    Int16,
}

/// Errors that end a capture attempt or refuse a request.
#[derive(Clone, Copy, Debug, PartialEq, Eq, Structural)]
pub enum CaptureError {
    /// The endpoint reported no channels.
    NoChannels,
    /// The endpoint reported a sample rate of zero.
    NoSampleRate,
    /// No output directory could be resolved.
    NoOutputDirectory,
    /// The speech service key is not configured.
    MissingKey,
    /// The speech service region is not configured.
    MissingRegion,
}

/// Classification of a mix format by its sample width.
pub open spec fn kind_of_width(bits_per_sample: u16) -> SampleKind {
    if bits_per_sample == 32 {
        SampleKind::Float32
    } else {
        SampleKind::Int16
    }
}

/// 32-bit samples are floating point; any other width is read as 16-bit integers.
pub fn classify_width(bits_per_sample: u16) -> (r: SampleKind)
    ensures
        r == kind_of_width(bits_per_sample),
{
    if bits_per_sample == 32 {
        SampleKind::Float32
    } else {
        SampleKind::Int16
    }
}

/// The parameters of an open capture session that downstream stages consume.
#[derive(Clone, Copy, Debug, PartialEq, Eq, Structural)]
pub struct SessionFormat {
    pub channels: u16,
    pub sample_rate: u32,
    pub kind: SampleKind,
}

impl SessionFormat {
    /// A usable format has at least one channel and a nonzero rate.
    pub open spec fn wf(&self) -> bool {
        self.channels >= 1 && self.sample_rate >= 1
    }

    /// Records the mix format exactly as reported; a format without channels
    /// or without a rate cannot be processed and is refused.
    pub fn from_mix_format(channels: u16, sample_rate: u32, bits_per_sample: u16) -> (r: Result<
        SessionFormat,
        CaptureError,
    >)
        ensures
            channels == 0 ==> r == Err::<SessionFormat, CaptureError>(CaptureError::NoChannels),
            channels != 0 && sample_rate == 0 ==> r == Err::<SessionFormat, CaptureError>(
                CaptureError::NoSampleRate,
            ),
            channels != 0 && sample_rate != 0 ==> r == Ok::<SessionFormat, CaptureError>(
                (SessionFormat { channels, sample_rate, kind: kind_of_width(bits_per_sample) }),
            ),
            r is Ok ==> r->Ok_0.wf(),
    {
        if channels == 0 {
            return Err(CaptureError::NoChannels);
        }
        if sample_rate == 0 {
            return Err(CaptureError::NoSampleRate);
        }
        Ok(SessionFormat { channels, sample_rate, kind: classify_width(bits_per_sample) })
    }
}

} // verus!
