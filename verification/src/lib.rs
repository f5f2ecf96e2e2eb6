//! A verified library for manipulating PCM audio data.
//!
//! The library keeps a decoded signal in memory as a [`PCM`] value and
//! converts it to and from the RIFF/WAVE container format, byte-exactly, with
//! machine-checked contracts: the writer's output is pinned down to the byte,
//! the reader's behaviour is pinned down for every possible input, and a
//! round-trip theorem connects the two.

use vstd::prelude::*;

/// Contains the errors for this library.
pub mod error;
/// The general theorems that hold of the codec: the export/import round
/// trip, the exported header arithmetic, when the `fact` chunk appears,
/// what an empty payload parses to, and where a corrupted tag fails.
pub mod laws;
/// Contains structs for the sample representations whose payload codec is
/// deliberately left unimplemented.
pub mod sample_types;
/// The WAVE container reader and writer.
pub mod wave;
/// The byte-level model of the WAVE container, and the resolver table.
pub mod wave_format;
/// Little-endian encoding and decoding of the fixed-width integers that the
/// container is built from.
pub mod wire;

pub use error::PCMError;
pub use error::WaveTag;

verus! {

use crate::sample_types::{I24, ImaADPCM, MicrosoftADPCM};

/// Represents PCM data: a decoded multi-channel signal.
#[derive(Clone, Debug)]
pub struct PCM {
    /// Parameters for this signal.
    pub parameters: PCMParameters,
    /// Loop information if any.  The WAVE codec never populates it, but it is
    /// part of the interchange shape.
    pub loop_info: Option<Vec<LoopInfo>>,
    /// Frames that compose the stream, in wall-clock order.
    pub frames: Vec<Frame>,
}

/// Parameters for a PCM signal.
#[derive(Clone, Debug)]
pub struct PCMParameters {
    /// Number of samples per second.
    pub sample_rate: u32,
    /// Number of samples per frame.
    pub nb_channels: u16,
    /// Sample representation shared by every sample in every frame.
    pub sample_type: Sample,
}

/// Information about looping in PCM data.
#[derive(Clone, Copy, Debug, PartialEq, Eq, Structural)]
pub struct LoopInfo {
    /// Where the loop starts, in frame count.
    pub loop_start: u64,
    /// Where the loop ends, in frame count.
    pub loop_end: u64,
}

/// Contains a sample for each channel in the stream.
#[derive(Clone, Debug)]
pub struct Frame {
    /// Samples for all the different channels.
    pub samples: Vec<Sample>,
}

/// A value representing a level in the signal.
///
/// The two floating-point representations carry the raw IEEE-754 bit pattern
/// of the value: the codec stores and moves the pattern, but never interprets
/// it as a number.
#[derive(Clone, Copy, Debug, PartialEq, Eq, Structural)]
pub enum Sample {
    /// One unsigned byte.
    Unsigned8bits(u8),
    /// Two bytes signed.
    Signed16bits(i16),
    /// Three bytes signed.
    Signed24bits(I24),
    /// Four bytes signed.
    Signed32bits(i32),
    /// Half byte IMA ADPCM.
    ImaADPCM(ImaADPCM),
    /// Half byte Microsoft ADPCM.
    MicrosoftADPCM(MicrosoftADPCM),
    /// Four bytes float, stored as its bit pattern.
    Float(u32),
    /// Eight bytes float, stored as its bit pattern.
    DoubleFloat(u64),
}

impl Sample {
    /// How big this representation is in bits.
    pub open spec fn spec_binary_size(self) -> u16 {
        match self {
            Sample::Unsigned8bits(_) => 8,
            Sample::Signed16bits(_) => 16,
            Sample::Signed24bits(_) => 24,
            Sample::Signed32bits(_) => 32,
            Sample::MicrosoftADPCM(_) => 4,
            Sample::Float(_) => 32,
            Sample::DoubleFloat(_) => 64,
            Sample::ImaADPCM(_) => 4,
        }
    }

    /// How many whole bytes one sample of this representation occupies on the
    /// wire.  The half-byte representations occupy zero whole bytes.
    pub open spec fn spec_byte_size(self) -> u16 {
        self.spec_binary_size() / 8
    }

    /// The best-fit WAVE format code for this representation.
    pub open spec fn spec_best_wave_format(self) -> u16 {
        match self {
            Sample::Unsigned8bits(_) => 1,
            Sample::Signed16bits(_) => 1,
            Sample::Signed24bits(_) => 1,
            Sample::Signed32bits(_) => 1,
            Sample::MicrosoftADPCM(_) => 2,
            Sample::Float(_) => 3,
            Sample::DoubleFloat(_) => 3,
            Sample::ImaADPCM(_) => 17,
        }
    }

    /// How many extension bytes the `fmt ` chunk needs for this
    /// representation.
    pub open spec fn spec_format_chunk_extra_size(self) -> u32 {
        match self {
            Sample::Unsigned8bits(_) => 0,
            Sample::Signed16bits(_) => 0,
            Sample::Signed24bits(_) => 0,
            Sample::Signed32bits(_) => 0,
            Sample::MicrosoftADPCM(_) => 34,
            Sample::Float(_) => 0,
            Sample::DoubleFloat(_) => 0,
            Sample::ImaADPCM(_) => 4,
        }
    }

    /// Whether two samples use the same representation, whatever their
    /// values.
    pub open spec fn same_variant(self, other: Sample) -> bool {
        match (self, other) {
            (Sample::Unsigned8bits(_), Sample::Unsigned8bits(_)) => true,
            (Sample::Signed16bits(_), Sample::Signed16bits(_)) => true,
            (Sample::Signed24bits(_), Sample::Signed24bits(_)) => true,
            (Sample::Signed32bits(_), Sample::Signed32bits(_)) => true,
            (Sample::MicrosoftADPCM(_), Sample::MicrosoftADPCM(_)) => true,
            (Sample::Float(_), Sample::Float(_)) => true,
            (Sample::DoubleFloat(_), Sample::DoubleFloat(_)) => true,
            (Sample::ImaADPCM(_), Sample::ImaADPCM(_)) => true,
            _ => false,
        }
    }

    /// Whether a raw payload codec is implemented for this representation.
    /// Header parsing is deliberately more permissive than payload decoding:
    /// only these two representations can move through the `data` chunk.
    pub open spec fn has_raw_codec(self) -> bool {
        self is Unsigned8bits || self is Signed16bits
    }

    /// Returns how big a sample is in bits.
    pub fn get_binary_size(&self) -> (r: u16)
        ensures
            r == self.spec_binary_size(),
    {
        match self {
            Sample::Unsigned8bits(_) => 8,
            Sample::Signed16bits(_) => 16,
            Sample::Signed24bits(_) => 24,
            Sample::Signed32bits(_) => 32,
            Sample::MicrosoftADPCM(_) => 4,
            Sample::Float(_) => 32,
            Sample::DoubleFloat(_) => 64,
            Sample::ImaADPCM(_) => 4,
        }
    }

    /// Returns the best format to use when writing this type to a Wave file.
    pub fn get_best_wave_format(&self) -> (r: u16)
        ensures
            r == self.spec_best_wave_format(),
    {
        match self {
            Sample::Unsigned8bits(_) => 1,
            Sample::Signed16bits(_) => 1,
            Sample::Signed24bits(_) => 1,
            Sample::Signed32bits(_) => 1,
            Sample::MicrosoftADPCM(_) => 2,
            Sample::Float(_) => 3,
            Sample::DoubleFloat(_) => 3,
            Sample::ImaADPCM(_) => 17,
        }
    }

    /// Returns how many extra bytes need to be added at the end of the format
    /// chunk for this representation.
    pub fn get_wave_format_chunk_extra_size(&self) -> (r: u32)
        ensures
            r == self.spec_format_chunk_extra_size(),
    {
        match self {
            Sample::Unsigned8bits(_) => 0,
            Sample::Signed16bits(_) => 0,
            Sample::Signed24bits(_) => 0,
            Sample::Signed32bits(_) => 0,
            Sample::MicrosoftADPCM(_) => 34,
            Sample::Float(_) => 0,
            Sample::DoubleFloat(_) => 0,
            Sample::ImaADPCM(_) => 4,
        }
    }

    /// Returns a Sample from a format code and a number of bits per sample
    /// found in a Wave header.  The returned sample carries a zero payload:
    /// it conveys which representation applies, not a real value.
    pub fn from_wave_format_bps(format: &u16, bits_per_sample: &u16) -> (r: Result<Sample, PCMError>)
        ensures
            r == crate::wave_format::resolve_format_bps(*format, *bits_per_sample),
    {
        match *format {
            1 => {
                // Standard integer PCM.  24-bit is intentionally excluded
                // from the wire-readable set even though the sample model can
                // represent it.
                match *bits_per_sample {
                    8 => Ok(Sample::Unsigned8bits(0u8)),
                    16 => Ok(Sample::Signed16bits(0i16)),
                    32 => Ok(Sample::Signed32bits(0i32)),
                    x => Err(PCMError::UnknownBitsPerSample(x)),
                }
            },
            2 => {
                // Microsoft ADPCM: every bit width is currently rejected,
                // since its decoder is not implemented.
                Err(PCMError::UnknownBitsPerSample(*bits_per_sample))
            },
            3 => {
                // IEEE float PCM.
                match *bits_per_sample {
                    32 => Ok(Sample::Float(0u32)),
                    64 => Ok(Sample::DoubleFloat(0u64)),
                    x => Err(PCMError::UnknownBitsPerSample(x)),
                }
            },
            17 => {
                // IMA ADPCM: every bit width is currently rejected, since its
                // decoder is not implemented.
                Err(PCMError::UnknownBitsPerSample(*bits_per_sample))
            },
            x => Err(PCMError::UnknownFormat(x)),
        }
    }

    /// A short, fixed description of the representation.
    pub fn description(&self) -> (r: String)
        ensures
            self is Unsigned8bits ==> r@ == "Unsigned 8 bits"@,
            self is Signed16bits ==> r@ == "Signed 16 bits"@,
            self is Signed24bits ==> r@ == "Signed 24 bits"@,
            self is Signed32bits ==> r@ == "Signed 32 bits"@,
            self is MicrosoftADPCM ==> r@ == "Microsoft ADPCM 4 bits"@,
            self is Float ==> r@ == "Float 32 bits"@,
            self is DoubleFloat ==> r@ == "Double-precision Float 64 bits"@,
            self is ImaADPCM ==> r@ == "IMA ADPCM 4 bits"@,
    {
        match self {
            Sample::Unsigned8bits(_) => String::from_str("Unsigned 8 bits"),
            Sample::Signed16bits(_) => String::from_str("Signed 16 bits"),
            Sample::Signed24bits(_) => String::from_str("Signed 24 bits"),
            Sample::Signed32bits(_) => String::from_str("Signed 32 bits"),
            Sample::MicrosoftADPCM(_) => String::from_str("Microsoft ADPCM 4 bits"),
            Sample::Float(_) => String::from_str("Float 32 bits"),
            Sample::DoubleFloat(_) => String::from_str("Double-precision Float 64 bits"),
            Sample::ImaADPCM(_) => String::from_str("IMA ADPCM 4 bits"),
        }
    }
}

impl Frame {
    /// The size of this frame on the wire, in bytes: one sample width per
    /// sample, taking the width from the first sample as every sample of a
    /// well-formed signal shares one representation.
    pub open spec fn spec_audio_size(self) -> nat {
        if self.samples@.len() == 0 {
            0
        } else {
            self.samples@.len() * (self.samples@[0].spec_byte_size() as nat)
        }
    }

    /// Returns how big a frame is in bytes.
    pub fn get_audio_size(&self) -> (r: usize)
        requires
            self.spec_audio_size() <= usize::MAX,
        ensures
            r == self.spec_audio_size(),
    {
        if self.samples.len() == 0 {
            0
        } else {
            let width: usize = (self.samples[0].get_binary_size() / 8) as usize;
            self.samples.len() * width
        }
    }
}

impl PCM {
    /// The shape invariant of a decoded signal: at least one channel, every
    /// frame carries one sample per channel, and every sample shares the
    /// representation named by the parameters.
    pub open spec fn wf(self) -> bool {
        &&& self.parameters.nb_channels >= 1
        &&& forall|i: int|
            0 <= i < self.frames@.len() ==> (#[trigger] self.frames@[i]).samples@.len()
                == self.parameters.nb_channels as int
        &&& forall|i: int, j: int|
            0 <= i < self.frames@.len() && 0 <= j < self.frames@[i].samples@.len()
                ==> (#[trigger] self.frames@[i].samples@[j]).same_variant(
                self.parameters.sample_type,
            )
    }

    /// The exact size of the raw sample payload in bytes, derived from the
    /// actual frames.
    pub open spec fn spec_audio_size(self) -> nat {
        if self.frames@.len() == 0 {
            0
        } else {
            self.frames@.len() * self.frames@[0].spec_audio_size()
        }
    }

    /// Returns the size of the raw stream in bytes.
    pub fn get_audio_size(&self) -> (r: usize)
        requires
            self.spec_audio_size() <= usize::MAX,
        ensures
            r == self.spec_audio_size(),
    {
        if self.frames.len() == 0 {
            0
        } else {
            let frame_size = {
                let f = &self.frames[0];
                proof {
                    assert(f.spec_audio_size() <= self.frames@.len() * f.spec_audio_size())
                        by (nonlinear_arith)
                        requires self.frames@.len() >= 1;
                }
                f.get_audio_size()
            };
            self.frames.len() * frame_size
        }
    }

    /// Runtime check for the shape invariant [`PCM::wf`], for callers that
    /// assembled a signal from unchecked parts.
    pub fn is_well_formed(&self) -> (r: bool)
        ensures
            r == self.wf(),
    {
        if self.parameters.nb_channels == 0 {
            return false;
        }
        let n = self.frames.len();
        let mut i: usize = 0;
        while i < n
            invariant
                0 <= i <= n,
                n == self.frames@.len(),
                self.parameters.nb_channels >= 1,
                forall|k: int|
                    0 <= k < i ==> (#[trigger] self.frames@[k]).samples@.len()
                        == self.parameters.nb_channels as int,
                forall|k: int, j: int|
                    0 <= k < i && 0 <= j < self.frames@[k].samples@.len() ==> (
                    #[trigger] self.frames@[k].samples@[j]).same_variant(
                        self.parameters.sample_type,
                    ),
            decreases n - i,
        {
            let frame = &self.frames[i];
            if frame.samples.len() != self.parameters.nb_channels as usize {
                return false;
            }
            let m = frame.samples.len();
            let mut j: usize = 0;
            while j < m
                invariant
                    0 <= j <= m,
                    0 <= i < n,
                    n == self.frames@.len(),
                    m == self.frames@[i as int].samples@.len(),
                    frame == self.frames@[i as int],
                    forall|l: int|
                        0 <= l < j ==> (#[trigger] frame.samples@[l]).same_variant(
                            self.parameters.sample_type,
                        ),
                decreases m - j,
            {
                if !frame.samples[j].same_variant_exec(&self.parameters.sample_type) {
                    return false;
                }
                j += 1;
            }
            i += 1;
        }
        true
    }
}

impl Sample {
    /// Runtime check for [`Sample::has_raw_codec`].
    pub fn supports_raw_codec(&self) -> (r: bool)
        ensures
            r == self.has_raw_codec(),
    {
        match self {
            Sample::Unsigned8bits(_) => true,
            Sample::Signed16bits(_) => true,
            _ => false,
        }
    }

    /// Runtime check for [`Sample::same_variant`].
    pub fn same_variant_exec(&self, other: &Sample) -> (r: bool)
        ensures
            r == self.same_variant(*other),
    {
        match (self, other) {
            (Sample::Unsigned8bits(_), Sample::Unsigned8bits(_)) => true,
            (Sample::Signed16bits(_), Sample::Signed16bits(_)) => true,
            (Sample::Signed24bits(_), Sample::Signed24bits(_)) => true,
            (Sample::Signed32bits(_), Sample::Signed32bits(_)) => true,
            (Sample::MicrosoftADPCM(_), Sample::MicrosoftADPCM(_)) => true,
            (Sample::Float(_), Sample::Float(_)) => true,
            (Sample::DoubleFloat(_), Sample::DoubleFloat(_)) => true,
            (Sample::ImaADPCM(_), Sample::ImaADPCM(_)) => true,
            _ => false,
        }
    }
}

} // verus!
