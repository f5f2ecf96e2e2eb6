use vstd::prelude::*;

use crate::error::{PCMError, WaveTag};
use crate::wire::{
    i16_to_u16, le_bytes_u16, le_bytes_u32, u16_from_le, u16_to_i16, u32_from_le,
};
use crate::{Frame, PCM, PCMParameters, Sample};

verus! {

/// The tag opening the outermost chunk: the ASCII bytes `RIFF`.
pub open spec fn riff_tag() -> Seq<u8> {
    seq![82u8, 73u8, 70u8, 70u8]
}

/// The container format tag, right after the overall chunk size: the ASCII
/// bytes `WAVE`.
pub open spec fn wave_tag() -> Seq<u8> {
    seq![87u8, 65u8, 86u8, 69u8]
}

/// The tag opening the format sub-chunk: the ASCII bytes `fmt ` with the
/// significant trailing space.
pub open spec fn fmt_tag() -> Seq<u8> {
    seq![102u8, 109u8, 116u8, 32u8]
}

/// The tag opening the sample payload sub-chunk: the ASCII bytes `data`.
pub open spec fn data_tag() -> Seq<u8> {
    seq![100u8, 97u8, 116u8, 97u8]
}

/// The tag opening the frame-count sub-chunk that non-integer-PCM formats
/// require: the ASCII bytes `fact`.
pub open spec fn fact_tag() -> Seq<u8> {
    seq![102u8, 97u8, 99u8, 116u8]
}

/// Four consecutive bytes of a stream, as a tag.
pub open spec fn tag_at(b: Seq<u8>, pos: int) -> Seq<u8> {
    b.subrange(pos, pos + 4)
}

/// The 16-bit little-endian field starting at a byte offset.
pub open spec fn u16_at(b: Seq<u8>, pos: int) -> u16 {
    u16_from_le(b[pos], b[pos + 1])
}

/// The 32-bit little-endian field starting at a byte offset.
pub open spec fn u32_at(b: Seq<u8>, pos: int) -> u32 {
    u32_from_le(b[pos], b[pos + 1], b[pos + 2], b[pos + 3])
}

/// The resolver table: which sample representation a (format code,
/// bits-per-sample) pair from a Wave header denotes, or which error rejects
/// it.  The ADPCM formats are recognized but rejected for every bit width,
/// since their decoders are placeholders.
pub open spec fn resolve_format_bps(format: u16, bits_per_sample: u16) -> Result<
    Sample,
    PCMError,
> {
    if format == 1 {
        if bits_per_sample == 8 {
            Ok(Sample::Unsigned8bits(0u8))
        } else if bits_per_sample == 16 {
            Ok(Sample::Signed16bits(0i16))
        } else if bits_per_sample == 32 {
            Ok(Sample::Signed32bits(0i32))
        } else {
            Err(PCMError::UnknownBitsPerSample(bits_per_sample))
        }
    } else if format == 2 {
        Err(PCMError::UnknownBitsPerSample(bits_per_sample))
    } else if format == 3 {
        if bits_per_sample == 32 {
            Ok(Sample::Float(0u32))
        } else if bits_per_sample == 64 {
            Ok(Sample::DoubleFloat(0u64))
        } else {
            Err(PCMError::UnknownBitsPerSample(bits_per_sample))
        }
    } else if format == 17 {
        Err(PCMError::UnknownBitsPerSample(bits_per_sample))
    } else {
        Err(PCMError::UnknownFormat(format))
    }
}

/// What a successfully parsed WAVE container denotes: the signal parameters
/// and the decoded frames, each frame one sample per channel.
pub struct WaveContents {
    /// Number of samples per second.
    pub sample_rate: u32,
    /// Number of samples per frame.
    pub nb_channels: u16,
    /// The resolved sample representation, with a zero payload.
    pub sample_type: Sample,
    /// The decoded frames, in stream order.
    pub frames: Seq<Seq<Sample>>,
}

/// The wire bytes of one sample.  Only the representations with an
/// implemented raw codec encode to bytes; the others are never emitted.
pub open spec fn sample_wire_bytes(s: Sample) -> Seq<u8> {
    match s {
        Sample::Unsigned8bits(v) => seq![v],
        Sample::Signed16bits(v) => le_bytes_u16(i16_to_u16(v)),
        _ => Seq::<u8>::empty(),
    }
}

/// The wire bytes of one frame: its samples one after the other.
pub open spec fn frame_payload(samples: Seq<Sample>) -> Seq<u8>
    decreases samples.len(),
{
    if samples.len() == 0 {
        Seq::<u8>::empty()
    } else {
        sample_wire_bytes(samples[0]) + frame_payload(samples.skip(1))
    }
}

/// The wire bytes of a whole signal: its frames one after the other,
/// frame-major, channel-minor.
pub open spec fn frames_payload(frames: Seq<Seq<Sample>>) -> Seq<u8>
    decreases frames.len(),
{
    if frames.len() == 0 {
        Seq::<u8>::empty()
    } else {
        frame_payload(frames[0]) + frames_payload(frames.skip(1))
    }
}

/// The sample read from the front of a payload, for a representation with a
/// raw codec.  For any other representation the zero-payload sample itself is
/// returned; the parser never reaches this case.
pub open spec fn decode_sample(data: Seq<u8>, kind: Sample) -> Sample {
    match kind {
        Sample::Unsigned8bits(_) => Sample::Unsigned8bits(data[0]),
        Sample::Signed16bits(_) => Sample::Signed16bits(u16_to_i16(u16_from_le(data[0], data[1]))),
        _ => kind,
    }
}

/// The given number of samples read from the front of a payload.
pub open spec fn decode_frame(data: Seq<u8>, kind: Sample, channels: nat) -> Seq<Sample>
    decreases channels,
{
    if channels == 0 {
        Seq::<Sample>::empty()
    } else {
        seq![decode_sample(data, kind)] + decode_frame(
            data.skip(kind.spec_byte_size() as int),
            kind,
            (channels - 1) as nat,
        )
    }
}

/// The given number of frames read from the front of a payload.
pub open spec fn decode_frames(data: Seq<u8>, kind: Sample, channels: nat, n: nat) -> Seq<
    Seq<Sample>,
>
    decreases n,
{
    if n == 0 {
        Seq::<Seq<Sample>>::empty()
    } else {
        seq![decode_frame(data, kind, channels)] + decode_frames(
            data.skip(channels as int * kind.spec_byte_size() as int),
            kind,
            channels,
            (n - 1) as nat,
        )
    }
}

/// What any byte stream denotes to the reader.  The reader walks the
/// container in strict sequential order with no backtracking: each fixed tag
/// is verified in turn, the `fmt ` fields sit at fixed offsets because the
/// declared sub-chunk sizes are read but not used to bound parsing, and the
/// payload is cut into whole frames, silently dropping a trailing partial
/// frame.
pub open spec fn parse_wave(b: Seq<u8>) -> Result<WaveContents, PCMError> {
    if b.len() < 4 {
        Err(PCMError::UnexpectedEndOfData)
    } else if tag_at(b, 0) != riff_tag() {
        Err(PCMError::WrongMagicNumber(WaveTag::Riff))
    } else if b.len() < 12 {
        Err(PCMError::UnexpectedEndOfData)
    } else if tag_at(b, 8) != wave_tag() {
        Err(PCMError::WrongMagicNumber(WaveTag::Wave))
    } else if b.len() < 16 {
        Err(PCMError::UnexpectedEndOfData)
    } else if tag_at(b, 12) != fmt_tag() {
        Err(PCMError::WrongMagicNumber(WaveTag::Fmt))
    } else if b.len() < 36 {
        Err(PCMError::UnexpectedEndOfData)
    } else {
        let format = u16_at(b, 20);
        let nb_channels = u16_at(b, 22);
        let sample_rate = u32_at(b, 24);
        let bits_per_sample = u16_at(b, 34);
        match resolve_format_bps(format, bits_per_sample) {
            Err(e) => Err(e),
            Ok(sample_type) => {
                if b.len() < 40 {
                    Err(PCMError::UnexpectedEndOfData)
                } else if tag_at(b, 36) != data_tag() {
                    Err(PCMError::WrongMagicNumber(WaveTag::Data))
                } else if b.len() < 44 {
                    Err(PCMError::UnexpectedEndOfData)
                } else {
                    let data_size = u32_at(b, 40);
                    if (b.len() as int) < 44 + data_size as int {
                        Err(PCMError::UnexpectedEndOfData)
                    } else if nb_channels == 0 {
                        Err(PCMError::ZeroChannels)
                    } else {
                        let frame_size = (nb_channels as nat) * (
                        sample_type.spec_byte_size() as nat);
                        let n = (data_size as nat) / frame_size;
                        if n > 0 && !sample_type.has_raw_codec() {
                            Err(PCMError::UnimplementedSampleRepresentation)
                        } else {
                            Ok(
                                WaveContents {
                                    sample_rate,
                                    nb_channels,
                                    sample_type,
                                    frames: decode_frames(
                                        b.subrange(44, 44 + data_size as int),
                                        sample_type,
                                        nb_channels as nat,
                                        n,
                                    ),
                                },
                            )
                        }
                    }
                }
            },
        }
    }
}

/// Samples that all share one representation with a raw codec encode to one
/// sample width each.
pub proof fn lemma_frame_payload_len(samples: Seq<Sample>, kind: Sample)
    requires
        kind.has_raw_codec(),
        forall|j: int| 0 <= j < samples.len() ==> (#[trigger] samples[j]).same_variant(kind),
    ensures
        frame_payload(samples).len() == samples.len() * kind.spec_byte_size(),
    decreases samples.len(),
{
    if samples.len() == 0 {
    } else {
        assert(samples[0].same_variant(kind));
        assert(forall|j: int|
            0 <= j < samples.skip(1).len() ==> (#[trigger] samples.skip(1)[j]).same_variant(kind));
        lemma_frame_payload_len(samples.skip(1), kind);
        assert((samples.len() - 1) * kind.spec_byte_size() + kind.spec_byte_size() == samples.len()
            * kind.spec_byte_size()) by (nonlinear_arith);
    }
}

/// Frames of one channel count, all in one representation with a raw codec,
/// encode to one frame width each.
pub proof fn lemma_frames_payload_len(frames: Seq<Seq<Sample>>, kind: Sample, channels: nat)
    requires
        kind.has_raw_codec(),
        forall|i: int| 0 <= i < frames.len() ==> (#[trigger] frames[i]).len() == channels,
        forall|i: int, j: int|
            0 <= i < frames.len() && 0 <= j < frames[i].len() ==> (
            #[trigger] frames[i][j]).same_variant(kind),
    ensures
        frames_payload(frames).len() == frames.len() * (channels * kind.spec_byte_size()),
    decreases frames.len(),
{
    if frames.len() == 0 {
    } else {
        lemma_frame_payload_len(frames[0], kind);
        assert(forall|i: int|
            0 <= i < frames.skip(1).len() ==> (#[trigger] frames.skip(1)[i]).len() == channels);
        assert(forall|i: int, j: int|
            0 <= i < frames.skip(1).len() && 0 <= j < frames.skip(1)[i].len() ==> (
            #[trigger] frames.skip(1)[i][j]).same_variant(kind));
        lemma_frames_payload_len(frames.skip(1), kind, channels);
        assert((frames.len() - 1) * (channels * kind.spec_byte_size()) + channels
            * kind.spec_byte_size() == frames.len() * (channels * kind.spec_byte_size()))
            by (nonlinear_arith);
    }
}

/// Appending a sample to a frame appends its wire bytes to the frame's
/// payload.
pub proof fn lemma_frame_payload_push(samples: Seq<Sample>, x: Sample)
    ensures
        frame_payload(samples.push(x)) == frame_payload(samples) + sample_wire_bytes(x),
    decreases samples.len(),
{
    if samples.len() == 0 {
        let e = samples.push(x).skip(1);
        assert(e =~= Seq::<Sample>::empty());
        assert(frame_payload(e) == Seq::<u8>::empty());
        assert(samples.push(x)[0] == x);
        assert(frame_payload(samples.push(x)) =~= frame_payload(samples) + sample_wire_bytes(x));
    } else {
        assert(samples.push(x).skip(1) =~= samples.skip(1).push(x));
        lemma_frame_payload_push(samples.skip(1), x);
        assert(samples.push(x)[0] == samples[0]);
        assert(frame_payload(samples.push(x)) == sample_wire_bytes(samples[0]) + frame_payload(
            samples.skip(1).push(x),
        ));
        assert(frame_payload(samples) == sample_wire_bytes(samples[0]) + frame_payload(
            samples.skip(1),
        ));
        assert(frame_payload(samples.push(x)) =~= frame_payload(samples) + sample_wire_bytes(x));
    }
}

/// Appending a frame to a signal appends its payload to the signal's
/// payload.
pub proof fn lemma_frames_payload_push(frames: Seq<Seq<Sample>>, f: Seq<Sample>)
    ensures
        frames_payload(frames.push(f)) == frames_payload(frames) + frame_payload(f),
    decreases frames.len(),
{
    if frames.len() == 0 {
        let e = frames.push(f).skip(1);
        assert(e =~= Seq::<Seq<Sample>>::empty());
        assert(frames_payload(e) == Seq::<u8>::empty());
        assert(frames.push(f)[0] == f);
        assert(frames_payload(frames.push(f)) =~= frames_payload(frames) + frame_payload(f));
    } else {
        assert(frames.push(f).skip(1) =~= frames.skip(1).push(f));
        lemma_frames_payload_push(frames.skip(1), f);
        assert(frames.push(f)[0] == frames[0]);
        assert(frames_payload(frames.push(f)) == frame_payload(frames[0]) + frames_payload(
            frames.skip(1).push(f),
        ));
        assert(frames_payload(frames) == frame_payload(frames[0]) + frames_payload(
            frames.skip(1),
        ));
        assert(frames_payload(frames.push(f)) =~= frames_payload(frames) + frame_payload(f));
    }
}

/// Decoding one more sample appends the sample read right behind the ones
/// already decoded.
pub proof fn lemma_decode_frame_snoc(data: Seq<u8>, kind: Sample, j: nat)
    requires
        (j + 1) * (kind.spec_byte_size() as nat) <= data.len(),
    ensures
        decode_frame(data, kind, j + 1) == decode_frame(data, kind, j).push(
            decode_sample(data.skip(j as int * kind.spec_byte_size() as int), kind),
        ),
    decreases j,
{
    let w = kind.spec_byte_size() as int;
    if j == 0 {
        assert(data.skip(0) =~= data);
        assert(decode_frame(data.skip(w), kind, 0) == Seq::<Sample>::empty());
        assert(decode_frame(data, kind, 1) == seq![decode_sample(data, kind)] + Seq::<
            Sample,
        >::empty());
        assert(decode_frame(data, kind, 1) =~= decode_frame(data, kind, 0).push(
            decode_sample(data, kind),
        ));
    } else {
        assert((j + 1) * w == j * w + w && j * w == (j - 1) * w + w) by (nonlinear_arith);
        lemma_decode_frame_snoc(data.skip(w), kind, (j - 1) as nat);
        assert(data.skip(w).skip((j - 1) * w) =~= data.skip(j * w));
        assert(decode_frame(data, kind, j + 1) == seq![decode_sample(data, kind)] + decode_frame(
            data.skip(w),
            kind,
            j,
        ));
        assert(decode_frame(data, kind, j) == seq![decode_sample(data, kind)] + decode_frame(
            data.skip(w),
            kind,
            (j - 1) as nat,
        ));
        assert(decode_frame(data, kind, j + 1) =~= decode_frame(data, kind, j).push(
            decode_sample(data.skip(j * w), kind),
        ));
    }
}

/// Decoding one more frame appends the frame read right behind the ones
/// already decoded.
pub proof fn lemma_decode_frames_snoc(data: Seq<u8>, kind: Sample, channels: nat, i: nat)
    requires
        (i + 1) * (channels * kind.spec_byte_size() as nat) <= data.len(),
    ensures
        decode_frames(data, kind, channels, i + 1) == decode_frames(data, kind, channels, i).push(
            decode_frame(
                data.skip(i as int * (channels * kind.spec_byte_size() as nat) as int),
                kind,
                channels,
            ),
        ),
    decreases i,
{
    let fbs = (channels * kind.spec_byte_size() as nat) as int;
    if i == 0 {
        assert(data.skip(0) =~= data);
        assert(decode_frames(data.skip(fbs), kind, channels, 0) == Seq::<Seq<Sample>>::empty());
        assert(decode_frames(data, kind, channels, 1) == seq![decode_frame(data, kind, channels)]
            + Seq::<Seq<Sample>>::empty());
        assert(decode_frames(data, kind, channels, 1) =~= decode_frames(
            data,
            kind,
            channels,
            0,
        ).push(decode_frame(data, kind, channels)));
    } else {
        assert((i + 1) * fbs == i * fbs + fbs && i * fbs == (i - 1) * fbs + fbs)
            by (nonlinear_arith);
        lemma_decode_frames_snoc(data.skip(fbs), kind, channels, (i - 1) as nat);
        assert(data.skip(fbs).skip((i - 1) * fbs) =~= data.skip(i * fbs));
        assert(decode_frames(data, kind, channels, i + 1) == seq![
            decode_frame(data, kind, channels),
        ] + decode_frames(data.skip(fbs), kind, channels, i));
        assert(decode_frames(data, kind, channels, i) == seq![decode_frame(data, kind, channels)]
            + decode_frames(data.skip(fbs), kind, channels, (i - 1) as nat));
        assert(decode_frames(data, kind, channels, i + 1) =~= decode_frames(
            data,
            kind,
            channels,
            i,
        ).push(decode_frame(data.skip(i * fbs), kind, channels)));
    }
}

/// Decoding the payload of a frame gives the frame back, whatever bytes
/// follow the payload.
pub proof fn lemma_decode_frame_of_payload(samples: Seq<Sample>, kind: Sample, rest: Seq<u8>)
    requires
        kind.has_raw_codec(),
        forall|j: int| 0 <= j < samples.len() ==> (#[trigger] samples[j]).same_variant(kind),
    ensures
        decode_frame(frame_payload(samples) + rest, kind, samples.len()) == samples,
    decreases samples.len(),
{
    if samples.len() == 0 {
        assert(decode_frame(frame_payload(samples) + rest, kind, 0) =~= samples);
    } else {
        let w = kind.spec_byte_size() as int;
        let data = frame_payload(samples) + rest;
        assert(samples[0].same_variant(kind));
        if kind is Signed16bits {
            let v = samples[0]->Signed16bits_0;
            crate::wire::lemma_u16_le_roundtrip(i16_to_u16(v));
            crate::wire::lemma_i16_u16_roundtrip(v);
        }
        assert(decode_sample(data, kind) == samples[0]);
        assert(forall|j: int|
            0 <= j < samples.skip(1).len() ==> (#[trigger] samples.skip(1)[j]).same_variant(kind));
        assert(data.skip(w) =~= frame_payload(samples.skip(1)) + rest);
        lemma_decode_frame_of_payload(samples.skip(1), kind, rest);
        assert(decode_frame(data, kind, samples.len()) =~= samples);
    }
}

/// Decoding the payload of a whole signal gives its frames back.
pub proof fn lemma_decode_frames_of_payload(frames: Seq<Seq<Sample>>, kind: Sample, channels: nat)
    requires
        kind.has_raw_codec(),
        forall|i: int| 0 <= i < frames.len() ==> (#[trigger] frames[i]).len() == channels,
        forall|i: int, j: int|
            0 <= i < frames.len() && 0 <= j < frames[i].len() ==> (
            #[trigger] frames[i][j]).same_variant(kind),
    ensures
        decode_frames(frames_payload(frames), kind, channels, frames.len()) == frames,
    decreases frames.len(),
{
    if frames.len() == 0 {
        assert(decode_frames(frames_payload(frames), kind, channels, 0) =~= frames);
    } else {
        let data = frames_payload(frames);
        let fbs = (channels * kind.spec_byte_size() as nat) as int;
        assert(data == frame_payload(frames[0]) + frames_payload(frames.skip(1)));
        lemma_frame_payload_len(frames[0], kind);
        lemma_decode_frame_of_payload(frames[0], kind, frames_payload(frames.skip(1)));
        assert(decode_frame(data, kind, channels) == frames[0]);
        assert(data.skip(fbs) =~= frames_payload(frames.skip(1)));
        assert(forall|i: int|
            0 <= i < frames.skip(1).len() ==> (#[trigger] frames.skip(1)[i]).len() == channels);
        assert(forall|i: int, j: int|
            0 <= i < frames.skip(1).len() && 0 <= j < frames.skip(1)[i].len() ==> (
            #[trigger] frames.skip(1)[i][j]).same_variant(kind));
        lemma_decode_frames_of_payload(frames.skip(1), kind, channels);
        assert(decode_frames(data, kind, channels, frames.len()) =~= frames);
    }
}

/// The byte size of one frame, as the parameters declare it.
pub open spec fn spec_frame_byte_size(p: PCMParameters) -> nat {
    (p.nb_channels as nat) * (p.sample_type.spec_byte_size() as nat)
}

/// The byte size of the whole sample payload, as the parameters declare it.
pub open spec fn spec_data_size(pcm: PCM) -> nat {
    pcm.frames@.len() * spec_frame_byte_size(pcm.parameters)
}

/// The frames of a signal, seen abstractly as sequences of samples.
pub open spec fn pcm_frames_model(pcm: PCM) -> Seq<Seq<Sample>> {
    pcm.frames@.map_values(|f: Frame| f.samples@)
}

/// Whether the derived header fields fit their wire encodings: the block
/// alignment must fit 16 bits and the byte rate 32 bits.
pub open spec fn fits_wave_header(p: PCMParameters) -> bool {
    &&& (p.nb_channels as int) * (p.sample_type.spec_byte_size() as int) <= u16::MAX
    &&& (p.sample_rate as int) * (p.nb_channels as int) * (p.sample_type.spec_byte_size() as int)
        <= u32::MAX
}

/// A payload size clamped into `usize`, for an error field.
pub open spec fn saturated_usize(n: nat) -> usize {
    if n > usize::MAX {
        usize::MAX
    } else {
        n as usize
    }
}

/// Whether every sample of a signal is in a representation with a raw codec,
/// so that the whole payload can be emitted.
pub open spec fn all_samples_have_codec(frames: Seq<Seq<Sample>>) -> bool {
    forall|i: int, j: int|
        0 <= i < frames.len() && 0 <= j < frames[i].len() ==> (
        #[trigger] frames[i][j]).has_raw_codec()
}

/// Whether a decoded signal carries exactly what a parsed container denotes.
/// Loop information is not part of the container, so it is not constrained
/// here.
pub open spec fn pcm_matches_contents(pcm: PCM, w: WaveContents) -> bool {
    &&& pcm.parameters.sample_rate == w.sample_rate
    &&& pcm.parameters.nb_channels == w.nb_channels
    &&& pcm.parameters.sample_type == w.sample_type
    &&& pcm_frames_model(pcm) == w.frames
}

/// Which error, if any, stops the writer, in the order the checks are made:
/// a payload too large for the 32-bit size field; a representation whose
/// `fmt ` chunk would need extension bytes the writer cannot emit; a payload
/// that fits its own size field but would push the enclosing chunk's size
/// past 32 bits once the chunk overheads are added (checked arithmetic,
/// rather than letting the outer size field wrap); a frame count too large
/// for the `fact` chunk, checked only when that chunk is written; and a
/// nonempty payload in a representation without a raw codec.
pub open spec fn export_check(pcm: PCM) -> Option<PCMError> {
    let ds = spec_data_size(pcm);
    let fact_len: nat = if pcm.parameters.sample_type.spec_best_wave_format() != 1 {
        12
    } else {
        0
    };
    if ds > u32::MAX {
        Some(PCMError::TooMuchData(saturated_usize(ds)))
    } else if pcm.parameters.sample_type.spec_format_chunk_extra_size() != 0 {
        Some(PCMError::UnimplementedSampleRepresentation)
    } else if 36 + fact_len + ds > u32::MAX {
        Some(PCMError::TooMuchData(ds as usize))
    } else if pcm.parameters.sample_type.spec_best_wave_format() != 1 && pcm.frames@.len()
        > u32::MAX {
        Some(PCMError::TooManyFrames(pcm.frames@.len() as usize))
    } else if pcm.frames@.len() > 0 && !pcm.parameters.sample_type.has_raw_codec() {
        Some(PCMError::UnimplementedSampleRepresentation)
    } else {
        None
    }
}

/// The byte image of a signal in the WAVE container format, exactly as the
/// writer emits it when no check stops it.
pub open spec fn wave_bytes(pcm: PCM) -> Seq<u8> {
    let p = pcm.parameters;
    let block_align = spec_frame_byte_size(p);
    let data_size = spec_data_size(pcm);
    let byte_rate = (p.sample_rate as nat) * block_align;
    let fact = if p.sample_type.spec_best_wave_format() != 1 {
        fact_tag() + le_bytes_u32(4) + le_bytes_u32(pcm.frames@.len() as u32)
    } else {
        Seq::<u8>::empty()
    };
    riff_tag() + le_bytes_u32((36 + fact.len() + data_size) as u32) + wave_tag() + fmt_tag()
        + le_bytes_u32((16 + p.sample_type.spec_format_chunk_extra_size()) as u32) + le_bytes_u16(
        p.sample_type.spec_best_wave_format(),
    ) + le_bytes_u16(p.nb_channels) + le_bytes_u32(p.sample_rate) + le_bytes_u32(byte_rate as u32)
        + le_bytes_u16(block_align as u16) + le_bytes_u16(p.sample_type.spec_binary_size()) + fact
        + data_tag() + le_bytes_u32(data_size as u32) + frames_payload(pcm_frames_model(pcm))
}

} // verus!
