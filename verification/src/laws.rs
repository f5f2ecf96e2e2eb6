use vstd::arithmetic::div_mod::{lemma_div_multiples_vanish, lemma_div_of0};
use vstd::prelude::*;

use crate::error::{PCMError, WaveTag};
use crate::wave_format::{
    data_tag, decode_frames, export_check, fact_tag, fits_wave_header, fmt_tag, frames_payload,
    lemma_decode_frames_of_payload, lemma_frames_payload_len, parse_wave, pcm_frames_model,
    resolve_format_bps, riff_tag, spec_data_size, spec_frame_byte_size, tag_at, u16_at, u32_at,
    wave_bytes, wave_tag, WaveContents,
};
use crate::wire::{
    le_bytes_u16, le_bytes_u32, lemma_u16_le_roundtrip, lemma_u32_le_roundtrip,
};
use crate::PCM;

verus! {

/// Exporting a well-formed signal whose representation has a raw codec and
/// re-reading the bytes gives back the same sample rate, the same channel
/// count, the same representation, and the very same sample values in the
/// same order.  Loop information is not part of the container, so the reader
/// starts from none; and the representation comes back as the resolver's
/// zero-payload witness of the same variant.
pub proof fn lemma_export_import_roundtrip(pcm: PCM)
    requires
        pcm.wf(),
        pcm.parameters.sample_type.has_raw_codec(),
        export_check(pcm) is None,
    ensures
        parse_wave(wave_bytes(pcm)) matches Ok(c) && {
            &&& c.sample_rate == pcm.parameters.sample_rate
            &&& c.nb_channels == pcm.parameters.nb_channels
            &&& c.sample_type.same_variant(pcm.parameters.sample_type)
            &&& c.frames == pcm_frames_model(pcm)
        },
{
    let p = pcm.parameters;
    let kind = p.sample_type;
    let ch = p.nb_channels as nat;
    let w = kind.spec_byte_size() as nat;
    let ff = pcm_frames_model(pcm);
    let b = wave_bytes(pcm);
    let payload = frames_payload(ff);
    let ds = spec_data_size(pcm);
    let bits = kind.spec_binary_size();

    assert(kind.spec_best_wave_format() == 1);
    assert(w == 1 || w == 2);
    assert forall|i: int| 0 <= i < ff.len() implies (#[trigger] ff[i]).len() == ch by {
        assert(pcm.frames@[i].samples@.len() == p.nb_channels as int);
    };
    assert forall|i: int, j: int|
        0 <= i < ff.len() && 0 <= j < ff[i].len() implies (#[trigger] ff[i][j]).same_variant(
        kind,
    ) by {
        assert(pcm.frames@[i].samples@[j].same_variant(kind));
    };
    lemma_frames_payload_len(ff, kind, ch);
    assert(payload.len() == ds);
    assert(ds <= u32::MAX);

    let byte_rate = (p.sample_rate as nat) * spec_frame_byte_size(p);
    assert(b =~= riff_tag() + le_bytes_u32((36 + ds) as u32) + wave_tag() + fmt_tag()
        + le_bytes_u32(16) + le_bytes_u16(1) + le_bytes_u16(p.nb_channels) + le_bytes_u32(
        p.sample_rate,
    ) + le_bytes_u32(byte_rate as u32) + le_bytes_u16(spec_frame_byte_size(p) as u16)
        + le_bytes_u16(bits) + data_tag() + le_bytes_u32(ds as u32) + payload);
    assert(b.len() == 44 + ds);

    assert(b.subrange(0, 4) =~= riff_tag());
    assert(b.subrange(8, 12) =~= wave_tag());
    assert(b.subrange(12, 16) =~= fmt_tag());
    assert(b.subrange(36, 40) =~= data_tag());

    assert(b[20] == le_bytes_u16(1)[0] && b[21] == le_bytes_u16(1)[1]);
    lemma_u16_le_roundtrip(1);
    assert(u16_at(b, 20) == 1);
    assert(b[22] == le_bytes_u16(p.nb_channels)[0] && b[23] == le_bytes_u16(p.nb_channels)[1]);
    lemma_u16_le_roundtrip(p.nb_channels);
    assert(u16_at(b, 22) == p.nb_channels);
    assert(b[24] == le_bytes_u32(p.sample_rate)[0] && b[25] == le_bytes_u32(p.sample_rate)[1]
        && b[26] == le_bytes_u32(p.sample_rate)[2] && b[27] == le_bytes_u32(p.sample_rate)[3]);
    lemma_u32_le_roundtrip(p.sample_rate);
    assert(u32_at(b, 24) == p.sample_rate);
    assert(b[34] == le_bytes_u16(bits)[0] && b[35] == le_bytes_u16(bits)[1]);
    lemma_u16_le_roundtrip(bits);
    assert(u16_at(b, 34) == bits);
    let ds32 = ds as u32;
    assert(b[40] == le_bytes_u32(ds32)[0] && b[41] == le_bytes_u32(ds32)[1] && b[42]
        == le_bytes_u32(ds32)[2] && b[43] == le_bytes_u32(ds32)[3]);
    lemma_u32_le_roundtrip(ds32);
    assert(u32_at(b, 40) == ds32);

    assert(resolve_format_bps(1, bits) is Ok);
    let rkind = resolve_format_bps(1, bits)->Ok_0;
    assert(rkind.same_variant(kind));
    assert(rkind.spec_byte_size() == kind.spec_byte_size());

    assert(b.subrange(44, 44 + ds as int) =~= payload);

    let fs = ch * w;
    assert(fs >= 1) by (nonlinear_arith)
        requires
            ch >= 1,
            w >= 1,
            fs == ch * w,
    ;
    assert(ds == fs * ff.len()) by (nonlinear_arith)
        requires
            ds == ff.len() * fs,
    ;
    lemma_div_multiples_vanish(ff.len() as int, fs as int);
    assert((ds32 as nat) / ((u16_at(b, 22) as nat) * (rkind.spec_byte_size() as nat)) == ff.len());

    assert forall|i: int, j: int|
        0 <= i < ff.len() && 0 <= j < ff[i].len() implies (#[trigger] ff[i][j]).same_variant(
        rkind,
    ) by {
        assert(ff[i][j].same_variant(kind));
    };
    lemma_decode_frames_of_payload(ff, rkind, ch);
    assert(decode_frames(payload, rkind, ch, ff.len()) == ff);
    assert(decode_frames(b.subrange(44, 44 + ds32 as int), rkind, ch, ff.len()) == ff);

    assert(parse_wave(b) matches Ok(c) && {
        &&& c.sample_rate == p.sample_rate
        &&& c.nb_channels == p.nb_channels
        &&& c.sample_type.same_variant(kind)
        &&& c.frames == ff
    });
}

/// In every exported header the byte rate equals sample rate times channel
/// count times bytes per sample, and the block alignment equals channel
/// count times bytes per sample.
pub proof fn lemma_exported_header_arithmetic(pcm: PCM)
    requires
        fits_wave_header(pcm.parameters),
    ensures
        u32_at(wave_bytes(pcm), 28) as int == (pcm.parameters.sample_rate as int) * (
        pcm.parameters.nb_channels as int) * (pcm.parameters.sample_type.spec_byte_size() as int),
        u16_at(wave_bytes(pcm), 32) as int == (pcm.parameters.nb_channels as int) * (
        pcm.parameters.sample_type.spec_byte_size() as int),
{
    let p = pcm.parameters;
    let b = wave_bytes(pcm);
    let block = spec_frame_byte_size(p);
    let byte_rate = (p.sample_rate as nat) * block;
    assert((p.sample_rate as int) * ((p.nb_channels as int) * (p.sample_type.spec_byte_size()
        as int)) == (p.sample_rate as int) * (p.nb_channels as int) * (
    p.sample_type.spec_byte_size() as int)) by (nonlinear_arith);
    assert(byte_rate <= u32::MAX);
    assert(block <= u16::MAX);
    let br32 = byte_rate as u32;
    let ba16 = block as u16;
    assert(b[28] == le_bytes_u32(br32)[0] && b[29] == le_bytes_u32(br32)[1] && b[30]
        == le_bytes_u32(br32)[2] && b[31] == le_bytes_u32(br32)[3]);
    lemma_u32_le_roundtrip(br32);
    assert(u32_at(b, 28) == br32);
    assert(b[32] == le_bytes_u16(ba16)[0] && b[33] == le_bytes_u16(ba16)[1]);
    lemma_u16_le_roundtrip(ba16);
    assert(u16_at(b, 32) == ba16);
}

/// An exported container carries a `fact` chunk exactly when the sample
/// representation's best-fit format code is not integer PCM: where none is
/// needed the `data` tag stands at that position instead.
pub proof fn lemma_fact_chunk_presence(pcm: PCM)
    ensures
        pcm.parameters.sample_type.spec_best_wave_format() != 1 <==> tag_at(wave_bytes(pcm), 36)
            == fact_tag(),
{
    let b = wave_bytes(pcm);
    if pcm.parameters.sample_type.spec_best_wave_format() != 1 {
        assert(b.subrange(36, 40) =~= fact_tag());
    } else {
        assert(b.subrange(36, 40) =~= data_tag());
        if tag_at(b, 36) == fact_tag() {
            assert(data_tag()[0] == fact_tag()[0]);
            assert(false);
        }
    }
}

/// A container whose header resolves and whose `data` sub-chunk declares
/// size zero parses successfully into a signal with zero frames: an empty
/// payload is not an error.
pub proof fn lemma_zero_data_size_gives_zero_frames(b: Seq<u8>)
    requires
        b.len() >= 44,
        tag_at(b, 0) == riff_tag(),
        tag_at(b, 8) == wave_tag(),
        tag_at(b, 12) == fmt_tag(),
        tag_at(b, 36) == data_tag(),
        resolve_format_bps(u16_at(b, 20), u16_at(b, 34)) is Ok,
        u16_at(b, 22) != 0,
        u32_at(b, 40) == 0,
    ensures
        parse_wave(b) matches Ok(c) && c.frames.len() == 0,
{
    let kind = resolve_format_bps(u16_at(b, 20), u16_at(b, 34))->Ok_0;
    let fs = (u16_at(b, 22) as nat) * (kind.spec_byte_size() as nat);
    assert(kind.spec_byte_size() >= 1);
    assert(fs >= 1) by (nonlinear_arith)
        requires
            u16_at(b, 22) >= 1,
            kind.spec_byte_size() >= 1,
            fs == (u16_at(b, 22) as nat) * (kind.spec_byte_size() as nat),
    ;
    lemma_div_of0(fs as int);
    assert((0 as nat) / fs == 0);
    assert(decode_frames(b.subrange(44, 44), kind, u16_at(b, 22) as nat, 0).len() == 0);
}

/// Corrupting any of the four fixed tags makes the reader fail with the
/// mismatch error naming exactly that tag, never a downstream misparse:
/// each tag is checked at its own position, in container order.
pub proof fn lemma_corrupt_tag_fails_at_tag(b: Seq<u8>)
    requires
        b.len() >= 44,
    ensures
        tag_at(b, 0) != riff_tag() ==> parse_wave(b) == Err::<WaveContents, PCMError>(
            PCMError::WrongMagicNumber(WaveTag::Riff),
        ),
        tag_at(b, 0) == riff_tag() && tag_at(b, 8) != wave_tag() ==> parse_wave(b) == Err::<
            WaveContents,
            PCMError,
        >(PCMError::WrongMagicNumber(WaveTag::Wave)),
        tag_at(b, 0) == riff_tag() && tag_at(b, 8) == wave_tag() && tag_at(b, 12) != fmt_tag()
            ==> parse_wave(b) == Err::<WaveContents, PCMError>(
            PCMError::WrongMagicNumber(WaveTag::Fmt),
        ),
        tag_at(b, 0) == riff_tag() && tag_at(b, 8) == wave_tag() && tag_at(b, 12) == fmt_tag()
            && resolve_format_bps(u16_at(b, 20), u16_at(b, 34)) is Ok && tag_at(b, 36)
            != data_tag() ==> parse_wave(b) == Err::<WaveContents, PCMError>(
            PCMError::WrongMagicNumber(WaveTag::Data),
        ),
{
}

} // verus!

