use vstd::prelude::*;

use crate::error::{PCMError, WaveTag};
use crate::wave_format::{
    all_samples_have_codec, data_tag, decode_frame, decode_frames, decode_sample, export_check,
    fact_tag, fits_wave_header, fmt_tag, frame_payload, frames_payload, lemma_decode_frame_snoc,
    lemma_decode_frames_snoc, lemma_frame_payload_push, lemma_frames_payload_push, parse_wave,
    pcm_frames_model, pcm_matches_contents, riff_tag, saturated_usize, spec_data_size,
    spec_frame_byte_size, tag_at, wave_bytes, wave_tag, WaveContents,
};
use crate::wire::{
    le_bytes_u16, le_bytes_u32, push_i16_le, push_u16_le, push_u32_le, read_i16_le, read_u16_le,
    read_u32_le, read_u8,
};
use crate::{Frame, PCMParameters, Sample, PCM};

verus! {

/// Whether the four bytes at a position are exactly the given tag, in order.
fn check_tag(bytes: &Vec<u8>, pos: usize, t0: u8, t1: u8, t2: u8, t3: u8) -> (r: bool)
    requires
        pos + 4 <= bytes.len(),
    ensures
        r <==> tag_at(bytes@, pos as int) == seq![t0, t1, t2, t3],
{
    let r = bytes[pos] == t0 && bytes[pos + 1] == t1 && bytes[pos + 2] == t2 && bytes[pos + 3]
        == t3;
    proof {
        let t = tag_at(bytes@, pos as int);
        let s = seq![t0, t1, t2, t3];
        assert(t.len() == 4 && s.len() == 4);
        assert(t[0] == bytes@[pos as int] && t[1] == bytes@[pos as int + 1]);
        assert(t[2] == bytes@[pos as int + 2] && t[3] == bytes@[pos as int + 3]);
        assert(s[0] == t0 && s[1] == t1 && s[2] == t2 && s[3] == t3);
        if r {
            assert(t =~= s);
        } else {
            if t == s {
                assert(t[0] == s[0] && t[1] == s[1] && t[2] == s[2] && t[3] == s[3]);
                assert(false);
            }
        }
    }
    r
}

impl PCM {
    /// Imports a Wave file, given as its full byte content, and returns the
    /// corresponding PCM.  The reader walks the container in strict
    /// sequential order: any missing bytes, wrong tag, unresolvable format
    /// or undecodable payload fails the whole import with the error that
    /// [`parse_wave`] assigns to this input, and on success the returned
    /// signal is well-formed, carries no loop information, and holds exactly
    /// the parsed frames.
    #[verifier::loop_isolation(false)]
    pub fn import_wave_file(bytes: &Vec<u8>) -> (r: Result<PCM, PCMError>)
        ensures
            match r {
                Ok(p) => {
                    &&& parse_wave(bytes@) matches Ok(c) && pcm_matches_contents(p, c)
                    &&& p.loop_info is None
                    &&& p.wf()
                },
                Err(e) => parse_wave(bytes@) == Err::<WaveContents, PCMError>(e),
            },
    {
        let len: usize = bytes.len();
        if len < 4 {
            return Err(PCMError::UnexpectedEndOfData);
        }
        if !check_tag(bytes, 0, 82, 73, 70, 70) {
            return Err(PCMError::WrongMagicNumber(WaveTag::Riff));
        }
        // the overall chunk size at offset 4 is declared but not used to
        // bound parsing; only enough input for it must exist
        if len < 12 {
            return Err(PCMError::UnexpectedEndOfData);
        }
        if !check_tag(bytes, 8, 87, 65, 86, 69) {
            return Err(PCMError::WrongMagicNumber(WaveTag::Wave));
        }
        if len < 16 {
            return Err(PCMError::UnexpectedEndOfData);
        }
        if !check_tag(bytes, 12, 102, 109, 116, 32) {
            return Err(PCMError::WrongMagicNumber(WaveTag::Fmt));
        }
        if len < 36 {
            return Err(PCMError::UnexpectedEndOfData);
        }
        // of the fmt fields, the declared sub-chunk size at offset 16 and
        // the derived byte rate and block alignment at offsets 28 and 32
        // are not read back: the reader trusts the primary fields alone
        let audio_format: u16 = read_u16_le(bytes, 20);
        let nb_channels: u16 = read_u16_le(bytes, 22);
        let sample_rate: u32 = read_u32_le(bytes, 24);
        let bits_per_sample: u16 = read_u16_le(bytes, 34);
        let sample_type: Sample = match Sample::from_wave_format_bps(
            &audio_format,
            &bits_per_sample,
        ) {
            Ok(s) => s,
            Err(e) => {
                return Err(e);
            },
        };
        if len < 40 {
            return Err(PCMError::UnexpectedEndOfData);
        }
        if !check_tag(bytes, 36, 100, 97, 116, 97) {
            return Err(PCMError::WrongMagicNumber(WaveTag::Data));
        }
        if len < 44 {
            return Err(PCMError::UnexpectedEndOfData);
        }
        let data_size: u32 = read_u32_le(bytes, 40);
        if ((len - 44) as u64) < (data_size as u64) {
            return Err(PCMError::UnexpectedEndOfData);
        }
        if nb_channels == 0 {
            return Err(PCMError::ZeroChannels);
        }
        let width: u16 = sample_type.get_binary_size() / 8;
        proof {
            assert(1 <= width && width <= 8);
            assert((nb_channels as int) * (width as int) <= 65535 * 8) by (nonlinear_arith)
                requires
                    nb_channels <= 65535,
                    width <= 8,
            ;
        }
        let frame_size: u32 = (nb_channels as u32) * (width as u32);
        proof {
            assert(frame_size >= 1) by (nonlinear_arith)
                requires
                    frame_size == (nb_channels as u32) * (width as u32),
                    nb_channels >= 1,
                    width >= 1,
            ;
        }
        let n: u32 = data_size / frame_size;
        if n > 0 && !sample_type.supports_raw_codec() {
            return Err(PCMError::UnimplementedSampleRepresentation);
        }
        let ghost payload: Seq<u8> = bytes@.subrange(44, 44 + data_size as int);
        proof {
            assert((n as int) * (frame_size as int) <= data_size as int) by {
                vstd::arithmetic::div_mod::lemma_fundamental_div_mod(
                    data_size as int,
                    frame_size as int,
                );
                vstd::arithmetic::div_mod::lemma_remainder_lower(
                    data_size as int,
                    frame_size as int,
                );
            };
        }
        let mut frames: Vec<Frame> = Vec::new();
        let mut pos: usize = 44;
        let mut i: u32 = 0;
        while i < n
            invariant
                0 <= i <= n,
                pos as int == 44 + (i as int) * (frame_size as int),
                frames@.len() == i as int,
                frames@.map_values(|f: Frame| f.samples@) == decode_frames(
                    payload,
                    sample_type,
                    nb_channels as nat,
                    i as nat,
                ),
                forall|k: int|
                    0 <= k < i ==> (#[trigger] frames@[k]).samples@.len() == nb_channels as int,
                forall|k: int, l: int|
                    0 <= k < i && 0 <= l < frames@[k].samples@.len() ==> (
                    #[trigger] frames@[k].samples@[l]).same_variant(sample_type),
            decreases n - i,
        {
            proof {
                assert((i + 1) * (frame_size as int) <= (n as int) * (frame_size as int))
                    by (nonlinear_arith)
                    requires
                        i < n,
                ;
            }
            let ghost fdata = payload.skip((i as int) * (frame_size as int));
            let mut samples: Vec<Sample> = Vec::new();
            let mut j: u16 = 0;
            while j < nb_channels
                invariant
                    0 <= j <= nb_channels,
                    i < n,
                    pos as int == 44 + (i as int) * (frame_size as int) + (j as int) * (
                    width as int),
                    samples@.len() == j as int,
                    samples@ == decode_frame(fdata, sample_type, j as nat),
                    forall|l: int|
                        0 <= l < j ==> (#[trigger] samples@[l]).same_variant(sample_type),
                decreases nb_channels - j,
            {
                proof {
                    assert((j + 1) * (width as int) <= (nb_channels as int) * (width as int)
                        && (j + 1) * (width as int) == (j as int) * (width as int) + (width as int)
                        && (i + 1) * (frame_size as int) == (i as int) * (frame_size as int) + (
                    frame_size as int)) by (nonlinear_arith)
                        requires
                            j < nb_channels,
                            frame_size as int == (nb_channels as int) * (width as int),
                    ;
                    assert(pos + width <= 44 + data_size);
                    assert(fdata.len() == data_size as int - (i as int) * (frame_size as int));
                    assert(fdata.skip((j as int) * (width as int)) =~= bytes@.subrange(
                        pos as int,
                        44 + data_size as int,
                    ));
                }
                let s: Sample = match &sample_type {
                    Sample::Unsigned8bits(_) => Sample::Unsigned8bits(read_u8(bytes, pos)),
                    Sample::Signed16bits(_) => Sample::Signed16bits(read_i16_le(bytes, pos)),
                    _ => unreached(),
                };
                proof {
                    assert(s == decode_sample(fdata.skip((j as int) * (width as int)), sample_type));
                    lemma_decode_frame_snoc(fdata, sample_type, j as nat);
                }
                samples.push(s);
                j += 1;
                pos += width as usize;
            }
            proof {
                assert(samples@ == decode_frame(fdata, sample_type, nb_channels as nat));
                lemma_decode_frames_snoc(payload, sample_type, nb_channels as nat, i as nat);
                assert((i as int) * (frame_size as int) + (nb_channels as int) * (width as int) == (
                i + 1) * (frame_size as int)) by (nonlinear_arith)
                    requires
                        frame_size as int == (nb_channels as int) * (width as int),
                ;
            }
            let new_frame = Frame { samples };
            frames.push(new_frame);
            proof {
                assert(frames@.map_values(|f: Frame| f.samples@) =~= decode_frames(
                    payload,
                    sample_type,
                    nb_channels as nat,
                    (i + 1) as nat,
                ));
            }
            i += 1;
        }
        let parameters = PCMParameters { sample_rate, nb_channels, sample_type };
        let result = PCM { parameters, loop_info: None, frames };
        proof {
            assert(parse_wave(bytes@) matches Ok(c) && pcm_matches_contents(result, c));
        }
        Ok(result)
    }
    /// Writes all samples directly to a byte vector, frame-major and
    /// channel-minor, each sample in its little-endian wire encoding.  Fails
    /// if any sample is in a representation without a raw codec, in which
    /// case nothing is returned beside the error.
    pub fn export_raw_file(&self) -> (r: Result<Vec<u8>, PCMError>)
        ensures
            match r {
                Ok(v) => all_samples_have_codec(pcm_frames_model(*self)) && v@ == frames_payload(
                    pcm_frames_model(*self),
                ),
                Err(e) => e == PCMError::UnimplementedSampleRepresentation
                    && !all_samples_have_codec(pcm_frames_model(*self)),
            },
    {
        let ghost ff = pcm_frames_model(*self);
        let mut out: Vec<u8> = Vec::new();
        let n = self.frames.len();
        let mut i: usize = 0;
        while i < n
            invariant
                0 <= i <= n,
                n == self.frames@.len(),
                ff == pcm_frames_model(*self),
                ff.len() == n,
                out@ == frames_payload(ff.take(i as int)),
                forall|a: int, b: int|
                    0 <= a < i && 0 <= b < ff[a].len() ==> (#[trigger] ff[a][b]).has_raw_codec(),
            decreases n - i,
        {
            let frame = &self.frames[i];
            proof {
                assert(ff[i as int] == frame.samples@);
            }
            let m = frame.samples.len();
            let mut j: usize = 0;
            while j < m
                invariant
                    0 <= j <= m,
                    0 <= i < n,
                    n == self.frames@.len(),
                    ff == pcm_frames_model(*self),
                    ff.len() == n,
                    *frame == self.frames@[i as int],
                    ff[i as int] == frame.samples@,
                    m == frame.samples@.len(),
                    out@ == frames_payload(ff.take(i as int)) + frame_payload(
                        frame.samples@.take(j as int),
                    ),
                    forall|a: int, b: int|
                        0 <= a < i && 0 <= b < ff[a].len() ==> (
                        #[trigger] ff[a][b]).has_raw_codec(),
                    forall|b: int|
                        0 <= b < j ==> (#[trigger] frame.samples@[b]).has_raw_codec(),
                decreases m - j,
            {
                let ghost taken = frame.samples@.take(j as int);
                let s = &frame.samples[j];
                match s {
                    Sample::Unsigned8bits(v) => {
                        out.push(*v);
                    },
                    Sample::Signed16bits(v) => {
                        push_i16_le(&mut out, *v);
                    },
                    _ => {
                        proof {
                            assert(!ff[i as int][j as int].has_raw_codec());
                        }
                        return Err(PCMError::UnimplementedSampleRepresentation);
                    },
                }
                proof {
                    lemma_frame_payload_push(taken, frame.samples@[j as int]);
                    assert(taken.push(frame.samples@[j as int]) =~= frame.samples@.take(
                        j as int + 1,
                    ));
                    assert(out@ =~= frames_payload(ff.take(i as int)) + frame_payload(
                        frame.samples@.take(j as int + 1),
                    ));
                }
                j += 1;
            }
            proof {
                assert(frame.samples@.take(m as int) =~= frame.samples@);
                lemma_frames_payload_push(ff.take(i as int), ff[i as int]);
                assert(ff.take(i as int).push(ff[i as int]) =~= ff.take(i as int + 1));
            }
            i += 1;
        }
        proof {
            assert(ff.take(n as int) =~= ff);
        }
        Ok(out)
    }

    /// Exports a Wave file from a PCM, as the exact bytes of the container.
    /// The caller owns a well-formed signal whose derived header fields fit
    /// their wire encodings; everything else the writer checks itself and
    /// reports as an error, with nothing returned beside it.
    pub fn export_wave_file(&self) -> (r: Result<Vec<u8>, PCMError>)
        requires
            self.wf(),
            fits_wave_header(self.parameters),
        ensures
            match r {
                Ok(v) => export_check(*self) is None && v@ == wave_bytes(*self),
                Err(e) => export_check(*self) == Some(e),
            },
    {
        let params = &self.parameters;
        let nframes: usize = self.frames.len();
        let width: u16 = params.sample_type.get_binary_size() / 8;
        let fbs: u32 = (params.nb_channels as u32) * (width as u32);
        proof {
            assert(fbs == spec_frame_byte_size(*params));
            assert((nframes as int) * (fbs as int) < 0x1_0000_0000_0000_0000_0000_0000 && (
            nframes as int) * (fbs as int) == spec_data_size(*self))
                by (nonlinear_arith)
                requires
                    nframes <= usize::MAX,
                    fbs <= u32::MAX,
                    nframes == self.frames@.len(),
                    fbs == spec_frame_byte_size(*params),
                    spec_data_size(*self) == self.frames@.len() * spec_frame_byte_size(*params),
            ;
        }
        let ds128: u128 = (nframes as u128) * (fbs as u128);
        if ds128 > 0xFFFF_FFFFu128 {
            let sat: usize = if ds128 > (usize::MAX as u128) {
                usize::MAX
            } else {
                ds128 as usize
            };
            proof {
                assert(sat == saturated_usize(spec_data_size(*self)));
            }
            return Err(PCMError::TooMuchData(sat));
        }
        let data_size: u32 = ds128 as u32;
        if params.sample_type.get_wave_format_chunk_extra_size() != 0 {
            return Err(PCMError::UnimplementedSampleRepresentation);
        }
        let best: u16 = params.sample_type.get_best_wave_format();
        let needs_fact = best != 1;
        let fact_total: u32 = if needs_fact {
            12
        } else {
            0
        };
        if data_size > u32::MAX - 36 - fact_total {
            return Err(PCMError::TooMuchData(data_size as usize));
        }
        if needs_fact && self.frames.len() > (u32::MAX as usize) {
            return Err(PCMError::TooManyFrames(self.frames.len()));
        }
        if self.frames.len() > 0 && !params.sample_type.supports_raw_codec() {
            return Err(PCMError::UnimplementedSampleRepresentation);
        }
        // Every sample can be emitted: either there are no frames at all, or
        // the shared representation has a raw codec and well-formedness
        // carries it to each sample.
        proof {
            let ghost ff = pcm_frames_model(*self);
            assert forall|i: int, j: int|
                0 <= i < ff.len() && 0 <= j < ff[i].len() implies (
            #[trigger] ff[i][j]).has_raw_codec() by {
                assert(self.frames@[i].samples@[j].same_variant(params.sample_type));
            };
        }
        let mut payload: Vec<u8> = match self.export_raw_file() {
            Ok(p) => p,
            Err(_) => unreached(),
        };
        let byte_rate: u32 = {
            proof {
                assert((params.sample_rate as int) * (fbs as int) == (params.sample_rate as int) * (
                params.nb_channels as int) * (params.sample_type.spec_byte_size() as int))
                    by (nonlinear_arith)
                    requires
                        fbs as int == (params.nb_channels as int) * (
                        params.sample_type.spec_byte_size() as int),
                ;
            }
            params.sample_rate * fbs
        };
        let block_align: u16 = params.nb_channels * width;
        let bits: u16 = params.sample_type.get_binary_size();
        let riff_size: u32 = 36 + fact_total + data_size;

        let mut out: Vec<u8> = Vec::new();
        out.push(82u8);
        out.push(73u8);
        out.push(70u8);
        out.push(70u8);
        proof {
            assert(out@ =~= riff_tag());
        }
        push_u32_le(&mut out, riff_size);
        let ghost part_riff = riff_tag() + le_bytes_u32(riff_size);
        out.push(87u8);
        out.push(65u8);
        out.push(86u8);
        out.push(69u8);
        proof {
            assert(out@ =~= part_riff + wave_tag());
        }
        out.push(102u8);
        out.push(109u8);
        out.push(116u8);
        out.push(32u8);
        proof {
            assert(out@ =~= part_riff + wave_tag() + fmt_tag());
        }
        let ghost part_tags = part_riff + wave_tag() + fmt_tag();
        push_u32_le(&mut out, 16);
        push_u16_le(&mut out, best);
        push_u16_le(&mut out, params.nb_channels);
        push_u32_le(&mut out, params.sample_rate);
        push_u32_le(&mut out, byte_rate);
        push_u16_le(&mut out, block_align);
        push_u16_le(&mut out, bits);
        let ghost part_fmt = part_tags + le_bytes_u32(16) + le_bytes_u16(best) + le_bytes_u16(
            params.nb_channels,
        ) + le_bytes_u32(params.sample_rate) + le_bytes_u32(byte_rate) + le_bytes_u16(block_align)
            + le_bytes_u16(bits);
        proof {
            assert(out@ == part_fmt);
        }
        if needs_fact {
            out.push(102u8);
            out.push(97u8);
            out.push(99u8);
            out.push(116u8);
            proof {
                assert(out@ =~= part_fmt + fact_tag());
            }
            push_u32_le(&mut out, 4);
            push_u32_le(&mut out, self.frames.len() as u32);
        }
        let ghost fact_piece: Seq<u8> = if needs_fact {
            fact_tag() + le_bytes_u32(4) + le_bytes_u32(self.frames@.len() as u32)
        } else {
            Seq::<u8>::empty()
        };
        proof {
            assert(out@ == part_fmt + fact_piece) by {
                if needs_fact {
                } else {
                    assert(part_fmt + fact_piece =~= part_fmt);
                }
            };
        }
        out.push(100u8);
        out.push(97u8);
        out.push(116u8);
        out.push(97u8);
        proof {
            assert(out@ =~= part_fmt + fact_piece + data_tag());
        }
        push_u32_le(&mut out, data_size);
        out.append(&mut payload);
        proof {
            assert(out@ == wave_bytes(*self));
        }
        Ok(out)
    }

    /// Runtime check for [`fits_wave_header`]: whether the derived header
    /// fields of this signal fit their wire encodings, which
    /// [`PCM::export_wave_file`] asks of its caller.
    pub fn header_fits(&self) -> (r: bool)
        ensures
            r == fits_wave_header(self.parameters),
    {
        let width: u16 = self.parameters.sample_type.get_binary_size() / 8;
        proof {
            let r = self.parameters.sample_rate as int;
            let c = self.parameters.nb_channels as int;
            let ww = width as int;
            assert(c * ww <= 0xFFFF * 8 && r * (c * ww) == r * c * ww && r * (c * ww) <= 0xFFFF_FFFF
                * 0xFFFF * 8) by (nonlinear_arith)
                requires
                    0 <= r <= 0xFFFF_FFFF,
                    0 <= c <= 0xFFFF,
                    0 <= ww <= 8,
            ;
        }
        let block: u64 = (self.parameters.nb_channels as u64) * (width as u64);
        let rate: u64 = (self.parameters.sample_rate as u64) * block;
        block <= 65535 && rate <= 4294967295
    }

    /// Imports a Wave file and returns a corresponding PCM.  This entry
    /// point is equivalent to [`PCM::import_wave_file`]; both names are kept
    /// public.
    pub fn wave_import_file(bytes: &Vec<u8>) -> (r: Result<PCM, PCMError>)
        ensures
            match r {
                Ok(p) => {
                    &&& parse_wave(bytes@) matches Ok(c) && pcm_matches_contents(p, c)
                    &&& p.loop_info is None
                    &&& p.wf()
                },
                Err(e) => parse_wave(bytes@) == Err::<WaveContents, PCMError>(e),
            },
    {
        PCM::import_wave_file(bytes)
    }

    /// Exports a Wave file from a PCM.  This entry point is equivalent to
    /// [`PCM::export_wave_file`]; both names are kept public.
    pub fn wave_export_file(&self) -> (r: Result<Vec<u8>, PCMError>)
        requires
            self.wf(),
            fits_wave_header(self.parameters),
        ensures
            match r {
                Ok(v) => export_check(*self) is None && v@ == wave_bytes(*self),
                Err(e) => export_check(*self) == Some(e),
            },
    {
        self.export_wave_file()
    }
}

impl Sample {
    /// Returns a Sample from a format code and a number of bits per sample
    /// found in a Wave header.  This entry point is equivalent to
    /// [`Sample::from_wave_format_bps`]; both names are kept public.
    pub fn wave_from_format_bps(format: &u16, bits_per_sample: &u16) -> (r: Result<
        Sample,
        PCMError,
    >)
        ensures
            r == crate::wave_format::resolve_format_bps(*format, *bits_per_sample),
    {
        Sample::from_wave_format_bps(format, bits_per_sample)
    }

    /// Returns how many extra bytes need to be added at the end of the
    /// format chunk.  This entry point is equivalent to
    /// [`Sample::get_wave_format_chunk_extra_size`]; both names are kept
    /// public.
    pub fn wave_get_format_chunk_extra_size(&self) -> (r: u32)
        ensures
            r == self.spec_format_chunk_extra_size(),
    {
        self.get_wave_format_chunk_extra_size()
    }

    /// Returns the best format to use when writing this type to a Wave
    /// file.  This entry point is equivalent to
    /// [`Sample::get_best_wave_format`]; both names are kept public.
    pub fn wave_get_best_format(&self) -> (r: u16)
        ensures
            r == self.spec_best_wave_format(),
    {
        self.get_best_wave_format()
    }
}

} // verus!
