use pcm::{Frame, PCMError, PCMParameters, Sample, WaveTag, PCM};

fn mono_u8(rate: u32, values: &[u8]) -> PCM {
    let frames = values
        .iter()
        .map(|v| Frame { samples: vec![Sample::Unsigned8bits(*v)] })
        .collect();
    PCM {
        parameters: PCMParameters {
            sample_rate: rate,
            nb_channels: 1,
            sample_type: Sample::Unsigned8bits(0),
        },
        loop_info: None,
        frames,
    }
}

fn stereo_i16(rate: u32, values: &[(i16, i16)]) -> PCM {
    let frames = values
        .iter()
        .map(|(l, r)| Frame {
            samples: vec![Sample::Signed16bits(*l), Sample::Signed16bits(*r)],
        })
        .collect();
    PCM {
        parameters: PCMParameters {
            sample_rate: rate,
            nb_channels: 2,
            sample_type: Sample::Signed16bits(0),
        },
        loop_info: None,
        frames,
    }
}

#[test]
fn export_mono_8bit_scenario_bytes() {
    let pcm = mono_u8(8000, &[10, 20, 30]);
    assert!(pcm.is_well_formed());
    let bytes = pcm.export_wave_file().unwrap();
    let expected: Vec<u8> = vec![
        82, 73, 70, 70, // RIFF
        39, 0, 0, 0, // interior size = 36 + 3
        87, 65, 86, 69, // WAVE
        102, 109, 116, 32, // fmt(space)
        16, 0, 0, 0, // fmt chunk interior size
        1, 0, // audio format: integer PCM
        1, 0, // channels
        64, 31, 0, 0, // sample rate 8000
        64, 31, 0, 0, // byte rate 8000
        1, 0, // block align
        8, 0, // bits per sample
        100, 97, 116, 97, // data
        3, 0, 0, 0, // data size
        10, 20, 30, // payload
    ];
    // 44 bytes of header, then the three payload bytes
    assert_eq!(bytes.len(), 47);
    assert_eq!(bytes, expected);
}

#[test]
fn reimport_mono_8bit_scenario() {
    let pcm = mono_u8(8000, &[10, 20, 30]);
    let bytes = pcm.export_wave_file().unwrap();
    let back = PCM::import_wave_file(&bytes).unwrap();
    assert_eq!(back.parameters.sample_rate, 8000);
    assert_eq!(back.parameters.nb_channels, 1);
    assert_eq!(back.parameters.sample_type, Sample::Unsigned8bits(0));
    assert!(back.loop_info.is_none());
    assert_eq!(back.frames.len(), 3);
    for (frame, v) in back.frames.iter().zip([10u8, 20, 30]) {
        assert_eq!(frame.samples, vec![Sample::Unsigned8bits(v)]);
    }
}

#[test]
fn roundtrip_stereo_16bit() {
    let values = [(0i16, -1i16), (i16::MIN, i16::MAX), (12345, -32000), (7, 8)];
    let pcm = stereo_i16(44100, &values);
    assert!(pcm.is_well_formed());
    assert!(pcm.header_fits());
    let bytes = pcm.export_wave_file().unwrap();
    // byte rate = 44100 * 2 channels * 2 bytes = 176400, block align = 4
    assert_eq!(&bytes[28..32], &176400u32.to_le_bytes());
    assert_eq!(&bytes[32..34], &4u16.to_le_bytes());
    let back = PCM::import_wave_file(&bytes).unwrap();
    assert_eq!(back.parameters.sample_rate, 44100);
    assert_eq!(back.parameters.nb_channels, 2);
    assert_eq!(back.parameters.sample_type, Sample::Signed16bits(0));
    assert!(back.loop_info.is_none());
    assert_eq!(back.frames.len(), values.len());
    for (frame, (l, r)) in back.frames.iter().zip(values) {
        assert_eq!(
            frame.samples,
            vec![Sample::Signed16bits(l), Sample::Signed16bits(r)]
        );
    }
}

#[test]
fn roundtrip_through_wave_aliases() {
    let pcm = mono_u8(22050, &[0, 255, 128]);
    let bytes = pcm.wave_export_file().unwrap();
    assert_eq!(bytes, pcm.export_wave_file().unwrap());
    let back = PCM::wave_import_file(&bytes).unwrap();
    assert_eq!(back.frames.len(), 3);
    assert_eq!(back.frames[1].samples, vec![Sample::Unsigned8bits(255)]);
}

#[test]
fn export_raw_payload_only() {
    let pcm = stereo_i16(8000, &[(1, -1)]);
    let raw = pcm.export_raw_file().unwrap();
    assert_eq!(raw, vec![1, 0, 255, 255]);
}

#[test]
fn export_raw_rejects_unimplemented_representation() {
    let pcm = PCM {
        parameters: PCMParameters {
            sample_rate: 8000,
            nb_channels: 1,
            sample_type: Sample::Signed32bits(0),
        },
        loop_info: None,
        frames: vec![Frame { samples: vec![Sample::Signed32bits(5)] }],
    };
    assert_eq!(
        pcm.export_raw_file(),
        Err(PCMError::UnimplementedSampleRepresentation)
    );
    assert_eq!(
        pcm.export_wave_file(),
        Err(PCMError::UnimplementedSampleRepresentation)
    );
}

#[test]
fn export_adpcm_rejected_for_extra_format_bytes() {
    let pcm = PCM {
        parameters: PCMParameters {
            sample_rate: 8000,
            nb_channels: 1,
            sample_type: Sample::ImaADPCM(pcm::sample_types::ImaADPCM {}),
        },
        loop_info: None,
        frames: vec![],
    };
    assert_eq!(
        pcm.export_wave_file(),
        Err(PCMError::UnimplementedSampleRepresentation)
    );
}

#[test]
fn export_empty_float_signal_carries_fact_chunk() {
    let pcm = PCM {
        parameters: PCMParameters {
            sample_rate: 48000,
            nb_channels: 1,
            sample_type: Sample::Float(0),
        },
        loop_info: None,
        frames: vec![],
    };
    let bytes = pcm.export_wave_file().unwrap();
    assert_eq!(bytes.len(), 56);
    // fact tag right after the fixed header, then its size and frame count
    assert_eq!(&bytes[36..40], &[102, 97, 99, 116]);
    assert_eq!(&bytes[40..44], &[4, 0, 0, 0]);
    assert_eq!(&bytes[44..48], &[0, 0, 0, 0]);
    // data chunk pushed behind the fact chunk
    assert_eq!(&bytes[48..52], &[100, 97, 116, 97]);
    assert_eq!(&bytes[52..56], &[0, 0, 0, 0]);
    // format code 3 and 32 bits per sample in the header
    assert_eq!(&bytes[20..22], &[3, 0]);
    assert_eq!(&bytes[34..36], &[32, 0]);
    // the reader expects `data` at the fixed position, so a container with a
    // fact chunk is outside what it can re-read
    assert_eq!(PCM::import_wave_file(&bytes).unwrap_err(), PCMError::WrongMagicNumber(WaveTag::Data));
}

#[test]
fn export_empty_integer_signal_has_no_fact_chunk() {
    let pcm = mono_u8(8000, &[]);
    let bytes = pcm.export_wave_file().unwrap();
    assert_eq!(bytes.len(), 44);
    assert_eq!(&bytes[36..40], &[100, 97, 116, 97]);
    assert_eq!(&bytes[40..44], &[0, 0, 0, 0]);
}

#[test]
fn import_zero_data_size_gives_zero_frames() {
    let pcm = mono_u8(8000, &[]);
    let bytes = pcm.export_wave_file().unwrap();
    let back = PCM::import_wave_file(&bytes).unwrap();
    assert_eq!(back.frames.len(), 0);
    assert_eq!(back.parameters.nb_channels, 1);
}

#[test]
fn import_fails_at_each_corrupted_tag() {
    let good = mono_u8(8000, &[10, 20, 30]).export_wave_file().unwrap();

    let mut riff = good.clone();
    riff[0] = b'X';
    assert_eq!(PCM::import_wave_file(&riff).unwrap_err(), PCMError::WrongMagicNumber(WaveTag::Riff));

    let mut wave = good.clone();
    wave[11] = b'X';
    assert_eq!(PCM::import_wave_file(&wave).unwrap_err(), PCMError::WrongMagicNumber(WaveTag::Wave));

    let mut fmt = good.clone();
    fmt[15] = b'!';
    assert_eq!(PCM::import_wave_file(&fmt).unwrap_err(), PCMError::WrongMagicNumber(WaveTag::Fmt));

    let mut data = good.clone();
    data[38] = b'X';
    assert_eq!(PCM::import_wave_file(&data).unwrap_err(), PCMError::WrongMagicNumber(WaveTag::Data));
}

#[test]
fn import_truncated_input_reports_end_of_data() {
    let good = mono_u8(8000, &[10, 20, 30]).export_wave_file().unwrap();
    assert_eq!(PCM::import_wave_file(&good[..2].to_vec()).unwrap_err(), PCMError::UnexpectedEndOfData);
    assert_eq!(PCM::import_wave_file(&good[..10].to_vec()).unwrap_err(), PCMError::UnexpectedEndOfData);
    assert_eq!(PCM::import_wave_file(&good[..30].to_vec()).unwrap_err(), PCMError::UnexpectedEndOfData);
    assert_eq!(PCM::import_wave_file(&good[..42].to_vec()).unwrap_err(), PCMError::UnexpectedEndOfData);
    // declared data size larger than what follows
    assert_eq!(PCM::import_wave_file(&good[..45].to_vec()).unwrap_err(), PCMError::UnexpectedEndOfData);
}

#[test]
fn import_rejects_zero_channel_header() {
    let mut bytes = mono_u8(8000, &[1, 2]).export_wave_file().unwrap();
    bytes[22] = 0;
    bytes[23] = 0;
    assert_eq!(PCM::import_wave_file(&bytes).unwrap_err(), PCMError::ZeroChannels);
}

#[test]
fn import_resolvable_but_undecodable_payload() {
    // a format-1, 32-bit header resolves, but its payload codec is a
    // deliberate placeholder
    let mut bytes = mono_u8(8000, &[0, 0, 0, 0]).export_wave_file().unwrap();
    bytes[34] = 32;
    assert_eq!(PCM::import_wave_file(&bytes).unwrap_err(), PCMError::UnimplementedSampleRepresentation);
}

#[test]
fn import_unknown_format_and_bit_width() {
    let mut unknown_format = mono_u8(8000, &[1]).export_wave_file().unwrap();
    unknown_format[20] = 5;
    assert_eq!(PCM::import_wave_file(&unknown_format).unwrap_err(), PCMError::UnknownFormat(5));

    let mut unknown_bits = mono_u8(8000, &[1]).export_wave_file().unwrap();
    unknown_bits[34] = 24;
    assert_eq!(PCM::import_wave_file(&unknown_bits).unwrap_err(), PCMError::UnknownBitsPerSample(24));
}

#[test]
fn import_drops_trailing_partial_frame() {
    // stereo 8-bit frames are two bytes; three payload bytes hold one whole
    // frame and one dangling byte
    let mut bytes = vec![
        82, 73, 70, 70, 39, 0, 0, 0, 87, 65, 86, 69, 102, 109, 116, 32, 16, 0, 0, 0, 1, 0, 2, 0,
        64, 31, 0, 0, 128, 62, 0, 0, 2, 0, 8, 0, 100, 97, 116, 97, 3, 0, 0, 0, 11, 22, 33,
    ];
    let back = PCM::import_wave_file(&bytes).unwrap();
    assert_eq!(back.frames.len(), 1);
    assert_eq!(
        back.frames[0].samples,
        vec![Sample::Unsigned8bits(11), Sample::Unsigned8bits(22)]
    );
    // trailing garbage behind the declared payload is ignored as well
    bytes.push(99);
    let again = PCM::import_wave_file(&bytes).unwrap();
    assert_eq!(again.frames.len(), 1);
}

#[test]
fn import_ignores_declared_chunk_sizes() {
    // the overall chunk size and the fmt sub-chunk size are read and
    // discarded, so nonsense values do not disturb the fixed-offset walk
    let mut bytes = mono_u8(8000, &[7]).export_wave_file().unwrap();
    bytes[4] = 255;
    bytes[5] = 255;
    bytes[16] = 99;
    let back = PCM::import_wave_file(&bytes).unwrap();
    assert_eq!(back.frames.len(), 1);
    assert_eq!(back.frames[0].samples, vec![Sample::Unsigned8bits(7)]);
}

#[test]
fn header_fit_check() {
    assert!(mono_u8(u32::MAX, &[]).header_fits());
    let wide = PCM {
        parameters: PCMParameters {
            sample_rate: 8000,
            nb_channels: 65535,
            sample_type: Sample::DoubleFloat(0),
        },
        loop_info: None,
        frames: vec![],
    };
    // block alignment 65535 * 8 overflows its 16-bit field
    assert!(!wide.header_fits());
    let fast = PCM {
        parameters: PCMParameters {
            sample_rate: u32::MAX,
            nb_channels: 2,
            sample_type: Sample::Signed16bits(0),
        },
        loop_info: None,
        frames: vec![],
    };
    // byte rate overflows its 32-bit field
    assert!(!fast.header_fits());
}

#[test]
fn well_formedness_check() {
    let good = stereo_i16(8000, &[(1, 2)]);
    assert!(good.is_well_formed());

    let mut short_frame = stereo_i16(8000, &[(1, 2)]);
    short_frame.frames[0].samples.pop();
    assert!(!short_frame.is_well_formed());

    let mut mixed = stereo_i16(8000, &[(1, 2)]);
    mixed.frames[0].samples[1] = Sample::Unsigned8bits(9);
    assert!(!mixed.is_well_formed());

    let mut no_channels = mono_u8(8000, &[]);
    no_channels.parameters.nb_channels = 0;
    assert!(!no_channels.is_well_formed());
}
