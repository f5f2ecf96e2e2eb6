use pcm::sample_types::{ImaADPCM, MicrosoftADPCM, I24};
use pcm::{Frame, LoopInfo, PCMError, PCMParameters, Sample, PCM};

fn every_variant() -> Vec<Sample> {
    vec![
        Sample::Unsigned8bits(0),
        Sample::Signed16bits(0),
        Sample::Signed24bits(I24 {}),
        Sample::Signed32bits(0),
        Sample::ImaADPCM(ImaADPCM {}),
        Sample::MicrosoftADPCM(MicrosoftADPCM {}),
        Sample::Float(0),
        Sample::DoubleFloat(0),
    ]
}

#[test]
fn resolver_supported_table() {
    assert_eq!(
        Sample::from_wave_format_bps(&1, &8),
        Ok(Sample::Unsigned8bits(0))
    );
    assert_eq!(
        Sample::from_wave_format_bps(&1, &16),
        Ok(Sample::Signed16bits(0))
    );
    assert_eq!(
        Sample::from_wave_format_bps(&1, &32),
        Ok(Sample::Signed32bits(0))
    );
    assert_eq!(Sample::from_wave_format_bps(&3, &32), Ok(Sample::Float(0)));
    assert_eq!(
        Sample::from_wave_format_bps(&3, &64),
        Ok(Sample::DoubleFloat(0))
    );
}

#[test]
fn resolver_rejections() {
    // 24-bit integer PCM is intentionally outside the wire-readable set
    assert_eq!(
        Sample::from_wave_format_bps(&1, &24),
        Err(PCMError::UnknownBitsPerSample(24))
    );
    assert_eq!(
        Sample::from_wave_format_bps(&1, &12),
        Err(PCMError::UnknownBitsPerSample(12))
    );
    // the ADPCM formats reject every bit width while their decoders are
    // placeholders
    assert_eq!(
        Sample::from_wave_format_bps(&2, &4),
        Err(PCMError::UnknownBitsPerSample(4))
    );
    assert_eq!(
        Sample::from_wave_format_bps(&17, &4),
        Err(PCMError::UnknownBitsPerSample(4))
    );
    assert_eq!(
        Sample::from_wave_format_bps(&3, &16),
        Err(PCMError::UnknownBitsPerSample(16))
    );
    assert_eq!(
        Sample::from_wave_format_bps(&0, &8),
        Err(PCMError::UnknownFormat(0))
    );
    assert_eq!(
        Sample::from_wave_format_bps(&5, &16),
        Err(PCMError::UnknownFormat(5))
    );
    assert_eq!(
        Sample::from_wave_format_bps(&65535, &64),
        Err(PCMError::UnknownFormat(65535))
    );
}

#[test]
fn resolver_alias_agrees() {
    for format in [0u16, 1, 2, 3, 4, 17, 100] {
        for bits in [0u16, 4, 8, 16, 24, 32, 64] {
            assert_eq!(
                Sample::wave_from_format_bps(&format, &bits),
                Sample::from_wave_format_bps(&format, &bits)
            );
        }
    }
}

#[test]
fn binary_sizes() {
    let expected = [8u16, 16, 24, 32, 4, 4, 32, 64];
    for (s, e) in every_variant().iter().zip(expected) {
        assert_eq!(s.get_binary_size(), e);
    }
}

#[test]
fn best_wave_formats() {
    let expected = [1u16, 1, 1, 1, 17, 2, 3, 3];
    for (s, e) in every_variant().iter().zip(expected) {
        assert_eq!(s.get_best_wave_format(), e);
        assert_eq!(s.wave_get_best_format(), e);
    }
}

#[test]
fn format_chunk_extra_sizes() {
    let expected = [0u32, 0, 0, 0, 4, 34, 0, 0];
    for (s, e) in every_variant().iter().zip(expected) {
        assert_eq!(s.get_wave_format_chunk_extra_size(), e);
        assert_eq!(s.wave_get_format_chunk_extra_size(), e);
    }
}

#[test]
fn sample_descriptions() {
    let expected = [
        "Unsigned 8 bits",
        "Signed 16 bits",
        "Signed 24 bits",
        "Signed 32 bits",
        "IMA ADPCM 4 bits",
        "Microsoft ADPCM 4 bits",
        "Float 32 bits",
        "Double-precision Float 64 bits",
    ];
    for (s, e) in every_variant().iter().zip(expected) {
        assert_eq!(s.description(), e);
    }
}

#[test]
fn error_descriptions() {
    assert_eq!(
        PCMError::UnexpectedEndOfData.description(),
        "Stream ended before all expected data could be read"
    );
    assert_eq!(
        PCMError::WrongMagicNumber(pcm::WaveTag::Riff).description(),
        "Expected magic number was not found in stream"
    );
    assert_eq!(
        PCMError::ZeroChannels.description(),
        "Wave header declares zero channels"
    );
    assert_eq!(
        PCMError::UnimplementedSampleRepresentation.description(),
        "No raw codec is implemented for this sample representation"
    );
    assert_eq!(
        PCMError::UnknownFormat(9).description(),
        "Unknown format field value in Wave Header"
    );
    assert_eq!(
        PCMError::UnknownBitsPerSample(9).description(),
        "Cannot infer information about a Bits per Sample in Wave header"
    );
    assert_eq!(
        PCMError::TooMuchData(1).description(),
        "Number of bytes composing audio is too big to fit in a u32 number"
    );
    assert_eq!(
        PCMError::TooManyFrames(1).description(),
        "Number of frames is too big to fit in a u32 to write Fact chunk"
    );
}

#[test]
fn frame_audio_size() {
    let empty = Frame { samples: vec![] };
    assert_eq!(empty.get_audio_size(), 0);
    let stereo = Frame {
        samples: vec![Sample::Signed16bits(1), Sample::Signed16bits(2)],
    };
    assert_eq!(stereo.get_audio_size(), 4);
    let mono = Frame { samples: vec![Sample::Unsigned8bits(1)] };
    assert_eq!(mono.get_audio_size(), 1);
}

#[test]
fn pcm_audio_size() {
    let frames = (0..5)
        .map(|_| Frame {
            samples: vec![Sample::Signed16bits(0), Sample::Signed16bits(0)],
        })
        .collect();
    let pcm = PCM {
        parameters: PCMParameters {
            sample_rate: 8000,
            nb_channels: 2,
            sample_type: Sample::Signed16bits(0),
        },
        loop_info: None,
        frames,
    };
    assert_eq!(pcm.get_audio_size(), 20);

    let silent = PCM {
        parameters: PCMParameters {
            sample_rate: 8000,
            nb_channels: 1,
            sample_type: Sample::Unsigned8bits(0),
        },
        loop_info: None,
        frames: vec![],
    };
    assert_eq!(silent.get_audio_size(), 0);
}

#[test]
fn loop_info_is_carried_but_not_exported() {
    let pcm = PCM {
        parameters: PCMParameters {
            sample_rate: 8000,
            nb_channels: 1,
            sample_type: Sample::Unsigned8bits(0),
        },
        loop_info: Some(vec![LoopInfo { loop_start: 1, loop_end: 2 }]),
        frames: vec![Frame { samples: vec![Sample::Unsigned8bits(3)] }],
    };
    let info = pcm.loop_info.clone().unwrap();
    assert_eq!(info[0].loop_start, 1);
    assert_eq!(info[0].loop_end, 2);
    let bytes = pcm.export_wave_file().unwrap();
    let back = PCM::import_wave_file(&bytes).unwrap();
    assert!(back.loop_info.is_none());
}
