use drumchords::synth::sound_bank::{decode_mono, mono_waveform, DecodeError, Pcm};

fn wav(channels: u16, sample_rate: u32, bits: u16, data: &[u8], declared_len: u32) -> Vec<u8> {
    let block_align = channels * (bits / 8);
    let mut bytes = Vec::new();
    bytes.extend_from_slice(b"RIFF");
    bytes.extend_from_slice(&(36 + declared_len).to_le_bytes());
    bytes.extend_from_slice(b"WAVE");
    bytes.extend_from_slice(b"fmt ");
    bytes.extend_from_slice(&16u32.to_le_bytes());
    bytes.extend_from_slice(&1u16.to_le_bytes());
    bytes.extend_from_slice(&channels.to_le_bytes());
    bytes.extend_from_slice(&sample_rate.to_le_bytes());
    bytes.extend_from_slice(&(sample_rate * block_align as u32).to_le_bytes());
    bytes.extend_from_slice(&block_align.to_le_bytes());
    bytes.extend_from_slice(&bits.to_le_bytes());
    bytes.extend_from_slice(b"data");
    bytes.extend_from_slice(&declared_len.to_le_bytes());
    bytes.extend_from_slice(data);
    bytes
}

#[test]
fn decode_mono_reads_rate_and_samples() {
    let data = [0x00, 0x00, 0xFF, 0x7F, 0x00, 0x80, 0x34, 0x12];
    let bytes = wav(1, 8000, 16, &data, 8);
    assert_eq!(
        decode_mono(&bytes),
        Ok(Pcm { sample_rate: 8000, channels: 1, samples: vec![0, 32767, -32768, 0x1234] })
    );
}

#[test]
fn decode_mono_reads_what_hound_writes() {
    let spec = hound::WavSpec {
        channels: 1,
        sample_rate: 44100,
        bits_per_sample: 16,
        sample_format: hound::SampleFormat::Int,
    };
    let mut cursor = std::io::Cursor::new(Vec::new());
    {
        let mut writer = hound::WavWriter::new(&mut cursor, spec).unwrap();
        for sample in [1i16, -2, 3, -4, 5] {
            writer.write_sample(sample).unwrap();
        }
        writer.finalize().unwrap();
    }
    let bytes = cursor.into_inner();
    assert_eq!(
        decode_mono(&bytes),
        Ok(Pcm { sample_rate: 44100, channels: 1, samples: vec![1, -2, 3, -4, 5] })
    );
}

#[test]
fn decode_mono_of_an_empty_waveform() {
    let bytes = wav(1, 22050, 16, &[], 0);
    assert_eq!(decode_mono(&bytes), Ok(Pcm { sample_rate: 22050, channels: 1, samples: vec![] }));
}

#[test]
fn decode_mono_refuses_two_channels() {
    let data = [1, 0, 2, 0, 3, 0, 4, 0];
    let bytes = wav(2, 8000, 16, &data, 8);
    assert_eq!(decode_mono(&bytes), Err(DecodeError::NotMono));
}

#[test]
fn decode_mono_refuses_what_is_no_wave_file() {
    assert_eq!(decode_mono(&[]), Err(DecodeError::Malformed));
    assert_eq!(decode_mono(b"RIFF"), Err(DecodeError::Malformed));
    assert_eq!(decode_mono(b"not a wave file at all, not even close"), Err(DecodeError::Malformed));
}

#[test]
fn decode_mono_refuses_a_file_cut_short() {
    let bytes = wav(1, 8000, 16, &[1, 0, 2, 0], 6);
    assert_eq!(decode_mono(&bytes), Err(DecodeError::Malformed));
}

#[test]
fn decode_mono_refuses_samples_wider_than_16_bits() {
    let bytes = wav(1, 8000, 24, &[1, 0, 0, 2, 0, 0], 6);
    assert_eq!(decode_mono(&bytes), Err(DecodeError::Malformed));
}

#[test]
fn mono_waveform_of_each_outcome() {
    let mono = Pcm { sample_rate: 1, channels: 1, samples: vec![7] };
    let stereo = Pcm { sample_rate: 1, channels: 2, samples: vec![7, 8] };
    assert_eq!(mono_waveform(Some(mono.clone())), Ok(mono));
    assert_eq!(mono_waveform(Some(stereo)), Err(DecodeError::NotMono));
    assert_eq!(mono_waveform(None), Err(DecodeError::Malformed));
}
