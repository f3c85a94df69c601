use mic_capture::error::CaptureError;
use mic_capture::quantize::quantize_sample;
use mic_capture::wav::{encode_wav_bytes, encoding_failure, EncodingStage, MAX_SAMPLE_RATE};

fn bits_of(samples: &[f32]) -> Vec<u32> {
    samples.iter().map(|s| s.to_bits()).collect()
}

#[test]
fn encode_gives_the_exact_bytes_of_a_two_sample_file() {
    let bytes = encode_wav_bytes(&bits_of(&[1.0, -0.5]), 8000).unwrap();
    let expected: Vec<u8> = vec![
        0x52, 0x49, 0x46, 0x46, 40, 0, 0, 0, 0x57, 0x41, 0x56, 0x45, 0x66, 0x6d, 0x74, 0x20, 16,
        0, 0, 0, 1, 0, 1, 0, 0x40, 0x1f, 0, 0, 0x80, 0x3e, 0, 0, 2, 0, 16, 0, 0x64, 0x61, 0x74,
        0x61, 4, 0, 0, 0, 0xff, 0x7f, 0x01, 0xc0,
    ];
    assert_eq!(bytes, expected);
}

#[test]
fn encode_then_decode_recovers_count_rate_and_samples() {
    let samples: Vec<f32> = vec![0.0, 0.25, -0.25, 0.999, -0.999, 1.0, -1.0, 0.1, -0.7, 0.333];
    let bytes = encode_wav_bytes(&bits_of(&samples), 44100).unwrap();
    let mut reader = hound::WavReader::new(std::io::Cursor::new(bytes)).unwrap();
    let spec = reader.spec();
    assert_eq!(spec.sample_rate, 44100);
    assert_eq!(spec.channels, 1);
    assert_eq!(spec.bits_per_sample, 16);
    assert_eq!(spec.sample_format, hound::SampleFormat::Int);
    assert_eq!(reader.len() as usize, samples.len());
    let decoded: Vec<i16> = reader.samples::<i16>().map(|s| s.unwrap()).collect();
    assert_eq!(decoded.len(), samples.len());
    for (sample, value) in samples.iter().zip(decoded.iter()) {
        let exact = *sample as f64 * 32767.0;
        assert!((exact - *value as f64).abs() < 1.0, "sample {sample} decoded as {value}");
        assert_eq!(*value, quantize_sample(sample.to_bits()));
    }
}

#[test]
fn encode_clamps_samples_outside_the_unit_range() {
    let bytes = encode_wav_bytes(&bits_of(&[2.5, -3.0, f32::INFINITY, f32::NAN]), 16000).unwrap();
    let mut reader = hound::WavReader::new(std::io::Cursor::new(bytes)).unwrap();
    let decoded: Vec<i16> = reader.samples::<i16>().map(|s| s.unwrap()).collect();
    assert_eq!(decoded, vec![32767, -32767, 32767, 0]);
}

#[test]
fn encode_of_no_samples_is_a_header_alone() {
    let bytes = encode_wav_bytes(&[], 48000).unwrap();
    assert_eq!(bytes.len(), 44);
    let reader = hound::WavReader::new(std::io::Cursor::new(bytes)).unwrap();
    assert_eq!(reader.len(), 0);
    assert_eq!(reader.spec().sample_rate, 48000);
}

#[test]
fn encode_accepts_the_lowest_and_the_highest_rate() {
    let low = encode_wav_bytes(&bits_of(&[0.5]), 1).unwrap();
    assert_eq!(&low[24..32], &[1, 0, 0, 0, 2, 0, 0, 0]);
    let high = encode_wav_bytes(&bits_of(&[0.5]), MAX_SAMPLE_RATE).unwrap();
    assert_eq!(&high[24..32], &[0xff, 0xff, 0xff, 0x7f, 0xfe, 0xff, 0xff, 0xff]);
}

#[test]
fn encode_keeps_the_order_of_a_long_recording() {
    let samples: Vec<f32> = (0..5000).map(|i| ((i % 200) as f32 - 100.0) / 100.0).collect();
    let bytes = encode_wav_bytes(&bits_of(&samples), 22050).unwrap();
    assert_eq!(bytes.len(), 44 + 2 * samples.len());
    let mut reader = hound::WavReader::new(std::io::Cursor::new(bytes)).unwrap();
    let decoded: Vec<i16> = reader.samples::<i16>().map(|s| s.unwrap()).collect();
    let expected: Vec<i16> = samples.iter().map(|s| quantize_sample(s.to_bits())).collect();
    assert_eq!(decoded, expected);
}

#[test]
fn encoding_failure_names_the_stage() {
    assert_eq!(
        encoding_failure(EncodingStage::Initialize, "disk full"),
        CaptureError::EncodingError("Failed to initialize WAV writer: disk full".to_string())
    );
    assert_eq!(
        encoding_failure(EncodingStage::WriteSample, "disk full"),
        CaptureError::EncodingError("Failed while writing WAV samples: disk full".to_string())
    );
    assert_eq!(
        encoding_failure(EncodingStage::Finalize, ""),
        CaptureError::EncodingError("Failed to finalize WAV audio: ".to_string())
    );
}

#[test]
fn one_half_and_its_negative_at_16000_hz() {
    let bytes = encode_wav_bytes(&bits_of(&[0.5, -0.5]), 16000).unwrap();
    assert_eq!(&bytes[bytes.len() - 4..], &[0xff, 0x3f, 0x01, 0xc0]);
    let mut reader = hound::WavReader::new(std::io::Cursor::new(bytes)).unwrap();
    assert_eq!(reader.spec().channels, 1);
    assert_eq!(reader.spec().bits_per_sample, 16);
    let decoded: Vec<i16> = reader.samples::<i16>().map(|s| s.unwrap()).collect();
    assert_eq!(decoded, vec![16383, -16383]);
}

#[test]
fn sixteen_samples_of_one_half_end_in_sixteen_equal_pairs() {
    let bytes = encode_wav_bytes(&bits_of(&[0.5; 16]), 16000).unwrap();
    let mut expected = Vec::new();
    for _ in 0..16 {
        expected.extend_from_slice(&[0xffu8, 0x3f]);
    }
    assert_eq!(&bytes[bytes.len() - 32..], expected.as_slice());
}

#[test]
fn samples_beyond_the_range_saturate_and_never_reach_the_lowest_value() {
    let bytes = encode_wav_bytes(&bits_of(&[2.0, -2.0, 1.0, -1.0, 0.0]), 8000).unwrap();
    let mut reader = hound::WavReader::new(std::io::Cursor::new(bytes)).unwrap();
    let decoded: Vec<i16> = reader.samples::<i16>().map(|s| s.unwrap()).collect();
    assert_eq!(decoded, vec![32767, -32767, 32767, -32767, 0]);
}

#[test]
fn no_samples_at_44100_hz_give_a_header_with_an_empty_data_chunk() {
    let bytes = encode_wav_bytes(&[], 44100).unwrap();
    assert_eq!(bytes.len(), 44);
    assert_eq!(&bytes[24..28], &[0x44, 0xac, 0, 0]);
    assert_eq!(&bytes[40..44], &[0, 0, 0, 0]);
}
