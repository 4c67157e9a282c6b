use ontext::audio::{AudioBuffer, TARGET_SAMPLE_RATE};

#[test]
fn test_audio_buffer_sample_rate_is_16000() {
    let buf = AudioBuffer {
        samples: [0.0f32, 0.5, -0.5].iter().map(|s| s.to_bits()).collect(),
        sample_rate: TARGET_SAMPLE_RATE,
    };
    assert_eq!(buf.sample_rate, 16000);
}

#[test]
fn test_audio_buffer_stores_samples() {
    let samples: Vec<u32> = [0.1f32, 0.2, 0.3, -0.1, -0.2].iter().map(|s| s.to_bits()).collect();
    let buf = AudioBuffer {
        samples: samples.clone(),
        sample_rate: TARGET_SAMPLE_RATE,
    };
    assert_eq!(buf.samples, samples);
}
