use ontext::audio::AudioBuffer;
use ontext::vad::{
    frames_in, padded_frame, process, segment, AudioChunk, VadMode, VadSampleRate, VoiceDetector,
};
use std::f32::consts::PI;

fn make_silence(sample_count: usize) -> Vec<f32> {
    vec![0.0f32; sample_count]
}

fn make_tone(freq_hz: f32, sample_rate: u32, duration_ms: u64) -> Vec<f32> {
    let num_samples = (sample_rate as u64 * duration_ms / 1000) as usize;
    (0..num_samples)
        .map(|i| {
            let t = i as f32 / sample_rate as f32;
            (2.0 * PI * freq_hz * t).sin() * 0.8
        })
        .collect()
}

fn to_i16(sample: f32) -> i16 {
    (sample.clamp(-1.0, 1.0) * 32767.0) as i16
}

fn run(samples: Vec<f32>) -> Vec<AudioChunk> {
    let pcm: Vec<i16> = samples.iter().map(|&s| to_i16(s)).collect();
    let buffer = AudioBuffer {
        samples: samples.iter().map(|s| s.to_bits()).collect(),
        sample_rate: 16000,
    };
    process(&buffer, &pcm)
}

#[test]
fn test_empty_input_returns_empty_vec() {
    let result = run(vec![]);
    assert!(result.is_empty());
}

#[test]
fn test_silence_only_returns_empty_vec() {
    let result = run(make_silence(16000)); // 1 second of silence
    assert!(result.is_empty());
}

#[test]
fn test_speech_preserved() {
    // 300ms silence + 500ms tone (speech-like) + 200ms silence
    let mut samples = make_silence(4800);
    samples.extend(make_tone(400.0, 16000, 500));
    samples.extend(make_silence(3200));

    let result = run(samples);
    assert!(!result.is_empty(), "expected at least one speech chunk");
    for chunk in &result {
        assert!(!chunk.samples.is_empty());
        assert!(chunk.end_ms > chunk.start_ms);
    }
}

#[test]
fn test_chunk_timestamps_are_ordered() {
    let mut samples = make_silence(1600);
    samples.extend(make_tone(400.0, 16000, 600));
    samples.extend(make_silence(1600));

    let result = run(samples);
    for chunk in &result {
        assert!(
            chunk.end_ms > chunk.start_ms,
            "end_ms must be > start_ms: {} vs {}",
            chunk.end_ms,
            chunk.start_ms
        );
    }
}

#[test]
fn test_very_short_input_no_panic() {
    // Less than one full frame (< 480 samples)
    let _ = run(vec![0.1f32; 100]);
}

#[test]
fn speech_chunk_holds_buffer_samples() {
    let mut samples = make_silence(4800);
    samples.extend(make_tone(400.0, 16000, 500));
    samples.extend(make_silence(3200));
    let bits: Vec<u32> = samples.iter().map(|s| s.to_bits()).collect();
    for chunk in run(samples) {
        assert_eq!(chunk.start_ms % 30, 0);
        assert_eq!(chunk.end_ms % 30, 0);
        let lo = (chunk.start_ms / 30 * 480) as usize;
        assert_eq!(chunk.samples[..], bits[lo..lo + chunk.samples.len()]);
    }
}

#[test]
fn segment_groups_voiced_runs() {
    let samples: Vec<u32> = (0..2400u32).collect(); // five frames
    let voiced = vec![false, true, true, false, true];
    let chunks = segment(&samples, &voiced);
    assert_eq!(chunks.len(), 2);
    assert_eq!((chunks[0].start_ms, chunks[0].end_ms), (30, 90));
    assert_eq!(chunks[0].samples, (480..1440u32).collect::<Vec<u32>>());
    assert_eq!((chunks[1].start_ms, chunks[1].end_ms), (120, 150));
    assert_eq!(chunks[1].samples, (1920..2400u32).collect::<Vec<u32>>());
}

#[test]
fn segment_excludes_padding_of_short_last_frame() {
    let samples: Vec<u32> = (0..500u32).collect(); // one full frame and 20 samples
    let voiced = vec![true, true];
    let chunks = segment(&samples, &voiced);
    assert_eq!(chunks.len(), 1);
    assert_eq!((chunks[0].start_ms, chunks[0].end_ms), (0, 60));
    assert_eq!(chunks[0].samples, samples);
}

#[test]
fn segment_no_voice_gives_nothing() {
    let samples: Vec<u32> = vec![7; 1000];
    let chunks = segment(&samples, &vec![false, false, false]);
    assert!(chunks.is_empty());
}

#[test]
fn frame_count_rounds_up() {
    assert_eq!(frames_in(0), 0);
    assert_eq!(frames_in(1), 1);
    assert_eq!(frames_in(480), 1);
    assert_eq!(frames_in(481), 2);
    assert_eq!(frames_in(16000), 34);
}

#[test]
fn short_frame_is_padded_with_silence() {
    let pcm: Vec<i16> = (1..=500).map(|x| x as i16).collect();
    let frame = padded_frame(&pcm, 1);
    assert_eq!(frame.len(), 480);
    assert_eq!(frame[..20], pcm[480..500]);
    assert!(frame[20..].iter().all(|&s| s == 0));
}

#[test]
fn detector_hears_no_speech_in_silence() {
    let mut detector = VoiceDetector::new(VadSampleRate::Rate16kHz, VadMode::Aggressive);
    let frame = vec![0i16; 480];
    assert_eq!(detector.classify(&frame), Ok(false));
    assert_eq!(detector.classify(&frame), Ok(false));
}

#[test]
fn process_follows_the_detector_frame_by_frame() {
    // The chunks are the voiced runs of a fresh detector fed the padded frames in order.
    let mut samples = make_silence(4800);
    samples.extend(make_tone(440.0, 16000, 600));
    samples.extend(make_silence(4800));
    let pcm: Vec<i16> = samples.iter().map(|&s| to_i16(s)).collect();
    let mut detector = VoiceDetector::new(VadSampleRate::Rate16kHz, VadMode::Aggressive);
    let mut voiced = Vec::new();
    for k in 0..frames_in(pcm.len()) {
        voiced.push(detector.classify(&padded_frame(&pcm, k)).unwrap_or(false));
    }
    let bits: Vec<u32> = samples.iter().map(|s| s.to_bits()).collect();
    let expected = segment(&bits, &voiced);
    let chunks = run(samples);
    assert_eq!(chunks.len(), expected.len());
    for (c, e) in chunks.iter().zip(expected.iter()) {
        assert_eq!((c.start_ms, c.end_ms), (e.start_ms, e.end_ms));
        assert_eq!(c.samples, e.samples);
    }
}
