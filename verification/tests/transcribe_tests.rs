use ontext::transcribe::{
    api_error, encode_chunks_to_wav, groq_request, is_success_status, request_with_base_url,
    send_error, transcript_from_reply, wav_fits, TranscribeError, MAX_WAV_SAMPLES,
};
use ontext::vad::AudioChunk;
use std::io::Cursor;

fn make_chunk(samples: Vec<f32>) -> AudioChunk {
    AudioChunk {
        samples: samples.iter().map(|s| s.to_bits()).collect(),
        start_ms: 0,
        end_ms: 100,
    }
}

#[test]
fn test_encode_chunks_to_wav_produces_valid_wav() {
    let chunks = vec![make_chunk(vec![0.0f32, 0.1, -0.1, 0.5])];
    let wav_bytes = encode_chunks_to_wav(&chunks).unwrap();

    // WAV files start with RIFF header
    assert!(wav_bytes.len() > 44);
    assert_eq!(&wav_bytes[0..4], b"RIFF");
    assert_eq!(&wav_bytes[8..12], b"WAVE");
}

#[test]
fn test_encode_empty_chunks_produces_valid_wav() {
    let chunks: Vec<AudioChunk> = vec![];
    let wav_bytes = encode_chunks_to_wav(&chunks).unwrap();
    assert_eq!(&wav_bytes[0..4], b"RIFF");
}

#[test]
fn test_encode_multiple_chunks_concatenates_samples() {
    let chunks = vec![make_chunk(vec![0.1, 0.2]), make_chunk(vec![0.3, 0.4, 0.5])];
    let wav_bytes = encode_chunks_to_wav(&chunks).unwrap();

    let mut cursor = Cursor::new(wav_bytes);
    let reader = hound::WavReader::new(&mut cursor).unwrap();
    assert_eq!(reader.len(), 5);
}

#[test]
fn encoded_wav_reads_back_as_the_float_samples() {
    let chunks = vec![make_chunk(vec![0.1, -0.25]), make_chunk(vec![0.75, -1.0, 1.0])];
    let wav_bytes = encode_chunks_to_wav(&chunks).unwrap();
    let mut reader = hound::WavReader::new(Cursor::new(wav_bytes)).unwrap();
    let spec = reader.spec();
    assert_eq!(spec.channels, 1);
    assert_eq!(spec.sample_rate, 16000);
    assert_eq!(spec.bits_per_sample, 32);
    assert_eq!(spec.sample_format, hound::SampleFormat::Float);
    let samples: Vec<f32> = reader.samples::<f32>().map(|s| s.unwrap()).collect();
    assert_eq!(samples, vec![0.1, -0.25, 0.75, -1.0, 1.0]);
}

#[test]
fn groq_request_targets_groq_turbo_model() {
    let req = groq_request(&vec![make_chunk(vec![0.0; 160])], "test-key").unwrap();
    assert_eq!(req.url, "https://api.groq.com/openai/v1/audio/transcriptions");
    assert_eq!(req.model, "whisper-large-v3-turbo");
    assert_eq!(req.api_key, "test-key");
    assert_eq!(req.response_format, "verbose_json");
    assert_eq!(req.file_name, "audio.wav");
    assert_eq!(req.mime_type, "audio/wav");
    assert_eq!(&req.wav[0..4], b"RIFF");
}

#[test]
fn base_url_request_uses_whisper_1() {
    let req = request_with_base_url(&vec![make_chunk(vec![0.0; 160])], "k", "http://127.0.0.1:1234").unwrap();
    assert_eq!(req.url, "http://127.0.0.1:1234/v1/audio/transcriptions");
    assert_eq!(req.model, "whisper-1");
}

#[test]
fn success_statuses() {
    assert!(is_success_status(200));
    assert!(is_success_status(299));
    assert!(!is_success_status(199));
    assert!(!is_success_status(300));
    assert!(!is_success_status(401));
    assert!(!is_success_status(500));
}

#[test]
fn reply_text_is_trimmed() {
    let r = transcript_from_reply("  Hello world  ", "english".to_string());
    assert_eq!(r.text, "Hello world");
    assert_eq!(r.language, "english");
    let r = transcript_from_reply("\n  trimmed text \t\n", "english".to_string());
    assert_eq!(r.text, "trimmed text");
    let r = transcript_from_reply(" สวัสดี ", "thai".to_string());
    assert_eq!(r.text, "สวัสดี");
    assert_eq!(r.language, "thai");
    let r = transcript_from_reply("\u{3000}\u{a0} ", "x".to_string());
    assert_eq!(r.text, "");
}

#[test]
fn failing_status_becomes_api_error() {
    match api_error(401, Some("{\"error\":{\"message\":\"Invalid API key\"}}".to_string())) {
        TranscribeError::ApiError { status, message } => {
            assert_eq!(status, 401);
            assert!(message.contains("Invalid API key"));
        }
        other => panic!("expected ApiError, got {:?}", other),
    }
    match api_error(500, None) {
        TranscribeError::ApiError { status, message } => {
            assert_eq!(status, 500);
            assert_eq!(message, "");
        }
        other => panic!("expected ApiError, got {:?}", other),
    }
}

#[test]
fn send_error_timeout_or_http() {
    let rt = tokio::runtime::Runtime::new().unwrap();
    let err = rt.block_on(async { reqwest::get("http://[::1]:0/").await.unwrap_err() });
    assert!(matches!(send_error(err, true), TranscribeError::Timeout));
    let err = rt.block_on(async { reqwest::get("http://[::1]:0/").await.unwrap_err() });
    assert!(matches!(send_error(err, false), TranscribeError::HttpError(_)));
}

#[test]
fn wav_fits_counts_all_samples() {
    assert!(wav_fits(&vec![]));
    assert!(wav_fits(&vec![make_chunk(vec![0.0; 10]), make_chunk(vec![0.0; 5])]));
    assert_eq!(MAX_WAV_SAMPLES, 0x3fff_fff0);
}

#[test]
fn encoded_wav_layout_is_header_then_sample_bytes() {
    let samples = vec![0.5f32, -2.0, 0.0];
    let chunks = vec![make_chunk(samples.clone())];
    let wav = encode_chunks_to_wav(&chunks).unwrap();
    assert_eq!(wav.len(), 68 + 4 * samples.len());
    let le = |b: &[u8]| u32::from_le_bytes([b[0], b[1], b[2], b[3]]);
    assert_eq!(le(&wav[4..8]), 60 + 4 * samples.len() as u32);
    assert_eq!(le(&wav[24..28]), 16000);
    assert_eq!(&wav[60..64], b"data");
    assert_eq!(le(&wav[64..68]), 4 * samples.len() as u32);
    for (i, s) in samples.iter().enumerate() {
        assert_eq!(le(&wav[68 + 4 * i..72 + 4 * i]), s.to_bits());
    }
}

#[test]
fn request_carries_the_encoded_audio() {
    let chunks = vec![make_chunk(vec![0.25, -0.5])];
    let req = groq_request(&chunks, "k").unwrap();
    assert_eq!(req.wav, encode_chunks_to_wav(&chunks).unwrap());
}

#[test]
fn request_is_a_bearer_post_with_a_thirty_second_timeout() {
    let req = request_with_base_url(&vec![make_chunk(vec![0.0; 16])], "secret", "http://localhost:8080").unwrap();
    assert_eq!(req.method, "POST");
    assert_eq!(req.auth_scheme, "Bearer");
    assert_eq!(req.timeout_secs, 30);
    assert_eq!(req.api_key, "secret");
    assert_eq!(req.file_name, "audio.wav");
    assert_eq!(req.mime_type, "audio/wav");
}
